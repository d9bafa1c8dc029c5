//! The certifier: checks that every field of a declared type has a shape that can be flat, and
//! lists the named types whose flatness is left to be proved where the type is used.

use crate::declaration::{Attribute, Declaration, Field, Fields, TypeShape, Variant};
use vstd::prelude::*;
use vstd::string::*;

verus! {

/// The name under which a shape is reported.
pub open spec fn shape_name(ty: TypeShape) -> Seq<char> {
    match ty {
        TypeShape::Array { .. } => "Array"@,
        TypeShape::BareFn(_) => "BareFn"@,
        TypeShape::Group(_) => "Group"@,
        TypeShape::ImplTrait(_) => "ImplTrait"@,
        TypeShape::Infer => "Infer"@,
        TypeShape::Macro(_) => "Macro"@,
        TypeShape::Never => "Never"@,
        TypeShape::Paren(_) => "Paren"@,
        TypeShape::Path(_) => "Path"@,
        TypeShape::Ptr(_) => "Ptr"@,
        TypeShape::Reference(_) => "Reference"@,
        TypeShape::Slice(_) => "Slice"@,
        TypeShape::TraitObject(_) => "TraitObject"@,
        TypeShape::Tuple(_) => "Tuple"@,
        TypeShape::Verbatim(_) => "Verbatim"@,
        TypeShape::Other(_) => "Other (Unknown)"@,
    }
}

/// The name under which the shape of `ty` is reported.
pub fn type_to_string(ty: &TypeShape) -> (name: String)
    ensures
        name@ == shape_name(*ty),
{
    match ty {
        TypeShape::Array { .. } => "Array".to_owned(),
        TypeShape::BareFn(_) => "BareFn".to_owned(),
        TypeShape::Group(_) => "Group".to_owned(),
        TypeShape::ImplTrait(_) => "ImplTrait".to_owned(),
        TypeShape::Infer => "Infer".to_owned(),
        TypeShape::Macro(_) => "Macro".to_owned(),
        TypeShape::Never => "Never".to_owned(),
        TypeShape::Paren(_) => "Paren".to_owned(),
        TypeShape::Path(_) => "Path".to_owned(),
        TypeShape::Ptr(_) => "Ptr".to_owned(),
        TypeShape::Reference(_) => "Reference".to_owned(),
        TypeShape::Slice(_) => "Slice".to_owned(),
        TypeShape::TraitObject(_) => "TraitObject".to_owned(),
        TypeShape::Tuple(_) => "Tuple".to_owned(),
        TypeShape::Verbatim(_) => "Verbatim".to_owned(),
        TypeShape::Other(_) => "Other (Unknown)".to_owned(),
    }
}

/// The first shape inside `ty`, in reading order, that cannot be flat; `None` when `ty` is
/// made of named types, tuples and arrays alone.
pub open spec fn unexpected_in(ty: TypeShape) -> Option<TypeShape>
    decreases ty,
{
    match ty {
        TypeShape::Path(_) => None,
        TypeShape::Tuple(elems) => unexpected_among(elems@),
        TypeShape::Array { elem, .. } => unexpected_in(*elem),
        _ => Some(ty),
    }
}

/// The first shape inside any of `types`, in reading order, that cannot be flat.
pub open spec fn unexpected_among(types: Seq<TypeShape>) -> Option<TypeShape>
    decreases types,
{
    if types.len() == 0 {
        None
    } else if unexpected_among(types.drop_last()).is_some() {
        unexpected_among(types.drop_last())
    } else {
        unexpected_in(types.last())
    }
}

/// The named types inside `ty`, in reading order: those whose flatness is still to be proved.
pub open spec fn named_in(ty: TypeShape) -> Seq<String>
    decreases ty,
{
    match ty {
        TypeShape::Path(name) => seq![name],
        TypeShape::Tuple(elems) => named_among(elems@),
        TypeShape::Array { elem, .. } => named_in(*elem),
        _ => Seq::empty(),
    }
}

/// The named types inside all of `types`, in reading order.
pub open spec fn named_among(types: Seq<TypeShape>) -> Seq<String>
    decreases types,
{
    if types.len() == 0 {
        Seq::empty()
    } else {
        named_among(types.drop_last()) + named_in(types.last())
    }
}

/// Checks the shape of one field type. A named type is accepted as it stands and listed for
/// the proof that is owed of it; a tuple is checked member by member, an array by its element.
/// Any other shape is refused: the error is the first such shape in reading order.
pub fn ensure_type_exists_for(ty: &TypeShape) -> (result: Result<Vec<String>, String>)
    ensures
        result.is_ok() <==> unexpected_in(*ty).is_none(),
        result.is_ok() ==> result.unwrap()@ == named_in(*ty),
        result.is_err() ==> result.unwrap_err()@ == shape_name(unexpected_in(*ty).unwrap()),
    decreases ty,
{
    match ty {
        TypeShape::Path(name) => {
            let mut named: Vec<String> = Vec::new();
            named.push(name.clone());
            Ok(named)
        },
        TypeShape::Tuple(elems) => {
            let mut named: Vec<String> = Vec::new();
            let mut at: usize = 0;
            while at < elems.len()
                invariant
                    at <= elems@.len(),
                    *ty == TypeShape::Tuple(*elems),
                    unexpected_among(elems@.take(at as int)).is_none(),
                    named@ == named_among(elems@.take(at as int)),
                decreases elems@.len() - at,
            {
                proof {
                    assert(elems@.take(at + 1).drop_last() == elems@.take(at as int));
                    assert(elems@.take(at + 1).last() == elems@[at as int]);
                }
                match ensure_type_exists_for(&elems[at]) {
                    Ok(mut more) => {
                        named.append(&mut more);
                    },
                    Err(unexpected) => {
                        proof {
                            lemma_unexpected_among_prefix(elems@, at + 1);
                        }
                        return Err(unexpected);
                    },
                }
                at = at + 1;
            }
            proof {
                assert(elems@.take(at as int) == elems@);
            }
            Ok(named)
        },
        TypeShape::Array { elem, .. } => ensure_type_exists_for(elem),
        _ => Err(type_to_string(ty)),
    }
}

/// Once a prefix of `types` holds a shape that cannot be flat, that shape is the first one of
/// the whole sequence.
pub proof fn lemma_unexpected_among_prefix(types: Seq<TypeShape>, len: int)
    requires
        0 <= len <= types.len(),
        unexpected_among(types.take(len)).is_some(),
    ensures
        unexpected_among(types) == unexpected_among(types.take(len)),
    decreases types.len(),
{
    if len < types.len() {
        assert(types.drop_last().take(len) == types.take(len));
        lemma_unexpected_among_prefix(types.drop_last(), len);
    } else {
        assert(types.take(len) == types);
    }
}

/// Why a declaration was refused.
#[derive(Debug, PartialEq, Eq)]
pub enum CertifyError {
    /// The declaration does not ask for the C-compatible layout.
    MissingLayoutDirective,
    /// A field has a type that cannot be flat. `variant` is the position of the variant that
    /// holds the field, for a tagged-variant type; `field` is the position of the field among
    /// the fields of the record or of that variant; `shape` names the offending shape.
    UnsupportedFieldType { variant: Option<usize>, field: usize, shape: String },
}

impl CertifyError {
    /// The text of the diagnostic.
    pub open spec fn spec_message(self) -> Seq<char> {
        match self {
            CertifyError::MissingLayoutDirective => "XousIpc only supports repr(C) structs"@,
            CertifyError::UnsupportedFieldType { shape, .. } => "This type "@ + shape@
                + " is unexpected"@,
        }
    }

    /// The text of the diagnostic.
    pub fn message(&self) -> (text: String)
        ensures
            text@ == self.spec_message(),
    {
        match self {
            CertifyError::MissingLayoutDirective => {
                "XousIpc only supports repr(C) structs".to_owned()
            },
            CertifyError::UnsupportedFieldType { shape, .. } => {
                "This type ".to_owned().concat(shape.as_str()).concat(" is unexpected")
            },
        }
    }
}

/// The obligations that certification leaves behind for one declaration.
#[derive(Debug, PartialEq, Eq)]
pub struct TransmittableChecks {
    /// The name of the function that holds the obligations; `None` when the declaration is
    /// not certified at all.
    pub guard: Option<String>,
    /// The named types of which flatness is to be proved, one entry for each place where one
    /// stands, in reading order.
    pub obligations: Vec<String>,
}

/// The types of `fields`, in order.
pub open spec fn field_types(fields: Seq<Field>) -> Seq<TypeShape> {
    fields.map_values(|field: Field| field.ty)
}

/// Whether `at` is the position of the first of `types` that holds a shape that cannot be
/// flat.
pub open spec fn is_first_unexpected(types: Seq<TypeShape>, at: int) -> bool {
    &&& 0 <= at < types.len()
    &&& unexpected_in(types[at]).is_some()
    &&& forall|before: int| 0 <= before < at ==> unexpected_in(#[trigger] types[before]).is_none()
}

/// Whether none of `types` holds a shape that cannot be flat.
pub open spec fn all_expected(types: Seq<TypeShape>) -> bool {
    forall|at: int| 0 <= at < types.len() ==> unexpected_in(#[trigger] types[at]).is_none()
}

/// The name of the function that holds the obligations of the type called `name`.
pub open spec fn guard_name(name: Seq<char>) -> Seq<char> {
    "ensure_members_are_transmittable_for_"@ + name
}

/// The first shape that cannot be flat among `types` is that of the first type that holds
/// one; there is none exactly when every type is made of expected shapes.
pub proof fn lemma_unexpected_among(types: Seq<TypeShape>)
    ensures
        unexpected_among(types).is_none() <==> all_expected(types),
        forall|at: int| is_first_unexpected(types, at) ==> unexpected_among(types) == unexpected_in(
            types[at],
        ),
    decreases types.len(),
{
    if types.len() > 0 {
        let front = types.drop_last();
        lemma_unexpected_among(front);
        assert forall|at: int| 0 <= at < front.len() implies front[at] == types[at] by {}
        if unexpected_among(front).is_some() {
            let bad = choose|at: int| 0 <= at < front.len() && unexpected_in(front[at]).is_some();
            assert(unexpected_in(types[bad]).is_some());
        }
        assert forall|at: int| is_first_unexpected(types, at) implies unexpected_among(types)
            == unexpected_in(types[at]) by {
            if at < front.len() {
                assert(is_first_unexpected(front, at));
            } else {
                assert(all_expected(front));
            }
        }
        if all_expected(types) {
            assert(all_expected(front));
        }
    }
}

/// Certifies the fields of one record or variant, adding what they owe to `obligations`.
/// Returns the position and the shape name of the first field that is refused.
fn certify_fields(fields: &Vec<Field>, obligations: &mut Vec<String>) -> (refused: Option<
    (usize, String),
>)
    ensures
        refused.is_none() <==> all_expected(field_types(fields@)),
        refused.is_none() ==> final(obligations)@ == old(obligations)@ + named_among(
            field_types(fields@),
        ),
        refused.is_some() ==> is_first_unexpected(field_types(fields@), refused.unwrap().0 as int)
            && refused.unwrap().1@ == shape_name(
            unexpected_in(field_types(fields@)[refused.unwrap().0 as int]).unwrap(),
        ),
{
    let ghost types = field_types(fields@);
    let mut at: usize = 0;
    while at < fields.len()
        invariant
            at <= fields@.len(),
            types == field_types(fields@),
            all_expected(types.take(at as int)),
            obligations@ == old(obligations)@ + named_among(types.take(at as int)),
        decreases fields@.len() - at,
    {
        proof {
            assert(types.take(at + 1).drop_last() == types.take(at as int));
            assert(types.take(at + 1).last() == fields@[at as int].ty);
        }
        match ensure_type_exists_for(&fields[at].ty) {
            Ok(mut more) => {
                obligations.append(&mut more);
            },
            Err(shape) => {
                proof {
                    assert forall|before: int| 0 <= before < at implies unexpected_in(
                        #[trigger] types[before],
                    ).is_none() by {
                        assert(types.take(at as int)[before] == types[before]);
                    }
                }
                return Some((at, shape));
            },
        }
        proof {
            assert forall|i: int| 0 <= i < at + 1 implies unexpected_in(
                #[trigger] types.take(at + 1)[i],
            ).is_none() by {
                if i < at {
                    assert(types.take(at as int)[i] == types.take(at + 1)[i]);
                }
            }
        }
        at = at + 1;
    }
    proof {
        assert(types.take(at as int) == types);
    }
    None
}

/// The name of the function that holds the obligations of `decl`.
fn guard_for(decl: &Declaration) -> (name: String)
    ensures
        name@ == guard_name(decl.name@),
{
    "ensure_members_are_transmittable_for_".to_owned().concat(decl.name.as_str())
}

/// Certifies a record: every field must have a type made of named types, tuples and arrays.
/// On success the checks hold one obligation for each named type, in reading order. Otherwise
/// the error names the first field that is refused and the offending shape in it.
pub fn generate_transmittable_checks_struct(decl: &Declaration, strct: &Fields) -> (result: Result<
    TransmittableChecks,
    CertifyError,
>)
    ensures
        result.is_ok() <==> all_expected(field_types(strct.members())),
        result matches Ok(checks) ==> {
            &&& checks.guard matches Some(name)
            &&& name@ == guard_name(decl.name@)
            &&& checks.obligations@ == named_among(field_types(strct.members()))
        },
        result matches Err(error) ==> {
            &&& error matches CertifyError::UnsupportedFieldType { variant, field, shape }
            &&& variant.is_none()
            &&& is_first_unexpected(field_types(strct.members()), field as int)
            &&& shape@ == shape_name(
                unexpected_in(field_types(strct.members())[field as int]).unwrap(),
            )
        },
{
    let mut obligations: Vec<String> = Vec::new();
    let refused = match strct {
        Fields::Named(fields) => certify_fields(fields, &mut obligations),
        Fields::Unnamed(fields) => certify_fields(fields, &mut obligations),
        Fields::Unit => None,
    };
    match refused {
        Some((field, shape)) => Err(
            CertifyError::UnsupportedFieldType { variant: None, field, shape },
        ),
        None => Ok(TransmittableChecks { guard: Some(guard_for(decl)), obligations }),
    }
}

/// The types of the fields of `variant`, in order.
pub open spec fn variant_types(variant: Variant) -> Seq<TypeShape> {
    field_types(variant.fields.members())
}

/// The named types inside the fields of all of `variants`, in reading order.
pub open spec fn named_in_variants(variants: Seq<Variant>) -> Seq<String>
    decreases variants.len(),
{
    if variants.len() == 0 {
        Seq::empty()
    } else {
        named_in_variants(variants.drop_last()) + named_among(variant_types(variants.last()))
    }
}

/// Whether `at` is the position of the first of `variants` with a field that is refused.
pub open spec fn is_first_refused_variant(variants: Seq<Variant>, at: int) -> bool {
    &&& 0 <= at < variants.len()
    &&& !all_expected(variant_types(variants[at]))
    &&& forall|before: int|
        0 <= before < at ==> all_expected(variant_types(#[trigger] variants[before]))
}

/// Whether no field of any of `variants` is refused.
pub open spec fn all_variants_expected(variants: Seq<Variant>) -> bool {
    forall|at: int|
        0 <= at < variants.len() ==> all_expected(variant_types(#[trigger] variants[at]))
}

/// Certifies a tagged-variant type: the fields of every variant are certified, whichever
/// variant a value may hold. On success the checks hold one obligation for each named type of
/// each variant, in reading order. Otherwise the error names the first variant with a field
/// that is refused, the first such field in it, and the offending shape.
pub fn generate_transmittable_checks_enum(decl: &Declaration, enm: &Vec<Variant>) -> (result:
    Result<TransmittableChecks, CertifyError>)
    ensures
        result.is_ok() <==> all_variants_expected(enm@),
        result matches Ok(checks) ==> {
            &&& checks.guard matches Some(name)
            &&& name@ == guard_name(decl.name@)
            &&& checks.obligations@ == named_in_variants(enm@)
        },
        result matches Err(error) ==> {
            &&& error matches CertifyError::UnsupportedFieldType { variant, field, shape }
            &&& variant matches Some(at)
            &&& is_first_refused_variant(enm@, at as int)
            &&& is_first_unexpected(variant_types(enm@[at as int]), field as int)
            &&& shape@ == shape_name(
                unexpected_in(variant_types(enm@[at as int])[field as int]).unwrap(),
            )
        },
{
    let mut obligations: Vec<String> = Vec::new();
    let mut at: usize = 0;
    while at < enm.len()
        invariant
            at <= enm@.len(),
            all_variants_expected(enm@.take(at as int)),
            obligations@ == named_in_variants(enm@.take(at as int)),
        decreases enm@.len() - at,
    {
        proof {
            assert(enm@.take(at + 1).drop_last() == enm@.take(at as int));
            assert(enm@.take(at + 1).last() == enm@[at as int]);
        }
        let refused = match &enm[at].fields {
            Fields::Named(fields) => certify_fields(fields, &mut obligations),
            Fields::Unnamed(fields) => certify_fields(fields, &mut obligations),
            Fields::Unit => None,
        };
        match refused {
            Some((field, shape)) => {
                proof {
                    assert forall|before: int| 0 <= before < at implies all_expected(
                        variant_types(#[trigger] enm@[before]),
                    ) by {
                        assert(enm@.take(at as int)[before] == enm@[before]);
                    }
                }
                return Err(CertifyError::UnsupportedFieldType { variant: Some(at), field, shape });
            },
            None => {},
        }
        proof {
            assert forall|i: int| 0 <= i < at + 1 implies all_expected(
                variant_types(#[trigger] enm@.take(at + 1)[i]),
            ) by {
                if i < at {
                    assert(enm@.take(at as int)[i] == enm@.take(at + 1)[i]);
                }
            }
        }
        at = at + 1;
    }
    proof {
        assert(enm@.take(at as int) == enm@);
    }
    Ok(TransmittableChecks { guard: Some(guard_for(decl)), obligations })
}

/// Certifies a type whose fields overlap in storage. Nothing is checked and nothing is owed:
/// such a declaration is taken on trust, whatever its fields are.
pub fn generate_transmittable_checks_union(decl: &Declaration, unn: &Vec<Field>) -> (result: Result<
    TransmittableChecks,
    CertifyError,
>)
    ensures
        result matches Ok(checks) && checks.guard.is_none() && checks.obligations@.len() == 0,
{
    Ok(TransmittableChecks { guard: None, obligations: Vec::new() })
}

/// Whether `attribute` asks for the C-compatible layout: it is `repr` with `C` among its
/// arguments.
pub open spec fn is_repr_c(attribute: Attribute) -> bool {
    &&& attribute.path@ == "repr"@
    &&& exists|at: int|
        0 <= at < attribute.arguments@.len() && (#[trigger] attribute.arguments@[at])@ == "C"@
}

/// Whether one of `attrs` asks for the C-compatible layout.
pub open spec fn has_repr_c(attrs: Seq<Attribute>) -> bool {
    exists|at: int| 0 <= at < attrs.len() && is_repr_c(#[trigger] attrs[at])
}

/// Whether `attribute` asks for the C-compatible layout.
fn attribute_is_repr_c(attribute: &Attribute) -> (found: bool)
    ensures
        found == is_repr_c(*attribute),
{
    let repr = "repr".to_owned();
    let c = "C".to_owned();
    if attribute.path != repr {
        return false;
    }
    let mut at: usize = 0;
    while at < attribute.arguments.len()
        invariant
            at <= attribute.arguments@.len(),
            attribute.path@ == "repr"@,
            c@ == "C"@,
            forall|before: int|
                0 <= before < at ==> (#[trigger] attribute.arguments@[before])@ != "C"@,
        decreases attribute.arguments@.len() - at,
    {
        if attribute.arguments[at] == c {
            return true;
        }
        at = at + 1;
    }
    false
}

/// Checks that the declaration asks for the C-compatible layout. Without that directive the
/// declaration is refused, whatever its fields are.
pub fn ensure_valid_repr(decl: &Declaration) -> (result: Result<(), CertifyError>)
    ensures
        result.is_ok() <==> has_repr_c(decl.attrs@),
        result matches Err(error) ==> error == CertifyError::MissingLayoutDirective,
{
    let mut at: usize = 0;
    while at < decl.attrs.len()
        invariant
            at <= decl.attrs@.len(),
            forall|before: int| 0 <= before < at ==> !is_repr_c(#[trigger] decl.attrs@[before]),
        decreases decl.attrs@.len() - at,
    {
        if attribute_is_repr_c(&decl.attrs[at]) {
            return Ok(());
        }
        at = at + 1;
    }
    Err(CertifyError::MissingLayoutDirective)
}

} // verus!
