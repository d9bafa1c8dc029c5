//! The declaration of a data type, as far as certification and signing read it: the
//! attributes, the name, and the fields with the shape of their types.

use vstd::prelude::*;
use vstd::utf8::encode_utf8;

verus! {

/// The shape of a field's type. Named types, tuples and arrays can be flat; every other shape
/// is refused by certification whatever it holds, so of such a type its kind is kept and, for
/// the signature, the text it was written with.
#[derive(Debug, PartialEq, Eq)]
pub enum TypeShape {
    /// A fixed-size array: the element type, and the text of the length.
    Array { elem: Box<TypeShape>, len: String },
    /// A bare function type, by its text.
    BareFn(String),
    /// A type in an invisible group, by its text.
    Group(String),
    /// An `impl Trait` type, by its text.
    ImplTrait(String),
    /// A type left to be inferred.
    Infer,
    /// A macro in type position, by its text.
    Macro(String),
    /// The never type.
    Never,
    /// A type in parentheses, by its text.
    Paren(String),
    /// A named type, by the text of its path.
    Path(String),
    /// A raw pointer, by its text.
    Ptr(String),
    /// A reference, by its text.
    Reference(String),
    /// A slice of unknown length, by its text.
    Slice(String),
    /// A trait object, by its text.
    TraitObject(String),
    /// A tuple of types.
    Tuple(Vec<TypeShape>),
    /// Tokens that were not interpreted, by their text.
    Verbatim(String),
    /// Any shape not listed above, by its text.
    Other(String),
}

impl TypeShape {
    /// The number of the kind of this shape.
    pub open spec fn kind(self) -> u8 {
        match self {
            TypeShape::Array { .. } => 0,
            TypeShape::BareFn(_) => 1,
            TypeShape::Group(_) => 2,
            TypeShape::ImplTrait(_) => 3,
            TypeShape::Infer => 4,
            TypeShape::Macro(_) => 5,
            TypeShape::Never => 6,
            TypeShape::Paren(_) => 7,
            TypeShape::Path(_) => 8,
            TypeShape::Ptr(_) => 9,
            TypeShape::Reference(_) => 10,
            TypeShape::Slice(_) => 11,
            TypeShape::TraitObject(_) => 12,
            TypeShape::Tuple(_) => 13,
            TypeShape::Verbatim(_) => 14,
            TypeShape::Other(_) => 15,
        }
    }

    /// The text that the shape was written with, for a shape that is kept by its text; `None`
    /// for arrays and tuples, which are kept by their members, and for the two shapes that
    /// are always written the same.
    pub open spec fn text(self) -> Option<Seq<char>> {
        match self {
            TypeShape::Array { .. } => None,
            TypeShape::BareFn(text) => Some(text@),
            TypeShape::Group(text) => Some(text@),
            TypeShape::ImplTrait(text) => Some(text@),
            TypeShape::Infer => None,
            TypeShape::Macro(text) => Some(text@),
            TypeShape::Never => None,
            TypeShape::Paren(text) => Some(text@),
            TypeShape::Path(text) => Some(text@),
            TypeShape::Ptr(text) => Some(text@),
            TypeShape::Reference(text) => Some(text@),
            TypeShape::Slice(text) => Some(text@),
            TypeShape::TraitObject(text) => Some(text@),
            TypeShape::Tuple(_) => None,
            TypeShape::Verbatim(text) => Some(text@),
            TypeShape::Other(text) => Some(text@),
        }
    }
}

/// One field: its name, if it has one, and the shape of its type.
#[derive(Debug, PartialEq, Eq)]
pub struct Field {
    pub name: Option<String>,
    pub ty: TypeShape,
}

/// The fields of a record or of one variant.
#[derive(Debug, PartialEq, Eq)]
pub enum Fields {
    /// Fields with names, in braces.
    Named(Vec<Field>),
    /// Fields without names, in parentheses.
    Unnamed(Vec<Field>),
    /// No fields.
    Unit,
}

/// One variant of a tagged-variant type: its name, its fields, and the text of its explicit
/// discriminant if one is written.
#[derive(Debug, PartialEq, Eq)]
pub struct Variant {
    pub name: String,
    pub fields: Fields,
    pub discriminant: Option<String>,
}

/// What kind of type is declared, with its members.
#[derive(Debug, PartialEq, Eq)]
pub enum Data {
    /// A record.
    Struct(Fields),
    /// A tagged-variant type.
    Enum(Vec<Variant>),
    /// A type whose fields overlap in storage.
    Union(Vec<Field>),
}

/// One attribute: the text of its path, and the paths of the items in its argument list.
/// `#[repr(C, align(8))]` has the path `repr` and the arguments `C` and `align`.
#[derive(Debug, PartialEq, Eq)]
pub struct Attribute {
    pub path: String,
    pub arguments: Vec<String>,
}

/// The declaration of a data type.
#[derive(Debug, PartialEq, Eq)]
pub struct Declaration {
    pub attrs: Vec<Attribute>,
    /// The text of the visibility, empty when the type is private.
    pub visibility: String,
    pub name: String,
    pub data: Data,
}

impl Fields {
    /// The fields in order of declaration; none for `Unit`.
    pub open spec fn members(self) -> Seq<Field> {
        match self {
            Fields::Named(fields) => fields@,
            Fields::Unnamed(fields) => fields@,
            Fields::Unit => Seq::empty(),
        }
    }
}

/// Whether two texts that may be absent read the same: both absent, or both there with the
/// same characters.
pub open spec fn same_optional_text(a: Option<String>, b: Option<String>) -> bool {
    match (a, b) {
        (None, None) => true,
        (Some(a), Some(b)) => a@ == b@,
        _ => false,
    }
}

/// Whether two lists of texts read the same.
pub open spec fn same_texts(a: Seq<String>, b: Seq<String>) -> bool {
    &&& a.len() == b.len()
    &&& forall|at: int| 0 <= at < a.len() ==> (#[trigger] a[at])@ == b[at]@
}

/// Whether two shapes read the same: they are of the same kind and were written with the same
/// text, or have members that read the same.
pub open spec fn same_shape(a: TypeShape, b: TypeShape) -> bool
    decreases a,
{
    match (a, b) {
        (
            TypeShape::Array { elem: a_elem, len: a_len },
            TypeShape::Array { elem: b_elem, len: b_len },
        ) => {
            same_shape(*a_elem, *b_elem) && a_len@ == b_len@
        },
        (TypeShape::Tuple(a_elems), TypeShape::Tuple(b_elems)) => {
            &&& a_elems@.len() == b_elems@.len()
            &&& forall|at: int|
                0 <= at < a_elems@.len() ==> same_shape(#[trigger] a_elems@[at], b_elems@[at])
        },
        _ => {
            &&& a.kind() == b.kind()
            &&& !(a is Array)
            &&& !(a is Tuple)
            &&& a.text() == b.text()
        },
    }
}

/// Whether two lists of shapes read the same, shape by shape.
pub open spec fn same_shapes(a: Seq<TypeShape>, b: Seq<TypeShape>) -> bool {
    &&& a.len() == b.len()
    &&& forall|at: int| 0 <= at < a.len() ==> same_shape(#[trigger] a[at], b[at])
}

/// Whether two fields read the same.
pub open spec fn same_field(a: Field, b: Field) -> bool {
    same_optional_text(a.name, b.name) && same_shape(a.ty, b.ty)
}

/// Whether two lists of fields read the same, field by field.
pub open spec fn same_field_list(a: Seq<Field>, b: Seq<Field>) -> bool {
    &&& a.len() == b.len()
    &&& forall|at: int| 0 <= at < a.len() ==> same_field(#[trigger] a[at], b[at])
}

/// Whether the fields of two records or variants read the same.
pub open spec fn same_fields(a: Fields, b: Fields) -> bool {
    match (a, b) {
        (Fields::Named(a), Fields::Named(b)) => same_field_list(a@, b@),
        (Fields::Unnamed(a), Fields::Unnamed(b)) => same_field_list(a@, b@),
        (Fields::Unit, Fields::Unit) => true,
        _ => false,
    }
}

/// Whether two variants read the same.
pub open spec fn same_variant(a: Variant, b: Variant) -> bool {
    &&& a.name@ == b.name@
    &&& same_fields(a.fields, b.fields)
    &&& same_optional_text(a.discriminant, b.discriminant)
}

/// Whether two lists of variants read the same, variant by variant.
pub open spec fn same_variant_list(a: Seq<Variant>, b: Seq<Variant>) -> bool {
    &&& a.len() == b.len()
    &&& forall|at: int| 0 <= at < a.len() ==> same_variant(#[trigger] a[at], b[at])
}

/// Whether the members of two declared types read the same.
pub open spec fn same_data(a: Data, b: Data) -> bool {
    match (a, b) {
        (Data::Struct(a), Data::Struct(b)) => same_fields(a, b),
        (Data::Enum(a), Data::Enum(b)) => same_variant_list(a@, b@),
        (Data::Union(a), Data::Union(b)) => same_field_list(a@, b@),
        _ => false,
    }
}

/// Whether two attributes read the same.
pub open spec fn same_attribute(a: Attribute, b: Attribute) -> bool {
    a.path@ == b.path@ && same_texts(a.arguments@, b.arguments@)
}

/// Whether two lists of attributes read the same, attribute by attribute.
pub open spec fn same_attribute_list(a: Seq<Attribute>, b: Seq<Attribute>) -> bool {
    &&& a.len() == b.len()
    &&& forall|at: int| 0 <= at < a.len() ==> same_attribute(#[trigger] a[at], b[at])
}

/// Whether two declarations read the same: the same attributes, visibility and name, and
/// members that read the same. Two values that were built apart from the same source text do.
pub open spec fn same_declaration(a: Declaration, b: Declaration) -> bool {
    &&& same_attribute_list(a.attrs@, b.attrs@)
    &&& a.visibility@ == b.visibility@
    &&& a.name@ == b.name@
    &&& same_data(a.data, b.data)
}

/// Whether a count or a length can be written in 8 bytes.
pub open spec fn is_count(count: nat) -> bool {
    count < 0x1_0000_0000_0000_0000
}

/// Whether the length of the UTF-8 form of `text` can be written in 8 bytes. That of every
/// text in memory can.
pub open spec fn is_storable_text(text: Seq<char>) -> bool {
    is_count(encode_utf8(text).len())
}

/// Whether a text that may be absent can be written.
pub open spec fn is_storable_optional_text(text: Option<String>) -> bool {
    match text {
        None => true,
        Some(text) => is_storable_text(text@),
    }
}

/// Whether every text and every count in `ty` can be written.
pub open spec fn is_storable_shape(ty: TypeShape) -> bool
    decreases ty,
{
    match ty {
        TypeShape::Array { elem, len } => is_storable_shape(*elem) && is_storable_text(len@),
        TypeShape::Tuple(elems) => {
            &&& is_count(elems@.len())
            &&& forall|at: int|
                0 <= at < elems@.len() ==> is_storable_shape(#[trigger] elems@[at])
        },
        _ => match ty.text() {
            Some(text) => is_storable_text(text),
            None => true,
        },
    }
}

/// Whether each of `types` can be written.
pub open spec fn are_storable_shapes(types: Seq<TypeShape>) -> bool {
    forall|at: int| 0 <= at < types.len() ==> is_storable_shape(#[trigger] types[at])
}

/// Whether a field can be written.
pub open spec fn is_storable_field(field: Field) -> bool {
    is_storable_optional_text(field.name) && is_storable_shape(field.ty)
}

/// Whether each of `fields` can be written.
pub open spec fn are_storable_fields(fields: Seq<Field>) -> bool {
    forall|at: int| 0 <= at < fields.len() ==> is_storable_field(#[trigger] fields[at])
}

/// Whether the fields of a record or variant can be written.
pub open spec fn is_storable_fields(fields: Fields) -> bool {
    is_count(fields.members().len()) && are_storable_fields(fields.members())
}

/// Whether a variant can be written.
pub open spec fn is_storable_variant(variant: Variant) -> bool {
    &&& is_storable_text(variant.name@)
    &&& is_storable_fields(variant.fields)
    &&& is_storable_optional_text(variant.discriminant)
}

/// Whether each of `variants` can be written.
pub open spec fn are_storable_variants(variants: Seq<Variant>) -> bool {
    forall|at: int| 0 <= at < variants.len() ==> is_storable_variant(#[trigger] variants[at])
}

/// Whether the members of a declared type can be written.
pub open spec fn is_storable_data(data: Data) -> bool {
    match data {
        Data::Struct(fields) => is_storable_fields(fields),
        Data::Enum(variants) => is_count(variants@.len()) && are_storable_variants(variants@),
        Data::Union(fields) => is_count(fields@.len()) && are_storable_fields(fields@),
    }
}

/// Whether each of `texts` can be written.
pub open spec fn are_storable_texts(texts: Seq<String>) -> bool {
    forall|at: int| 0 <= at < texts.len() ==> is_storable_text((#[trigger] texts[at])@)
}

/// Whether an attribute can be written.
pub open spec fn is_storable_attribute(attribute: Attribute) -> bool {
    &&& is_storable_text(attribute.path@)
    &&& is_count(attribute.arguments@.len())
    &&& are_storable_texts(attribute.arguments@)
}

/// Whether each of `attrs` can be written.
pub open spec fn are_storable_attributes(attrs: Seq<Attribute>) -> bool {
    forall|at: int| 0 <= at < attrs.len() ==> is_storable_attribute(#[trigger] attrs[at])
}

/// Whether a declaration can be written: every text in it has a UTF-8 form whose length can be
/// written in 8 bytes, and so can the length of every list in it. Every declaration in memory
/// can.
pub open spec fn is_storable_declaration(decl: Declaration) -> bool {
    &&& is_count(decl.attrs@.len())
    &&& are_storable_attributes(decl.attrs@)
    &&& is_storable_text(decl.visibility@)
    &&& is_storable_text(decl.name@)
    &&& is_storable_data(decl.data)
}

} // verus!
