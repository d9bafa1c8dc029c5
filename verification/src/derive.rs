//! What is derived for a declaration: the checks that certify it, and the plan of its
//! envelope. A plan says what is to be generated; writing the items out is left to the
//! caller.

use crate::certify::{
    all_expected, all_variants_expected, ensure_valid_repr, field_types,
    generate_transmittable_checks_enum, generate_transmittable_checks_struct,
    generate_transmittable_checks_union, guard_name, has_repr_c, is_first_refused_variant,
    is_first_unexpected, named_among, named_in_variants, shape_name, unexpected_in,
    variant_types, CertifyError, TransmittableChecks,
};
use crate::declaration::{Data, Declaration};
use crate::signature::{ast_hash, spec_ast_hash};
use vstd::prelude::*;
use vstd::string::*;

verus! {

/// What deriving the flat capability for a declaration produces: the checks, and the name of
/// the type that is declared flat.
#[derive(Debug, PartialEq, Eq)]
pub struct TransmittablePlan {
    pub checks: TransmittableChecks,
    pub implementor: String,
}

/// The envelope that is generated for a declaration: it has the visibility of the original
/// type, is named after it, and carries the signature of the declaration.
#[derive(Debug, PartialEq, Eq)]
pub struct EnvelopePlan {
    pub visibility: String,
    pub original: String,
    pub envelope: String,
    pub signature: u32,
}

/// What deriving an envelope for a declaration produces: the checks, then the envelope.
#[derive(Debug, PartialEq, Eq)]
pub struct IpcPlan {
    pub checks: TransmittableChecks,
    pub envelope: EnvelopePlan,
}

/// Whether every field of the declared type has a type made of named types, tuples and arrays.
/// A type whose fields overlap in storage is not looked at.
pub open spec fn is_certifiable(data: Data) -> bool {
    match data {
        Data::Struct(fields) => all_expected(field_types(fields.members())),
        Data::Enum(variants) => all_variants_expected(variants@),
        Data::Union(_) => true,
    }
}

/// Whether `checks` are the checks of the certifiable declaration `decl`.
pub open spec fn are_checks_of(decl: Declaration, checks: TransmittableChecks) -> bool {
    match decl.data {
        Data::Struct(fields) => {
            &&& checks.guard matches Some(name)
            &&& name@ == guard_name(decl.name@)
            &&& checks.obligations@ == named_among(field_types(fields.members()))
        },
        Data::Enum(variants) => {
            &&& checks.guard matches Some(name)
            &&& name@ == guard_name(decl.name@)
            &&& checks.obligations@ == named_in_variants(variants@)
        },
        Data::Union(_) => checks.guard.is_none() && checks.obligations@.len() == 0,
    }
}

/// Whether `error` is the refusal of the fields of `data`: it names the first field that is
/// refused, with the variant that holds it, and the first offending shape in its type.
pub open spec fn is_refusal_of(data: Data, error: CertifyError) -> bool {
    match data {
        Data::Struct(fields) => {
            &&& error matches CertifyError::UnsupportedFieldType { variant, field, shape }
            &&& variant.is_none()
            &&& is_first_unexpected(field_types(fields.members()), field as int)
            &&& shape@ == shape_name(
                unexpected_in(field_types(fields.members())[field as int]).unwrap(),
            )
        },
        Data::Enum(variants) => {
            &&& error matches CertifyError::UnsupportedFieldType { variant, field, shape }
            &&& variant matches Some(at)
            &&& is_first_refused_variant(variants@, at as int)
            &&& is_first_unexpected(variant_types(variants@[at as int]), field as int)
            &&& shape@ == shape_name(
                unexpected_in(variant_types(variants@[at as int])[field as int]).unwrap(),
            )
        },
        Data::Union(_) => false,
    }
}

/// The name of the envelope of the type called `name`.
pub open spec fn envelope_name(name: Seq<char>) -> Seq<char> {
    "Ipc"@ + name
}

/// Certifies the fields of a declaration, whatever kind of type it declares.
pub fn generate_transmittable_checks(ast: &Declaration) -> (result: Result<
    TransmittableChecks,
    CertifyError,
>)
    ensures
        result.is_ok() <==> is_certifiable(ast.data),
        result matches Ok(checks) ==> are_checks_of(*ast, checks),
        result matches Err(error) ==> is_refusal_of(ast.data, error),
{
    match &ast.data {
        Data::Struct(strct) => generate_transmittable_checks_struct(ast, strct),
        Data::Enum(enm) => generate_transmittable_checks_enum(ast, enm),
        Data::Union(unn) => generate_transmittable_checks_union(ast, unn),
    }
}

/// Derives the flat capability for a declaration. The declaration must ask for the
/// C-compatible layout: without it the declaration is refused before any field is looked at.
/// Then the fields are certified and, if none is refused, the type is declared flat.
pub fn derive_transmittable_inner(ast: Declaration) -> (result: Result<
    TransmittablePlan,
    CertifyError,
>)
    ensures
        result.is_ok() <==> has_repr_c(ast.attrs@) && is_certifiable(ast.data),
        result matches Ok(plan) ==> are_checks_of(ast, plan.checks) && plan.implementor
            == ast.name,
        result matches Err(error) ==> if has_repr_c(ast.attrs@) {
            is_refusal_of(ast.data, error)
        } else {
            error == CertifyError::MissingLayoutDirective
        },
{
    match ensure_valid_repr(&ast) {
        Err(error) => {
            return Err(error);
        },
        Ok(_) => {},
    }
    match generate_transmittable_checks(&ast) {
        Ok(checks) => Ok(TransmittablePlan { checks, implementor: ast.name }),
        Err(error) => Err(error),
    }
}

/// Plans the envelope of a declaration.
pub fn generate_padded_version(ast: &Declaration) -> (plan: EnvelopePlan)
    ensures
        plan.visibility == ast.visibility,
        plan.original == ast.name,
        plan.envelope@ == envelope_name(ast.name@),
        plan.signature == spec_ast_hash(*ast),
{
    EnvelopePlan {
        visibility: ast.visibility.clone(),
        original: ast.name.clone(),
        envelope: "Ipc".to_owned().concat(ast.name.as_str()),
        signature: ast_hash(ast),
    }
}

/// Derives an envelope for a declaration. The declaration must ask for the C-compatible
/// layout: without it the declaration is refused before any field is looked at. Then the
/// fields are certified, and only a certified declaration gets its envelope.
pub fn derive_ipc_inner(ast: Declaration) -> (result: Result<IpcPlan, CertifyError>)
    ensures
        result.is_ok() <==> has_repr_c(ast.attrs@) && is_certifiable(ast.data),
        result matches Ok(plan) ==> {
            &&& are_checks_of(ast, plan.checks)
            &&& plan.envelope.visibility == ast.visibility
            &&& plan.envelope.original == ast.name
            &&& plan.envelope.envelope@ == envelope_name(ast.name@)
            &&& plan.envelope.signature == spec_ast_hash(ast)
        },
        result matches Err(error) ==> if has_repr_c(ast.attrs@) {
            is_refusal_of(ast.data, error)
        } else {
            error == CertifyError::MissingLayoutDirective
        },
{
    match ensure_valid_repr(&ast) {
        Err(error) => {
            return Err(error);
        },
        Ok(_) => {},
    }
    match generate_transmittable_checks(&ast) {
        Err(error) => Err(error),
        Ok(checks) => {
            let envelope = generate_padded_version(&ast);
            Ok(IpcPlan { checks, envelope })
        },
    }
}

} // verus!
