//! The signature of a declaration: a 32-bit fingerprint of its structure.
//!
//! The declaration is written out as bytes, every part of it in order and every text with its
//! length, the bytes are hashed, and the two halves of the 64-bit hash are folded into one.
//! Declarations that read the same have the same signature. A signature is only compared for
//! equality, and only with signatures made by the same build.

use crate::declaration::{
    are_storable_attributes, are_storable_fields, are_storable_texts, are_storable_variants,
    is_count, is_storable_attribute, is_storable_data, is_storable_declaration, is_storable_field,
    is_storable_fields, is_storable_optional_text, is_storable_shape, is_storable_text,
    is_storable_variant, same_attribute, same_attribute_list, same_data, same_declaration,
    same_field, same_field_list, same_fields, same_optional_text, same_shape, same_shapes,
    same_texts, same_variant, same_variant_list, Attribute, Data, Declaration, Field, Fields,
    TypeShape, Variant,
};
use crate::little_endian::{le_bytes, store_le};
use std::collections::hash_map::DefaultHasher;
use std::hash::Hasher;
use vstd::prelude::*;
use vstd::std_specs::hash::*;
use vstd::string::*;

verus! {

/// The 32-bit fold of a 64-bit hash: its upper half combined with its lower half by
/// exclusive or.
pub open spec fn spec_fold_hash(full_hash: u64) -> u32 {
    ((full_hash >> 32) as u32) ^ (full_hash as u32)
}

/// Folds a 64-bit hash into 32 bits.
pub fn fold_hash(full_hash: u64) -> (folded: u32)
    ensures
        folded == spec_fold_hash(full_hash),
{
    let upper: u32 = #[verifier::truncate] ((full_hash >> 32) as u32);
    let lower: u32 = #[verifier::truncate] (full_hash as u32);
    upper ^ lower
}

/// A count or a length, written as 8 bytes with the low byte first.
pub open spec fn encode_count(count: nat) -> Seq<u8> {
    le_bytes(count, 8)
}

/// A text: the length of its UTF-8 form, then that form.
pub open spec fn encode_text(text: Seq<char>) -> Seq<u8> {
    encode_count(vstd::utf8::encode_utf8(text).len()) + vstd::utf8::encode_utf8(text)
}

/// A text that may be absent: one byte that tells whether it is there, then the text.
pub open spec fn encode_optional_text(text: Option<String>) -> Seq<u8> {
    match text {
        None => seq![0u8],
        Some(text) => seq![1u8] + encode_text(text@),
    }
}

/// A shape: the number of its kind, then what it holds: the text it was written with, or its
/// members.
pub open spec fn encode_shape(ty: TypeShape) -> Seq<u8>
    decreases ty,
{
    match ty {
        TypeShape::Array { elem, len } => seq![ty.kind()] + encode_shape(*elem) + encode_text(
            len@,
        ),
        TypeShape::Tuple(elems) => seq![ty.kind()] + encode_count(elems@.len()) + encode_shapes(
            elems@,
        ),
        _ => match ty.text() {
            Some(text) => seq![ty.kind()] + encode_text(text),
            None => seq![ty.kind()],
        },
    }
}

/// Shapes one after the other.
pub open spec fn encode_shapes(types: Seq<TypeShape>) -> Seq<u8>
    decreases types,
{
    if types.len() == 0 {
        Seq::empty()
    } else {
        encode_shapes(types.drop_last()) + encode_shape(types.last())
    }
}

/// A field: its name, if any, then the shape of its type.
pub open spec fn encode_field(field: Field) -> Seq<u8> {
    encode_optional_text(field.name) + encode_shape(field.ty)
}

/// Fields one after the other.
pub open spec fn encode_field_list(fields: Seq<Field>) -> Seq<u8>
    decreases fields.len(),
{
    if fields.len() == 0 {
        Seq::empty()
    } else {
        encode_field_list(fields.drop_last()) + encode_field(fields.last())
    }
}

/// The fields of a record or variant: how they are written, how many, then each.
pub open spec fn encode_fields(fields: Fields) -> Seq<u8> {
    match fields {
        Fields::Named(list) => seq![0u8] + encode_count(list@.len()) + encode_field_list(list@),
        Fields::Unnamed(list) => seq![1u8] + encode_count(list@.len()) + encode_field_list(list@),
        Fields::Unit => seq![2u8],
    }
}

/// A variant: its name, its fields, its discriminant if one is written.
pub open spec fn encode_variant(variant: Variant) -> Seq<u8> {
    encode_text(variant.name@) + encode_fields(variant.fields) + encode_optional_text(
        variant.discriminant,
    )
}

/// Variants one after the other.
pub open spec fn encode_variant_list(variants: Seq<Variant>) -> Seq<u8>
    decreases variants.len(),
{
    if variants.len() == 0 {
        Seq::empty()
    } else {
        encode_variant_list(variants.drop_last()) + encode_variant(variants.last())
    }
}

/// The members of the declared type, after a byte for its kind.
pub open spec fn encode_data(data: Data) -> Seq<u8> {
    match data {
        Data::Struct(fields) => seq![0u8] + encode_fields(fields),
        Data::Enum(variants) => seq![1u8] + encode_count(variants@.len()) + encode_variant_list(
            variants@,
        ),
        Data::Union(fields) => seq![2u8] + encode_count(fields@.len()) + encode_field_list(
            fields@,
        ),
    }
}

/// Texts one after the other.
pub open spec fn encode_text_list(texts: Seq<String>) -> Seq<u8>
    decreases texts.len(),
{
    if texts.len() == 0 {
        Seq::empty()
    } else {
        encode_text_list(texts.drop_last()) + encode_text(texts.last()@)
    }
}

/// An attribute: its path, then its arguments.
pub open spec fn encode_attribute(attribute: Attribute) -> Seq<u8> {
    encode_text(attribute.path@) + encode_count(attribute.arguments@.len()) + encode_text_list(
        attribute.arguments@,
    )
}

/// Attributes one after the other.
pub open spec fn encode_attribute_list(attrs: Seq<Attribute>) -> Seq<u8>
    decreases attrs.len(),
{
    if attrs.len() == 0 {
        Seq::empty()
    } else {
        encode_attribute_list(attrs.drop_last()) + encode_attribute(attrs.last())
    }
}

/// The bytes that are hashed for a declaration: its attributes, visibility, name and members.
pub open spec fn encode_declaration(decl: Declaration) -> Seq<u8> {
    encode_count(decl.attrs@.len()) + encode_attribute_list(decl.attrs@) + encode_text(
        decl.visibility@,
    ) + encode_text(decl.name@) + encode_data(decl.data)
}

/// The signature of a declaration: the fold of the hash of its bytes, written to a fresh
/// hasher in one piece.
pub open spec fn spec_ast_hash(decl: Declaration) -> u32 {
    spec_fold_hash(DefaultHasher::spec_finish(seq![encode_declaration(decl)]))
}

/// Appends a count.
fn write_count(count: usize, out: &mut Vec<u8>)
    ensures
        final(out)@ == old(out)@ + encode_count(count as nat),
{
    store_le(count as u128, 8, out);
}

/// Appends a text.
fn write_text(text: &str, out: &mut Vec<u8>)
    ensures
        final(out)@ == old(out)@ + encode_text(text@),
        is_storable_text(text@),
{
    let bytes = text.as_bytes();
    write_count(bytes.len(), out);
    out.extend_from_slice(bytes);
    assert(out@ == old(out)@ + (encode_count(bytes@.len()) + bytes@));
}

/// Appends a text that may be absent.
fn write_optional_text(text: &Option<String>, out: &mut Vec<u8>)
    ensures
        final(out)@ == old(out)@ + encode_optional_text(*text),
        is_storable_optional_text(*text),
{
    match text {
        None => {
            out.push(0);
        },
        Some(text) => {
            out.push(1);
            write_text(text.as_str(), out);
            assert(out@ == old(out)@ + (seq![1u8] + encode_text(text@)));
        },
    }
}

/// The number of the kind of `ty`.
fn kind_of(ty: &TypeShape) -> (kind: u8)
    ensures
        kind == ty.kind(),
{
    match ty {
        TypeShape::Array { .. } => 0,
        TypeShape::BareFn(_) => 1,
        TypeShape::Group(_) => 2,
        TypeShape::ImplTrait(_) => 3,
        TypeShape::Infer => 4,
        TypeShape::Macro(_) => 5,
        TypeShape::Never => 6,
        TypeShape::Paren(_) => 7,
        TypeShape::Path(_) => 8,
        TypeShape::Ptr(_) => 9,
        TypeShape::Reference(_) => 10,
        TypeShape::Slice(_) => 11,
        TypeShape::TraitObject(_) => 12,
        TypeShape::Tuple(_) => 13,
        TypeShape::Verbatim(_) => 14,
        TypeShape::Other(_) => 15,
    }
}

/// The text that `ty` was written with, if it is kept by its text.
fn text_of(ty: &TypeShape) -> (text: Option<&String>)
    ensures
        text.is_some() <==> ty.text().is_some(),
        text.is_some() ==> text.unwrap()@ == ty.text().unwrap(),
{
    match ty {
        TypeShape::Array { .. } => None,
        TypeShape::BareFn(text) => Some(text),
        TypeShape::Group(text) => Some(text),
        TypeShape::ImplTrait(text) => Some(text),
        TypeShape::Infer => None,
        TypeShape::Macro(text) => Some(text),
        TypeShape::Never => None,
        TypeShape::Paren(text) => Some(text),
        TypeShape::Path(text) => Some(text),
        TypeShape::Ptr(text) => Some(text),
        TypeShape::Reference(text) => Some(text),
        TypeShape::Slice(text) => Some(text),
        TypeShape::TraitObject(text) => Some(text),
        TypeShape::Tuple(_) => None,
        TypeShape::Verbatim(text) => Some(text),
        TypeShape::Other(text) => Some(text),
    }
}

/// Appends a shape.
fn write_shape(ty: &TypeShape, out: &mut Vec<u8>)
    ensures
        final(out)@ == old(out)@ + encode_shape(*ty),
        is_storable_shape(*ty),
    decreases ty,
{
    out.push(kind_of(ty));
    match ty {
        TypeShape::Array { elem, len } => {
            write_shape(elem, out);
            write_text(len.as_str(), out);
            assert(out@ == old(out)@ + (seq![ty.kind()] + encode_shape(**elem) + encode_text(
                len@,
            )));
        },
        TypeShape::Tuple(elems) => {
            write_count(elems.len(), out);
            let ghost start = out@;
            let mut at: usize = 0;
            while at < elems.len()
                invariant
                    at <= elems@.len(),
                    *ty == TypeShape::Tuple(*elems),
                    out@ == start + encode_shapes(elems@.take(at as int)),
                    forall|before: int|
                        0 <= before < at ==> is_storable_shape(#[trigger] elems@[before]),
                decreases elems@.len() - at,
            {
                proof {
                    assert(elems@.take(at + 1).drop_last() == elems@.take(at as int));
                    assert(elems@.take(at + 1).last() == elems@[at as int]);
                }
                assert(ty->Tuple_0 == *elems);
                write_shape(&elems[at], out);
                assert(out@ == start + (encode_shapes(elems@.take(at as int)) + encode_shape(
                    elems@[at as int],
                )));
                at = at + 1;
            }
            proof {
                assert(elems@.take(at as int) == elems@);
            }
            assert(out@ == old(out)@ + (seq![ty.kind()] + encode_count(elems@.len())
                + encode_shapes(elems@)));
        },
        _ => match text_of(ty) {
            Some(text) => {
                write_text(text.as_str(), out);
                assert(out@ == old(out)@ + (seq![ty.kind()] + encode_text(text@)));
            },
            None => {
                assert(out@ == old(out)@ + seq![ty.kind()]);
            },
        },
    }
}

/// Appends fields one after the other.
fn write_field_list(fields: &Vec<Field>, out: &mut Vec<u8>)
    ensures
        final(out)@ == old(out)@ + encode_field_list(fields@),
        is_count(fields@.len()),
        are_storable_fields(fields@),
{
    let mut at: usize = 0;
    assert(out@ == old(out)@ + encode_field_list(fields@.take(0)));
    while at < fields.len()
        invariant
            at <= fields@.len(),
            out@ == old(out)@ + encode_field_list(fields@.take(at as int)),
            forall|before: int| 0 <= before < at ==> is_storable_field(#[trigger] fields@[before]),
        decreases fields@.len() - at,
    {
        proof {
            assert(fields@.take(at + 1).drop_last() == fields@.take(at as int));
            assert(fields@.take(at + 1).last() == fields@[at as int]);
        }
        let field = &fields[at];
        write_optional_text(&field.name, out);
        write_shape(&field.ty, out);
        assert(out@ == old(out)@ + (encode_field_list(fields@.take(at as int)) + (
        encode_optional_text(field.name) + encode_shape(field.ty))));
        at = at + 1;
    }
    proof {
        assert(fields@.take(at as int) == fields@);
    }
}

/// Appends the fields of a record or variant.
fn write_fields(fields: &Fields, out: &mut Vec<u8>)
    ensures
        final(out)@ == old(out)@ + encode_fields(*fields),
        is_storable_fields(*fields),
{
    match fields {
        Fields::Named(list) => {
            out.push(0);
            write_count(list.len(), out);
            write_field_list(list, out);
            assert(out@ == old(out)@ + (seq![0u8] + encode_count(list@.len()) + encode_field_list(
                list@,
            )));
        },
        Fields::Unnamed(list) => {
            out.push(1);
            write_count(list.len(), out);
            write_field_list(list, out);
            assert(out@ == old(out)@ + (seq![1u8] + encode_count(list@.len()) + encode_field_list(
                list@,
            )));
        },
        Fields::Unit => {
            out.push(2);
        },
    }
}

/// Appends variants one after the other.
fn write_variant_list(variants: &Vec<Variant>, out: &mut Vec<u8>)
    ensures
        final(out)@ == old(out)@ + encode_variant_list(variants@),
        is_count(variants@.len()),
        are_storable_variants(variants@),
{
    let mut at: usize = 0;
    assert(out@ == old(out)@ + encode_variant_list(variants@.take(0)));
    while at < variants.len()
        invariant
            at <= variants@.len(),
            out@ == old(out)@ + encode_variant_list(variants@.take(at as int)),
            forall|before: int|
                0 <= before < at ==> is_storable_variant(#[trigger] variants@[before]),
        decreases variants@.len() - at,
    {
        proof {
            assert(variants@.take(at + 1).drop_last() == variants@.take(at as int));
            assert(variants@.take(at + 1).last() == variants@[at as int]);
        }
        let variant = &variants[at];
        write_text(variant.name.as_str(), out);
        write_fields(&variant.fields, out);
        write_optional_text(&variant.discriminant, out);
        assert(out@ == old(out)@ + (encode_variant_list(variants@.take(at as int)) + (encode_text(
            variant.name@,
        ) + encode_fields(variant.fields) + encode_optional_text(variant.discriminant))));
        at = at + 1;
    }
    proof {
        assert(variants@.take(at as int) == variants@);
    }
}

/// Appends the members of the declared type.
fn write_data(data: &Data, out: &mut Vec<u8>)
    ensures
        final(out)@ == old(out)@ + encode_data(*data),
        is_storable_data(*data),
{
    match data {
        Data::Struct(fields) => {
            out.push(0);
            write_fields(fields, out);
            assert(out@ == old(out)@ + (seq![0u8] + encode_fields(*fields)));
        },
        Data::Enum(variants) => {
            out.push(1);
            write_count(variants.len(), out);
            write_variant_list(variants, out);
            assert(out@ == old(out)@ + (seq![1u8] + encode_count(variants@.len())
                + encode_variant_list(variants@)));
        },
        Data::Union(fields) => {
            out.push(2);
            write_count(fields.len(), out);
            write_field_list(fields, out);
            assert(out@ == old(out)@ + (seq![2u8] + encode_count(fields@.len())
                + encode_field_list(fields@)));
        },
    }
}

/// Appends texts one after the other.
fn write_text_list(texts: &Vec<String>, out: &mut Vec<u8>)
    ensures
        final(out)@ == old(out)@ + encode_text_list(texts@),
        is_count(texts@.len()),
        are_storable_texts(texts@),
{
    let mut at: usize = 0;
    assert(out@ == old(out)@ + encode_text_list(texts@.take(0)));
    while at < texts.len()
        invariant
            at <= texts@.len(),
            out@ == old(out)@ + encode_text_list(texts@.take(at as int)),
            forall|before: int| 0 <= before < at ==> is_storable_text((#[trigger] texts@[before])@),
        decreases texts@.len() - at,
    {
        proof {
            assert(texts@.take(at + 1).drop_last() == texts@.take(at as int));
            assert(texts@.take(at + 1).last() == texts@[at as int]);
        }
        write_text(texts[at].as_str(), out);
        assert(out@ == old(out)@ + (encode_text_list(texts@.take(at as int)) + encode_text(
            texts@[at as int]@,
        )));
        at = at + 1;
    }
    proof {
        assert(texts@.take(at as int) == texts@);
    }
}

/// Appends attributes one after the other.
fn write_attribute_list(attrs: &Vec<Attribute>, out: &mut Vec<u8>)
    ensures
        final(out)@ == old(out)@ + encode_attribute_list(attrs@),
        is_count(attrs@.len()),
        are_storable_attributes(attrs@),
{
    let mut at: usize = 0;
    assert(out@ == old(out)@ + encode_attribute_list(attrs@.take(0)));
    while at < attrs.len()
        invariant
            at <= attrs@.len(),
            out@ == old(out)@ + encode_attribute_list(attrs@.take(at as int)),
            forall|before: int|
                0 <= before < at ==> is_storable_attribute(#[trigger] attrs@[before]),
        decreases attrs@.len() - at,
    {
        proof {
            assert(attrs@.take(at + 1).drop_last() == attrs@.take(at as int));
            assert(attrs@.take(at + 1).last() == attrs@[at as int]);
        }
        let attribute = &attrs[at];
        write_text(attribute.path.as_str(), out);
        write_count(attribute.arguments.len(), out);
        write_text_list(&attribute.arguments, out);
        assert(out@ == old(out)@ + (encode_attribute_list(attrs@.take(at as int)) + (encode_text(
            attribute.path@,
        ) + encode_count(attribute.arguments@.len()) + encode_text_list(attribute.arguments@))));
        at = at + 1;
    }
    proof {
        assert(attrs@.take(at as int) == attrs@);
    }
}

/// Writes out the bytes that are hashed for a declaration. Every declaration can be written.
pub fn declaration_bytes(decl: &Declaration) -> (bytes: Vec<u8>)
    ensures
        bytes@ == encode_declaration(*decl),
        is_storable_declaration(*decl),
{
    let mut out: Vec<u8> = Vec::new();
    write_count(decl.attrs.len(), &mut out);
    write_attribute_list(&decl.attrs, &mut out);
    write_text(decl.visibility.as_str(), &mut out);
    write_text(decl.name.as_str(), &mut out);
    write_data(&decl.data, &mut out);
    assert(out@ == encode_count(decl.attrs@.len()) + encode_attribute_list(decl.attrs@)
        + encode_text(decl.visibility@) + encode_text(decl.name@) + encode_data(decl.data));
    out
}

/// Computes the signature of a declaration.
pub fn ast_hash(ast: &Declaration) -> (signature: u32)
    ensures
        signature == spec_ast_hash(*ast),
{
    let bytes = declaration_bytes(ast);
    let mut hasher = DefaultHasher::new();
    hasher.write(bytes.as_slice());
    assert(hasher@ == seq![encode_declaration(*ast)]);
    let full_hash = hasher.finish();
    fold_hash(full_hash)
}

/// Texts that read the same are written out the same.
proof fn lemma_same_optional_text(a: Option<String>, b: Option<String>)
    requires
        same_optional_text(a, b),
    ensures
        encode_optional_text(a) == encode_optional_text(b),
{
}

/// Lists of texts that read the same are written out the same.
proof fn lemma_same_texts(a: Seq<String>, b: Seq<String>)
    requires
        same_texts(a, b),
    ensures
        encode_text_list(a) == encode_text_list(b),
    decreases a.len(),
{
    if a.len() > 0 {
        assert(a.last()@ == b.last()@);
        assert(same_texts(a.drop_last(), b.drop_last())) by {
            assert forall|at: int| 0 <= at < a.drop_last().len() implies (
            #[trigger] a.drop_last()[at])@ == b.drop_last()[at]@ by {
                assert(a[at]@ == b[at]@);
            }
        }
        lemma_same_texts(a.drop_last(), b.drop_last());
    }
}

/// Shapes that read the same are written out the same.
proof fn lemma_same_shape(a: TypeShape, b: TypeShape)
    requires
        same_shape(a, b),
    ensures
        encode_shape(a) == encode_shape(b),
    decreases a,
{
    match (a, b) {
        (TypeShape::Array { elem: a_elem, .. }, TypeShape::Array { elem: b_elem, .. }) => {
            lemma_same_shape(*a_elem, *b_elem);
        },
        (TypeShape::Tuple(a_elems), TypeShape::Tuple(b_elems)) => {
            lemma_same_shapes(a_elems@, b_elems@);
        },
        _ => {},
    }
}

/// Lists of shapes that read the same are written out the same.
proof fn lemma_same_shapes(a: Seq<TypeShape>, b: Seq<TypeShape>)
    requires
        same_shapes(a, b),
    ensures
        encode_shapes(a) == encode_shapes(b),
    decreases a,
{
    if a.len() > 0 {
        assert(same_shape(a.last(), b.last()));
        assert(same_shapes(a.drop_last(), b.drop_last())) by {
            assert forall|at: int| 0 <= at < a.drop_last().len() implies same_shape(
                #[trigger] a.drop_last()[at],
                b.drop_last()[at],
            ) by {
                assert(same_shape(a[at], b[at]));
            }
        }
        lemma_same_shapes(a.drop_last(), b.drop_last());
        lemma_same_shape(a.last(), b.last());
    }
}

/// Lists of fields that read the same are written out the same.
proof fn lemma_same_field_list(a: Seq<Field>, b: Seq<Field>)
    requires
        same_field_list(a, b),
    ensures
        encode_field_list(a) == encode_field_list(b),
    decreases a.len(),
{
    if a.len() > 0 {
        assert(same_field(a.last(), b.last()));
        lemma_same_optional_text(a.last().name, b.last().name);
        lemma_same_shape(a.last().ty, b.last().ty);
        assert(same_field_list(a.drop_last(), b.drop_last())) by {
            assert forall|at: int| 0 <= at < a.drop_last().len() implies same_field(
                #[trigger] a.drop_last()[at],
                b.drop_last()[at],
            ) by {
                assert(same_field(a[at], b[at]));
            }
        }
        lemma_same_field_list(a.drop_last(), b.drop_last());
    }
}

/// The fields of two records or variants that read the same are written out the same.
proof fn lemma_same_fields(a: Fields, b: Fields)
    requires
        same_fields(a, b),
    ensures
        encode_fields(a) == encode_fields(b),
{
    match (a, b) {
        (Fields::Named(a), Fields::Named(b)) => lemma_same_field_list(a@, b@),
        (Fields::Unnamed(a), Fields::Unnamed(b)) => lemma_same_field_list(a@, b@),
        _ => {},
    }
}

/// Lists of variants that read the same are written out the same.
proof fn lemma_same_variant_list(a: Seq<Variant>, b: Seq<Variant>)
    requires
        same_variant_list(a, b),
    ensures
        encode_variant_list(a) == encode_variant_list(b),
    decreases a.len(),
{
    if a.len() > 0 {
        assert(same_variant(a.last(), b.last()));
        lemma_same_fields(a.last().fields, b.last().fields);
        lemma_same_optional_text(a.last().discriminant, b.last().discriminant);
        assert(same_variant_list(a.drop_last(), b.drop_last())) by {
            assert forall|at: int| 0 <= at < a.drop_last().len() implies same_variant(
                #[trigger] a.drop_last()[at],
                b.drop_last()[at],
            ) by {
                assert(same_variant(a[at], b[at]));
            }
        }
        lemma_same_variant_list(a.drop_last(), b.drop_last());
    }
}

/// The members of two declared types that read the same are written out the same.
proof fn lemma_same_data(a: Data, b: Data)
    requires
        same_data(a, b),
    ensures
        encode_data(a) == encode_data(b),
{
    match (a, b) {
        (Data::Struct(a), Data::Struct(b)) => lemma_same_fields(a, b),
        (Data::Enum(a), Data::Enum(b)) => lemma_same_variant_list(a@, b@),
        (Data::Union(a), Data::Union(b)) => lemma_same_field_list(a@, b@),
        _ => {},
    }
}

/// Lists of attributes that read the same are written out the same.
proof fn lemma_same_attribute_list(a: Seq<Attribute>, b: Seq<Attribute>)
    requires
        same_attribute_list(a, b),
    ensures
        encode_attribute_list(a) == encode_attribute_list(b),
    decreases a.len(),
{
    if a.len() > 0 {
        assert(same_attribute(a.last(), b.last()));
        lemma_same_texts(a.last().arguments@, b.last().arguments@);
        assert(same_attribute_list(a.drop_last(), b.drop_last())) by {
            assert forall|at: int| 0 <= at < a.drop_last().len() implies same_attribute(
                #[trigger] a.drop_last()[at],
                b.drop_last()[at],
            ) by {
                assert(same_attribute(a[at], b[at]));
            }
        }
        lemma_same_attribute_list(a.drop_last(), b.drop_last());
    }
}

/// Declarations that read the same are written out as the same bytes.
pub proof fn lemma_same_bytes(first: Declaration, second: Declaration)
    requires
        same_declaration(first, second),
    ensures
        encode_declaration(first) == encode_declaration(second),
{
    lemma_same_attribute_list(first.attrs@, second.attrs@);
    lemma_same_data(first.data, second.data);
}

/// Signature determinism: the signature is a function of what the declaration says. Two
/// computations over the same declaration, or over two declarations that read the same, give
/// the same signature.
pub proof fn lemma_signature_deterministic(first: Declaration, second: Declaration)
    requires
        same_declaration(first, second),
    ensures
        spec_ast_hash(first) == spec_ast_hash(second),
{
    lemma_same_bytes(first, second);
}

/// Every declaration reads the same as itself.
pub proof fn lemma_same_declaration_reflexive(decl: Declaration)
    ensures
        same_declaration(decl, decl),
{
    assert forall|at: int| 0 <= at < decl.attrs@.len() implies same_attribute(
        #[trigger] decl.attrs@[at],
        decl.attrs@[at],
    ) by {}
    match decl.data {
        Data::Struct(fields) => lemma_same_fields_reflexive(fields),
        Data::Enum(variants) => {
            assert forall|at: int| 0 <= at < variants@.len() implies same_variant(
                #[trigger] variants@[at],
                variants@[at],
            ) by {
                lemma_same_fields_reflexive(variants@[at].fields);
            }
        },
        Data::Union(fields) => lemma_same_field_list_reflexive(fields@),
    }
}

/// Every shape reads the same as itself.
proof fn lemma_same_shape_reflexive(ty: TypeShape)
    ensures
        same_shape(ty, ty),
    decreases ty,
{
    match ty {
        TypeShape::Array { elem, .. } => lemma_same_shape_reflexive(*elem),
        TypeShape::Tuple(elems) => lemma_same_shapes_reflexive(elems@),
        _ => {},
    }
}

/// Every list of shapes reads the same as itself.
proof fn lemma_same_shapes_reflexive(types: Seq<TypeShape>)
    ensures
        same_shapes(types, types),
    decreases types,
{
    assert forall|at: int| 0 <= at < types.len() implies same_shape(
        #[trigger] types[at],
        types[at],
    ) by {
        lemma_same_shape_reflexive(types[at]);
    }
}

/// Every list of fields reads the same as itself.
proof fn lemma_same_field_list_reflexive(fields: Seq<Field>)
    ensures
        same_field_list(fields, fields),
{
    assert forall|at: int| 0 <= at < fields.len() implies same_field(
        #[trigger] fields[at],
        fields[at],
    ) by {
        lemma_same_shape_reflexive(fields[at].ty);
    }
}

/// The fields of a record or variant read the same as themselves.
proof fn lemma_same_fields_reflexive(fields: Fields)
    ensures
        same_fields(fields, fields),
{
    lemma_same_field_list_reflexive(fields.members());
}

} // verus!
