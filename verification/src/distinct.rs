//! Declarations that differ are written out differently.
//!
//! The bytes that are hashed for a declaration tell declarations apart: every count and every
//! text is written with its length, so where one part ends and the next begins can be read
//! off the bytes. Two declarations with the same bytes read the same in every part.

use crate::declaration::{
    are_storable_attributes, are_storable_fields, are_storable_shapes, are_storable_texts,
    are_storable_variants, is_count, is_storable_attribute, is_storable_data,
    is_storable_declaration, is_storable_field, is_storable_fields, is_storable_optional_text,
    is_storable_shape, is_storable_text, is_storable_variant, same_attribute,
    same_attribute_list, same_data, same_declaration, same_field, same_field_list, same_fields,
    same_optional_text, same_shape, same_shapes, same_texts, same_variant, same_variant_list,
    Attribute, Data, Declaration, Field, Fields, TypeShape, Variant,
};
use crate::little_endian::{
    byte_range, le_bytes, le_value, lemma_le_bytes_len, lemma_le_round_trip,
};
use crate::signature::{
    encode_attribute, encode_attribute_list, encode_count, encode_data, encode_declaration,
    encode_field, encode_field_list, encode_fields, encode_optional_text, encode_shape,
    encode_shapes, encode_text, encode_text_list, encode_variant, encode_variant_list,
};
use vstd::prelude::*;
use vstd::utf8::{encode_utf8, encode_utf8_decode_utf8};

verus! {

/// Two sequences that are equal once something is appended to each, and that are equally
/// long, are equal, and so is what was appended.
proof fn lemma_split(a: Seq<u8>, r: Seq<u8>, b: Seq<u8>, s: Seq<u8>)
    requires
        a + r == b + s,
        a.len() == b.len(),
    ensures
        a == b,
        r == s,
{
    assert(a =~= (a + r).subrange(0, a.len() as int));
    assert(b =~= (b + s).subrange(0, b.len() as int));
    assert(r =~= (a + r).subrange(a.len() as int, (a + r).len() as int));
    assert(s =~= (b + s).subrange(b.len() as int, (b + s).len() as int));
}

/// What follows the same first byte in two equal sequences is equal.
proof fn lemma_after_tag(tag: u8, x: Seq<u8>, r: Seq<u8>, y: Seq<u8>, s: Seq<u8>)
    requires
        seq![tag] + x + r == seq![tag] + y + s,
    ensures
        x + r == y + s,
{
    assert(seq![tag] + x + r =~= seq![tag] + (x + r));
    assert(seq![tag] + y + s =~= seq![tag] + (y + s));
    lemma_split(seq![tag], x + r, seq![tag], y + s);
}

/// What follows the same first byte in two equal sequences is equal, for sequences made of
/// four parts.
proof fn lemma_after_tag_of_two(
    tag: u8,
    x: Seq<u8>,
    u: Seq<u8>,
    r: Seq<u8>,
    y: Seq<u8>,
    v: Seq<u8>,
    s: Seq<u8>,
)
    requires
        seq![tag] + x + u + r == seq![tag] + y + v + s,
    ensures
        x + u + r == y + v + s,
{
    assert(seq![tag] + x + u + r =~= seq![tag] + (x + u + r));
    assert(seq![tag] + y + v + s =~= seq![tag] + (y + v + s));
    lemma_split(seq![tag], x + u + r, seq![tag], y + v + s);
}

/// Three parts and what follows them, taken as the first part and what follows it.
proof fn lemma_regroup(x: Seq<u8>, u: Seq<u8>, r: Seq<u8>)
    ensures
        x + u + r == x + (u + r),
{
    assert(x + u + r =~= x + (u + r));
}

/// Counts that are written the same, whatever follows each, are the same count, and what
/// follows is the same.
proof fn lemma_count(a: nat, r: Seq<u8>, b: nat, s: Seq<u8>)
    requires
        is_count(a),
        is_count(b),
        encode_count(a) + r == encode_count(b) + s,
    ensures
        a == b,
        r == s,
{
    reveal_with_fuel(byte_range, 9);
    lemma_le_bytes_len(a, 8);
    lemma_le_bytes_len(b, 8);
    lemma_split(encode_count(a), r, encode_count(b), s);
    lemma_le_round_trip(a, 8);
    lemma_le_round_trip(b, 8);
}

/// Texts that are written the same, whatever follows each, have the same characters, and what
/// follows is the same.
proof fn lemma_text(a: Seq<char>, r: Seq<u8>, b: Seq<char>, s: Seq<u8>)
    requires
        is_storable_text(a),
        is_storable_text(b),
        encode_text(a) + r == encode_text(b) + s,
    ensures
        a == b,
        r == s,
{
    let a_bytes = encode_utf8(a);
    let b_bytes = encode_utf8(b);
    assert(encode_text(a) + r =~= encode_count(a_bytes.len()) + (a_bytes + r));
    assert(encode_text(b) + s =~= encode_count(b_bytes.len()) + (b_bytes + s));
    lemma_count(a_bytes.len(), a_bytes + r, b_bytes.len(), b_bytes + s);
    lemma_split(a_bytes, r, b_bytes, s);
    encode_utf8_decode_utf8(a);
    encode_utf8_decode_utf8(b);
}

/// `items` written one after the other, each by `encode`.
spec fn encode_each<T>(items: Seq<T>, encode: spec_fn(T) -> Seq<u8>) -> Seq<u8>
    decreases items.len(),
{
    if items.len() == 0 {
        Seq::empty()
    } else {
        encode_each(items.drop_last(), encode) + encode(items.last())
    }
}

/// Whether `x` and `y`, if they are written the same with `p` and `q` after them, read the
/// same and are followed by the same.
spec fn tells_apart<T>(
    x: T,
    p: Seq<u8>,
    y: T,
    q: Seq<u8>,
    encode: spec_fn(T) -> Seq<u8>,
    same: spec_fn(T, T) -> bool,
) -> bool {
    encode(x) + p == encode(y) + q ==> same(x, y) && p == q
}

/// Lists of equally many items that are written the same, whatever follows each, read the
/// same item by item, and what follows is the same; as long as each single item of the first
/// list is told apart from any other by the way it is written.
proof fn lemma_each<T>(
    a: Seq<T>,
    r: Seq<u8>,
    b: Seq<T>,
    s: Seq<u8>,
    encode: spec_fn(T) -> Seq<u8>,
    storable: spec_fn(T) -> bool,
    same: spec_fn(T, T) -> bool,
)
    requires
        a.len() == b.len(),
        forall|at: int| 0 <= at < b.len() ==> storable(#[trigger] b[at]),
        forall|at: int, y: T, p: Seq<u8>, q: Seq<u8>|
            0 <= at < a.len() && storable(y) ==> #[trigger] tells_apart(
                a[at],
                p,
                y,
                q,
                encode,
                same,
            ),
        encode_each(a, encode) + r == encode_each(b, encode) + s,
    ensures
        forall|at: int| 0 <= at < a.len() ==> same(#[trigger] a[at], b[at]),
        r == s,
    decreases a.len(),
{
    if a.len() > 0 {
        let last = a.len() - 1;
        let a_front = a.drop_last();
        let b_front = b.drop_last();
        let a_rest = encode(a[last]) + r;
        let b_rest = encode(b[last]) + s;
        assert(encode_each(a, encode) + r =~= encode_each(a_front, encode) + a_rest);
        assert(encode_each(b, encode) + s =~= encode_each(b_front, encode) + b_rest);
        assert forall|at: int| 0 <= at < b_front.len() implies storable(
            #[trigger] b_front[at],
        ) by {
            assert(b_front[at] == b[at]);
        }
        assert forall|at: int, y: T, p: Seq<u8>, q: Seq<u8>|
            0 <= at < a_front.len() && storable(y) implies #[trigger] tells_apart(
            a_front[at],
            p,
            y,
            q,
            encode,
            same,
        ) by {
            assert(a_front[at] == a[at]);
            assert(tells_apart(a[at], p, y, q, encode, same));
        }
        lemma_each(a_front, a_rest, b_front, b_rest, encode, storable, same);
        assert(storable(b[last]));
        assert(tells_apart(a[last], r, b[last], s, encode, same));
        assert forall|at: int| 0 <= at < a.len() implies same(#[trigger] a[at], b[at]) by {
            if at < last {
                assert(a_front[at] == a[at]);
                assert(b_front[at] == b[at]);
            }
        }
    } else {
        assert(encode_each(a, encode) + r =~= r);
        assert(encode_each(b, encode) + s =~= s);
    }
}

/// Texts that may be absent and are written the same, whatever follows each, read the same,
/// and what follows is the same.
proof fn lemma_optional_text(a: Option<String>, r: Seq<u8>, b: Option<String>, s: Seq<u8>)
    requires
        is_storable_optional_text(a),
        is_storable_optional_text(b),
        encode_optional_text(a) + r == encode_optional_text(b) + s,
    ensures
        same_optional_text(a, b),
        r == s,
{
    let left = encode_optional_text(a) + r;
    let right = encode_optional_text(b) + s;
    assert(left[0] == right[0]);
    match (a, b) {
        (None, None) => {
            lemma_split(encode_optional_text(a), r, encode_optional_text(b), s);
        },
        (Some(a_text), Some(b_text)) => {
            assert(left =~= seq![1u8] + (encode_text(a_text@) + r));
            assert(right =~= seq![1u8] + (encode_text(b_text@) + s));
            lemma_split(seq![1u8], encode_text(a_text@) + r, seq![1u8], encode_text(b_text@) + s);
            lemma_text(a_text@, r, b_text@, s);
        },
        (None, Some(b_text)) => {
            assert(left[0] == 0);
            assert(right[0] == 1);
        },
        (Some(a_text), None) => {
            assert(left[0] == 1);
            assert(right[0] == 0);
        },
    }
}

/// Shapes that are written the same, whatever follows each, read the same, and what follows
/// is the same.
proof fn lemma_shape(a: TypeShape, r: Seq<u8>, b: TypeShape, s: Seq<u8>)
    requires
        is_storable_shape(a),
        is_storable_shape(b),
        encode_shape(a) + r == encode_shape(b) + s,
    ensures
        same_shape(a, b),
        r == s,
    decreases a,
{
    lemma_shape_starts_with_kind(a, r);
    lemma_shape_starts_with_kind(b, s);
    lemma_kind_tells_text(a, b);
    let kind = a.kind();
    match (a, b) {
        (
            TypeShape::Array { elem: a_elem, len: a_len },
            TypeShape::Array { elem: b_elem, len: b_len },
        ) => {
            lemma_after_tag_of_two(
                kind,
                encode_shape(*a_elem),
                encode_text(a_len@),
                r,
                encode_shape(*b_elem),
                encode_text(b_len@),
                s,
            );
            lemma_regroup(encode_shape(*a_elem), encode_text(a_len@), r);
            lemma_regroup(encode_shape(*b_elem), encode_text(b_len@), s);
            lemma_shape(*a_elem, encode_text(a_len@) + r, *b_elem, encode_text(b_len@) + s);
            lemma_text(a_len@, r, b_len@, s);
        },
        (TypeShape::Tuple(a_elems), TypeShape::Tuple(b_elems)) => {
            lemma_after_tag_of_two(
                kind,
                encode_count(a_elems@.len()),
                encode_shapes(a_elems@),
                r,
                encode_count(b_elems@.len()),
                encode_shapes(b_elems@),
                s,
            );
            lemma_regroup(encode_count(a_elems@.len()), encode_shapes(a_elems@), r);
            lemma_regroup(encode_count(b_elems@.len()), encode_shapes(b_elems@), s);
            lemma_count(
                a_elems@.len(),
                encode_shapes(a_elems@) + r,
                b_elems@.len(),
                encode_shapes(b_elems@) + s,
            );
            lemma_shapes(a_elems@, r, b_elems@, s);
        },
        _ => {
            match (a.text(), b.text()) {
                (Some(a_text), Some(b_text)) => {
                    lemma_after_tag(kind, encode_text(a_text), r, encode_text(b_text), s);
                    lemma_text(a_text, r, b_text, s);
                },
                _ => {
                    lemma_split(seq![kind], r, seq![kind], s);
                },
            }
        },
    }
}

/// What is written for a shape starts with the number of its kind.
proof fn lemma_shape_starts_with_kind(ty: TypeShape, r: Seq<u8>)
    ensures
        (encode_shape(ty) + r)[0] == ty.kind(),
{
}

/// Shapes of the same kind are both arrays, or both tuples, or both kept by their text, or
/// both written without any.
proof fn lemma_kind_tells_text(a: TypeShape, b: TypeShape)
    requires
        a.kind() == b.kind(),
    ensures
        a is Array <==> b is Array,
        a is Tuple <==> b is Tuple,
        a.text().is_some() <==> b.text().is_some(),
{
}

/// A list of shapes is written as its items one after the other.
proof fn lemma_shapes_each(items: Seq<TypeShape>, encode: spec_fn(TypeShape) -> Seq<u8>)
    requires
        forall|x: TypeShape| #[trigger] encode(x) == encode_shape(x),
    ensures
        encode_shapes(items) == encode_each(items, encode),
    decreases items.len(),
{
    if items.len() > 0 {
        lemma_shapes_each(items.drop_last(), encode);
    }
}

/// Lists of equally many shapes that are written the same, whatever follows each, read the
/// same shape by shape, and what follows is the same.
proof fn lemma_shapes(a: Seq<TypeShape>, r: Seq<u8>, b: Seq<TypeShape>, s: Seq<u8>)
    requires
        a.len() == b.len(),
        are_storable_shapes(a),
        are_storable_shapes(b),
        encode_shapes(a) + r == encode_shapes(b) + s,
    ensures
        same_shapes(a, b),
        r == s,
    decreases a,
{
    let encode = |x: TypeShape| encode_shape(x);
    let storable = |x: TypeShape| is_storable_shape(x);
    let same = |x: TypeShape, y: TypeShape| same_shape(x, y);
    lemma_shapes_each(a, encode);
    lemma_shapes_each(b, encode);
    assert forall|at: int, y: TypeShape, p: Seq<u8>, q: Seq<u8>|
        0 <= at < a.len() && storable(y) implies #[trigger] tells_apart(
        a[at],
        p,
        y,
        q,
        encode,
        same,
    ) by {
        if encode(a[at]) + p == encode(y) + q {
            lemma_shape(a[at], p, y, q);
        }
    }
    lemma_each(a, r, b, s, encode, storable, same);
    assert forall|at: int| 0 <= at < a.len() implies same_shape(#[trigger] a[at], b[at]) by {
        assert(same(a[at], b[at]));
    }
}

/// Fields that are written the same, whatever follows each, read the same, and what follows
/// is the same.
proof fn lemma_field(a: Field, r: Seq<u8>, b: Field, s: Seq<u8>)
    requires
        is_storable_field(a),
        is_storable_field(b),
        encode_field(a) + r == encode_field(b) + s,
    ensures
        same_field(a, b),
        r == s,
{
    let a_rest = encode_shape(a.ty) + r;
    let b_rest = encode_shape(b.ty) + s;
    assert(encode_field(a) + r =~= encode_optional_text(a.name) + a_rest);
    assert(encode_field(b) + s =~= encode_optional_text(b.name) + b_rest);
    lemma_optional_text(a.name, a_rest, b.name, b_rest);
    lemma_shape(a.ty, r, b.ty, s);
}

/// A list of fields is written as its items one after the other.
proof fn lemma_field_list_each(items: Seq<Field>, encode: spec_fn(Field) -> Seq<u8>)
    requires
        forall|x: Field| #[trigger] encode(x) == encode_field(x),
    ensures
        encode_field_list(items) == encode_each(items, encode),
    decreases items.len(),
{
    if items.len() > 0 {
        lemma_field_list_each(items.drop_last(), encode);
    }
}

/// Lists of equally many fields that are written the same, whatever follows each, read the
/// same field by field, and what follows is the same.
proof fn lemma_field_list(a: Seq<Field>, r: Seq<u8>, b: Seq<Field>, s: Seq<u8>)
    requires
        a.len() == b.len(),
        are_storable_fields(a),
        are_storable_fields(b),
        encode_field_list(a) + r == encode_field_list(b) + s,
    ensures
        same_field_list(a, b),
        r == s,
{
    let encode = |x: Field| encode_field(x);
    let storable = |x: Field| is_storable_field(x);
    let same = |x: Field, y: Field| same_field(x, y);
    lemma_field_list_each(a, encode);
    lemma_field_list_each(b, encode);
    assert forall|at: int, y: Field, p: Seq<u8>, q: Seq<u8>|
        0 <= at < a.len() && storable(y) implies #[trigger] tells_apart(
        a[at],
        p,
        y,
        q,
        encode,
        same,
    ) by {
        if encode(a[at]) + p == encode(y) + q {
            lemma_field(a[at], p, y, q);
        }
    }
    lemma_each(a, r, b, s, encode, storable, same);
    assert forall|at: int| 0 <= at < a.len() implies same_field(#[trigger] a[at], b[at]) by {
        assert(same(a[at], b[at]));
    }
}

/// Lists of fields that are written with their count, whatever follows each, are equally long
/// and read the same, and what follows is the same.
proof fn lemma_counted_fields(a: Seq<Field>, r: Seq<u8>, b: Seq<Field>, s: Seq<u8>)
    requires
        is_count(a.len()),
        is_count(b.len()),
        are_storable_fields(a),
        are_storable_fields(b),
        encode_count(a.len()) + encode_field_list(a) + r == encode_count(b.len())
            + encode_field_list(b) + s,
    ensures
        same_field_list(a, b),
        r == s,
{
    lemma_regroup(encode_count(a.len()), encode_field_list(a), r);
    lemma_regroup(encode_count(b.len()), encode_field_list(b), s);
    lemma_count(a.len(), encode_field_list(a) + r, b.len(), encode_field_list(b) + s);
    lemma_field_list(a, r, b, s);
}

/// The number that is written for the way the fields of a record or variant are written.
spec fn fields_kind(fields: Fields) -> u8 {
    match fields {
        Fields::Named(_) => 0,
        Fields::Unnamed(_) => 1,
        Fields::Unit => 2,
    }
}

/// What is written for the fields of a record or variant starts with the number of the way
/// they are written.
proof fn lemma_fields_start_with_kind(fields: Fields, r: Seq<u8>)
    ensures
        (encode_fields(fields) + r)[0] == fields_kind(fields),
{
}

/// The fields of two records or variants that are written the same, whatever follows each,
/// read the same, and what follows is the same.
proof fn lemma_fields(a: Fields, r: Seq<u8>, b: Fields, s: Seq<u8>)
    requires
        is_storable_fields(a),
        is_storable_fields(b),
        encode_fields(a) + r == encode_fields(b) + s,
    ensures
        same_fields(a, b),
        r == s,
{
    lemma_fields_start_with_kind(a, r);
    lemma_fields_start_with_kind(b, s);
    let kind = fields_kind(a);
    match (a, b) {
        (Fields::Named(a_list), Fields::Named(b_list)) => {
            lemma_after_tag_of_two(
                kind,
                encode_count(a_list@.len()),
                encode_field_list(a_list@),
                r,
                encode_count(b_list@.len()),
                encode_field_list(b_list@),
                s,
            );
            lemma_counted_fields(a_list@, r, b_list@, s);
        },
        (Fields::Unnamed(a_list), Fields::Unnamed(b_list)) => {
            lemma_after_tag_of_two(
                kind,
                encode_count(a_list@.len()),
                encode_field_list(a_list@),
                r,
                encode_count(b_list@.len()),
                encode_field_list(b_list@),
                s,
            );
            lemma_counted_fields(a_list@, r, b_list@, s);
        },
        (Fields::Unit, Fields::Unit) => {
            lemma_split(seq![kind], r, seq![kind], s);
        },
        _ => {},
    }
}

/// Variants that are written the same, whatever follows each, read the same, and what follows
/// is the same.
proof fn lemma_variant(a: Variant, r: Seq<u8>, b: Variant, s: Seq<u8>)
    requires
        is_storable_variant(a),
        is_storable_variant(b),
        encode_variant(a) + r == encode_variant(b) + s,
    ensures
        same_variant(a, b),
        r == s,
{
    let a_tail = encode_optional_text(a.discriminant) + r;
    let b_tail = encode_optional_text(b.discriminant) + s;
    let a_rest = encode_fields(a.fields) + a_tail;
    let b_rest = encode_fields(b.fields) + b_tail;
    assert(encode_variant(a) + r =~= encode_text(a.name@) + a_rest);
    assert(encode_variant(b) + s =~= encode_text(b.name@) + b_rest);
    lemma_text(a.name@, a_rest, b.name@, b_rest);
    lemma_fields(a.fields, a_tail, b.fields, b_tail);
    lemma_optional_text(a.discriminant, r, b.discriminant, s);
}

/// A list of variants is written as its items one after the other.
proof fn lemma_variant_list_each(items: Seq<Variant>, encode: spec_fn(Variant) -> Seq<u8>)
    requires
        forall|x: Variant| #[trigger] encode(x) == encode_variant(x),
    ensures
        encode_variant_list(items) == encode_each(items, encode),
    decreases items.len(),
{
    if items.len() > 0 {
        lemma_variant_list_each(items.drop_last(), encode);
    }
}

/// Lists of equally many variants that are written the same, whatever follows each, read the
/// same variant by variant, and what follows is the same.
proof fn lemma_variant_list(a: Seq<Variant>, r: Seq<u8>, b: Seq<Variant>, s: Seq<u8>)
    requires
        a.len() == b.len(),
        are_storable_variants(a),
        are_storable_variants(b),
        encode_variant_list(a) + r == encode_variant_list(b) + s,
    ensures
        same_variant_list(a, b),
        r == s,
{
    let encode = |x: Variant| encode_variant(x);
    let storable = |x: Variant| is_storable_variant(x);
    let same = |x: Variant, y: Variant| same_variant(x, y);
    lemma_variant_list_each(a, encode);
    lemma_variant_list_each(b, encode);
    assert forall|at: int, y: Variant, p: Seq<u8>, q: Seq<u8>|
        0 <= at < a.len() && storable(y) implies #[trigger] tells_apart(
        a[at],
        p,
        y,
        q,
        encode,
        same,
    ) by {
        if encode(a[at]) + p == encode(y) + q {
            lemma_variant(a[at], p, y, q);
        }
    }
    lemma_each(a, r, b, s, encode, storable, same);
    assert forall|at: int| 0 <= at < a.len() implies same_variant(#[trigger] a[at], b[at]) by {
        assert(same(a[at], b[at]));
    }
}

/// The number that is written for the kind of a declared type.
spec fn data_kind(data: Data) -> u8 {
    match data {
        Data::Struct(_) => 0,
        Data::Enum(_) => 1,
        Data::Union(_) => 2,
    }
}

/// What is written for the members of a declared type starts with the number of its kind.
proof fn lemma_data_starts_with_kind(data: Data, r: Seq<u8>)
    ensures
        (encode_data(data) + r)[0] == data_kind(data),
{
}

/// Lists of variants that are written with their count, whatever follows each, are equally
/// long and read the same, and what follows is the same.
proof fn lemma_counted_variants(a: Seq<Variant>, r: Seq<u8>, b: Seq<Variant>, s: Seq<u8>)
    requires
        is_count(a.len()),
        is_count(b.len()),
        are_storable_variants(a),
        are_storable_variants(b),
        encode_count(a.len()) + encode_variant_list(a) + r == encode_count(b.len())
            + encode_variant_list(b) + s,
    ensures
        same_variant_list(a, b),
        r == s,
{
    lemma_regroup(encode_count(a.len()), encode_variant_list(a), r);
    lemma_regroup(encode_count(b.len()), encode_variant_list(b), s);
    lemma_count(a.len(), encode_variant_list(a) + r, b.len(), encode_variant_list(b) + s);
    lemma_variant_list(a, r, b, s);
}

/// The members of two declared types that are written the same, whatever follows each, read
/// the same, and what follows is the same.
proof fn lemma_data(a: Data, r: Seq<u8>, b: Data, s: Seq<u8>)
    requires
        is_storable_data(a),
        is_storable_data(b),
        encode_data(a) + r == encode_data(b) + s,
    ensures
        same_data(a, b),
        r == s,
{
    lemma_data_starts_with_kind(a, r);
    lemma_data_starts_with_kind(b, s);
    let kind = data_kind(a);
    match (a, b) {
        (Data::Struct(a_fields), Data::Struct(b_fields)) => {
            lemma_after_tag(kind, encode_fields(a_fields), r, encode_fields(b_fields), s);
            lemma_fields(a_fields, r, b_fields, s);
        },
        (Data::Enum(a_list), Data::Enum(b_list)) => {
            lemma_after_tag_of_two(
                kind,
                encode_count(a_list@.len()),
                encode_variant_list(a_list@),
                r,
                encode_count(b_list@.len()),
                encode_variant_list(b_list@),
                s,
            );
            lemma_counted_variants(a_list@, r, b_list@, s);
        },
        (Data::Union(a_list), Data::Union(b_list)) => {
            lemma_after_tag_of_two(
                kind,
                encode_count(a_list@.len()),
                encode_field_list(a_list@),
                r,
                encode_count(b_list@.len()),
                encode_field_list(b_list@),
                s,
            );
            lemma_counted_fields(a_list@, r, b_list@, s);
        },
        _ => {},
    }
}

/// A list of texts is written as its items one after the other.
proof fn lemma_text_list_each(items: Seq<String>, encode: spec_fn(String) -> Seq<u8>)
    requires
        forall|x: String| #[trigger] encode(x) == encode_text(x@),
    ensures
        encode_text_list(items) == encode_each(items, encode),
    decreases items.len(),
{
    if items.len() > 0 {
        lemma_text_list_each(items.drop_last(), encode);
    }
}

/// Lists of equally many texts that are written the same, whatever follows each, read the
/// same text by text, and what follows is the same.
proof fn lemma_text_list(a: Seq<String>, r: Seq<u8>, b: Seq<String>, s: Seq<u8>)
    requires
        a.len() == b.len(),
        are_storable_texts(a),
        are_storable_texts(b),
        encode_text_list(a) + r == encode_text_list(b) + s,
    ensures
        same_texts(a, b),
        r == s,
{
    let encode = |x: String| encode_text(x@);
    let storable = |x: String| is_storable_text(x@);
    let same = |x: String, y: String| x@ == y@;
    lemma_text_list_each(a, encode);
    lemma_text_list_each(b, encode);
    assert forall|at: int, y: String, p: Seq<u8>, q: Seq<u8>|
        0 <= at < a.len() && storable(y) implies #[trigger] tells_apart(
        a[at],
        p,
        y,
        q,
        encode,
        same,
    ) by {
        if encode(a[at]) + p == encode(y) + q {
            lemma_text(a[at]@, p, y@, q);
        }
    }
    lemma_each(a, r, b, s, encode, storable, same);
    assert forall|at: int| 0 <= at < a.len() implies (#[trigger] a[at])@ == b[at]@ by {
        assert(same(a[at], b[at]));
    }
}

/// Lists of texts that are written with their count, whatever follows each, are equally long
/// and read the same, and what follows is the same.
proof fn lemma_counted_texts(a: Seq<String>, r: Seq<u8>, b: Seq<String>, s: Seq<u8>)
    requires
        is_count(a.len()),
        is_count(b.len()),
        are_storable_texts(a),
        are_storable_texts(b),
        encode_count(a.len()) + encode_text_list(a) + r == encode_count(b.len())
            + encode_text_list(b) + s,
    ensures
        same_texts(a, b),
        r == s,
{
    lemma_regroup(encode_count(a.len()), encode_text_list(a), r);
    lemma_regroup(encode_count(b.len()), encode_text_list(b), s);
    lemma_count(a.len(), encode_text_list(a) + r, b.len(), encode_text_list(b) + s);
    lemma_text_list(a, r, b, s);
}

/// Attributes that are written the same, whatever follows each, read the same, and what
/// follows is the same.
proof fn lemma_attribute(a: Attribute, r: Seq<u8>, b: Attribute, s: Seq<u8>)
    requires
        is_storable_attribute(a),
        is_storable_attribute(b),
        encode_attribute(a) + r == encode_attribute(b) + s,
    ensures
        same_attribute(a, b),
        r == s,
{
    let a_rest = encode_count(a.arguments@.len()) + encode_text_list(a.arguments@) + r;
    let b_rest = encode_count(b.arguments@.len()) + encode_text_list(b.arguments@) + s;
    assert(encode_attribute(a) + r =~= encode_text(a.path@) + a_rest);
    assert(encode_attribute(b) + s =~= encode_text(b.path@) + b_rest);
    lemma_text(a.path@, a_rest, b.path@, b_rest);
    lemma_counted_texts(a.arguments@, r, b.arguments@, s);
}

/// A list of attributes is written as its items one after the other.
proof fn lemma_attribute_list_each(items: Seq<Attribute>, encode: spec_fn(Attribute) -> Seq<u8>)
    requires
        forall|x: Attribute| #[trigger] encode(x) == encode_attribute(x),
    ensures
        encode_attribute_list(items) == encode_each(items, encode),
    decreases items.len(),
{
    if items.len() > 0 {
        lemma_attribute_list_each(items.drop_last(), encode);
    }
}

/// Lists of equally many attributes that are written the same, whatever follows each, read
/// the same attribute by attribute, and what follows is the same.
proof fn lemma_attribute_list(a: Seq<Attribute>, r: Seq<u8>, b: Seq<Attribute>, s: Seq<u8>)
    requires
        a.len() == b.len(),
        are_storable_attributes(a),
        are_storable_attributes(b),
        encode_attribute_list(a) + r == encode_attribute_list(b) + s,
    ensures
        same_attribute_list(a, b),
        r == s,
{
    let encode = |x: Attribute| encode_attribute(x);
    let storable = |x: Attribute| is_storable_attribute(x);
    let same = |x: Attribute, y: Attribute| same_attribute(x, y);
    lemma_attribute_list_each(a, encode);
    lemma_attribute_list_each(b, encode);
    assert forall|at: int, y: Attribute, p: Seq<u8>, q: Seq<u8>|
        0 <= at < a.len() && storable(y) implies #[trigger] tells_apart(
        a[at],
        p,
        y,
        q,
        encode,
        same,
    ) by {
        if encode(a[at]) + p == encode(y) + q {
            lemma_attribute(a[at], p, y, q);
        }
    }
    lemma_each(a, r, b, s, encode, storable, same);
    assert forall|at: int| 0 <= at < a.len() implies same_attribute(#[trigger] a[at], b[at]) by {
        assert(same(a[at], b[at]));
    }
}

/// The visibility, the name and the members of two declarations that are written the same
/// read the same.
proof fn lemma_named_members(first: Declaration, second: Declaration)
    requires
        is_storable_declaration(first),
        is_storable_declaration(second),
        encode_text(first.visibility@) + encode_text(first.name@) + encode_data(first.data)
            == encode_text(second.visibility@) + encode_text(second.name@) + encode_data(
            second.data,
        ),
    ensures
        first.visibility@ == second.visibility@,
        first.name@ == second.name@,
        same_data(first.data, second.data),
{
    let empty = Seq::<u8>::empty();
    let a_data = encode_data(first.data) + empty;
    let b_data = encode_data(second.data) + empty;
    let a_name = encode_text(first.name@) + a_data;
    let b_name = encode_text(second.name@) + b_data;
    assert(encode_text(first.visibility@) + encode_text(first.name@) + encode_data(first.data)
        =~= encode_text(first.visibility@) + a_name);
    assert(encode_text(second.visibility@) + encode_text(second.name@) + encode_data(
        second.data,
    ) =~= encode_text(second.visibility@) + b_name);
    lemma_text(first.visibility@, a_name, second.visibility@, b_name);
    lemma_text(first.name@, a_data, second.name@, b_data);
    lemma_data(first.data, empty, second.data, empty);
}

/// The attributes of two declarations that are written the same with their count, whatever
/// follows each, read the same, and what follows is the same.
proof fn lemma_counted_attributes(
    a: Seq<Attribute>,
    r: Seq<u8>,
    b: Seq<Attribute>,
    s: Seq<u8>,
)
    requires
        is_count(a.len()),
        is_count(b.len()),
        are_storable_attributes(a),
        are_storable_attributes(b),
        encode_count(a.len()) + encode_attribute_list(a) + r == encode_count(b.len())
            + encode_attribute_list(b) + s,
    ensures
        same_attribute_list(a, b),
        r == s,
{
    lemma_regroup(encode_count(a.len()), encode_attribute_list(a), r);
    lemma_regroup(encode_count(b.len()), encode_attribute_list(b), s);
    lemma_count(
        a.len(),
        encode_attribute_list(a) + r,
        b.len(),
        encode_attribute_list(b) + s,
    );
    lemma_attribute_list(a, r, b, s);
}

/// The bytes tell declarations apart: two declarations that are written out as the same
/// bytes read the same in every part. So declarations that differ in any part, be it the type
/// of one field, are hashed from different bytes.
pub proof fn lemma_distinct_bytes(first: Declaration, second: Declaration)
    requires
        is_storable_declaration(first),
        is_storable_declaration(second),
        encode_declaration(first) == encode_declaration(second),
    ensures
        same_declaration(first, second),
{
    let a_rest = encode_text(first.visibility@) + encode_text(first.name@) + encode_data(
        first.data,
    );
    let b_rest = encode_text(second.visibility@) + encode_text(second.name@) + encode_data(
        second.data,
    );
    assert(encode_declaration(first) =~= encode_count(first.attrs@.len())
        + encode_attribute_list(first.attrs@) + a_rest);
    assert(encode_declaration(second) =~= encode_count(second.attrs@.len())
        + encode_attribute_list(second.attrs@) + b_rest);
    lemma_counted_attributes(first.attrs@, a_rest, second.attrs@, b_rest);
    lemma_named_members(first, second);
}

} // verus!
