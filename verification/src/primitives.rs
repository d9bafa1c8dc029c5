//! The flat images of the primitive types: integers little-endian, signed ones in two's
//! complement, `bool` as one byte, `char` as its scalar value.
//!
//! Reading never fails. Bytes that are no image of the type, because there are too few or too
//! many of them or because they hold no valid value, are read as zero, `false` or the null
//! character.

use crate::flat::{flat_laws, IpcSafe};
use crate::little_endian::{
    byte_range, from_twos_complement, le_bytes, le_value, lemma_le_bytes_len,
    lemma_le_round_trip, lemma_le_value_bound, load_le, store_le, twos_complement,
};
use vstd::prelude::*;

verus! {

impl IpcSafe for u8 {
    open spec fn obeys_flat_spec() -> bool {
        true
    }

    open spec fn flat_size() -> nat {
        1
    }

    /// The one byte of the number.
    open spec fn image(&self) -> Seq<u8> {
        le_bytes(*self as nat, 1)
    }

    open spec fn from_image(bytes: Seq<u8>) -> Self {
        le_value(bytes) as u8
    }

    fn size() -> (n: usize) {
        1
    }

    fn store(&self, out: &mut Vec<u8>) {
        proof {
            lemma_le_bytes_len(*self as nat, 1);
        }
        store_le(*self as u128, 1, out);
    }

    fn load(bytes: &[u8]) -> (v: Self)
        ensures
            bytes@.len() != 1 ==> v == 0,
    {
        if bytes.len() == 1 {
            load_le(bytes) as u8
        } else {
            0
        }
    }
}

/// `u8` keeps the laws of a flat type.
pub proof fn lemma_u8_flat()
    ensures
        flat_laws::<u8>(),
{
    assert forall|v: u8|
        (#[trigger] v.image()).len() == 1 && u8::from_image(v.image()) == v by {
        reveal_with_fuel(byte_range, 2);
        lemma_le_bytes_len(v as nat, 1);
        lemma_le_round_trip(v as nat, 1);
    }
}

impl IpcSafe for u16 {
    open spec fn obeys_flat_spec() -> bool {
        true
    }

    open spec fn flat_size() -> nat {
        2
    }

    /// The 2 bytes of the number, low byte first.
    open spec fn image(&self) -> Seq<u8> {
        le_bytes(*self as nat, 2)
    }

    open spec fn from_image(bytes: Seq<u8>) -> Self {
        le_value(bytes) as u16
    }

    fn size() -> (n: usize) {
        2
    }

    fn store(&self, out: &mut Vec<u8>) {
        proof {
            lemma_le_bytes_len(*self as nat, 2);
        }
        store_le(*self as u128, 2, out);
    }

    fn load(bytes: &[u8]) -> (v: Self)
        ensures
            bytes@.len() != 2 ==> v == 0,
    {
        if bytes.len() == 2 {
            load_le(bytes) as u16
        } else {
            0
        }
    }
}

/// `u16` keeps the laws of a flat type.
pub proof fn lemma_u16_flat()
    ensures
        flat_laws::<u16>(),
{
    assert forall|v: u16|
        (#[trigger] v.image()).len() == 2 && u16::from_image(v.image()) == v by {
        reveal_with_fuel(byte_range, 3);
        lemma_le_bytes_len(v as nat, 2);
        lemma_le_round_trip(v as nat, 2);
    }
}

impl IpcSafe for u32 {
    open spec fn obeys_flat_spec() -> bool {
        true
    }

    open spec fn flat_size() -> nat {
        4
    }

    /// The 4 bytes of the number, low byte first.
    open spec fn image(&self) -> Seq<u8> {
        le_bytes(*self as nat, 4)
    }

    open spec fn from_image(bytes: Seq<u8>) -> Self {
        le_value(bytes) as u32
    }

    fn size() -> (n: usize) {
        4
    }

    fn store(&self, out: &mut Vec<u8>) {
        proof {
            lemma_le_bytes_len(*self as nat, 4);
        }
        store_le(*self as u128, 4, out);
    }

    fn load(bytes: &[u8]) -> (v: Self)
        ensures
            bytes@.len() != 4 ==> v == 0,
    {
        if bytes.len() == 4 {
            load_le(bytes) as u32
        } else {
            0
        }
    }
}

/// `u32` keeps the laws of a flat type.
pub proof fn lemma_u32_flat()
    ensures
        flat_laws::<u32>(),
{
    assert forall|v: u32|
        (#[trigger] v.image()).len() == 4 && u32::from_image(v.image()) == v by {
        reveal_with_fuel(byte_range, 5);
        lemma_le_bytes_len(v as nat, 4);
        lemma_le_round_trip(v as nat, 4);
    }
}

impl IpcSafe for u64 {
    open spec fn obeys_flat_spec() -> bool {
        true
    }

    open spec fn flat_size() -> nat {
        8
    }

    /// The 8 bytes of the number, low byte first.
    open spec fn image(&self) -> Seq<u8> {
        le_bytes(*self as nat, 8)
    }

    open spec fn from_image(bytes: Seq<u8>) -> Self {
        le_value(bytes) as u64
    }

    fn size() -> (n: usize) {
        8
    }

    fn store(&self, out: &mut Vec<u8>) {
        proof {
            lemma_le_bytes_len(*self as nat, 8);
        }
        store_le(*self as u128, 8, out);
    }

    fn load(bytes: &[u8]) -> (v: Self)
        ensures
            bytes@.len() != 8 ==> v == 0,
    {
        if bytes.len() == 8 {
            load_le(bytes) as u64
        } else {
            0
        }
    }
}

/// `u64` keeps the laws of a flat type.
pub proof fn lemma_u64_flat()
    ensures
        flat_laws::<u64>(),
{
    assert forall|v: u64|
        (#[trigger] v.image()).len() == 8 && u64::from_image(v.image()) == v by {
        reveal_with_fuel(byte_range, 9);
        lemma_le_bytes_len(v as nat, 8);
        lemma_le_round_trip(v as nat, 8);
    }
}

impl IpcSafe for u128 {
    open spec fn obeys_flat_spec() -> bool {
        true
    }

    open spec fn flat_size() -> nat {
        16
    }

    /// The 16 bytes of the number, low byte first.
    open spec fn image(&self) -> Seq<u8> {
        le_bytes(*self as nat, 16)
    }

    open spec fn from_image(bytes: Seq<u8>) -> Self {
        le_value(bytes) as u128
    }

    fn size() -> (n: usize) {
        16
    }

    fn store(&self, out: &mut Vec<u8>) {
        proof {
            lemma_le_bytes_len(*self as nat, 16);
        }
        store_le(*self, 16, out);
    }

    fn load(bytes: &[u8]) -> (v: Self)
        ensures
            bytes@.len() != 16 ==> v == 0,
    {
        if bytes.len() == 16 {
            load_le(bytes)
        } else {
            0
        }
    }
}

/// `u128` keeps the laws of a flat type.
pub proof fn lemma_u128_flat()
    ensures
        flat_laws::<u128>(),
{
    assert forall|v: u128|
        (#[trigger] v.image()).len() == 16 && u128::from_image(v.image()) == v by {
        reveal_with_fuel(byte_range, 17);
        lemma_le_bytes_len(v as nat, 16);
        lemma_le_round_trip(v as nat, 16);
    }
}

impl IpcSafe for usize {
    open spec fn obeys_flat_spec() -> bool {
        true
    }

    open spec fn flat_size() -> nat {
        8
    }

    /// The 8 bytes of the number, low byte first.
    open spec fn image(&self) -> Seq<u8> {
        le_bytes(*self as nat, 8)
    }

    open spec fn from_image(bytes: Seq<u8>) -> Self {
        le_value(bytes) as usize
    }

    fn size() -> (n: usize) {
        8
    }

    fn store(&self, out: &mut Vec<u8>) {
        proof {
            lemma_le_bytes_len(*self as nat, 8);
        }
        store_le(*self as u128, 8, out);
    }

    fn load(bytes: &[u8]) -> (v: Self)
        ensures
            bytes@.len() != 8 ==> v == 0,
    {
        if bytes.len() == 8 {
            load_le(bytes) as usize
        } else {
            0
        }
    }
}

/// `usize` keeps the laws of a flat type.
pub proof fn lemma_usize_flat()
    ensures
        flat_laws::<usize>(),
{
    assert forall|v: usize|
        (#[trigger] v.image()).len() == 8 && usize::from_image(v.image()) == v by {
        reveal_with_fuel(byte_range, 9);
        lemma_le_bytes_len(v as nat, 8);
        lemma_le_round_trip(v as nat, 8);
    }
}

impl IpcSafe for i8 {
    open spec fn obeys_flat_spec() -> bool {
        true
    }

    open spec fn flat_size() -> nat {
        1
    }

    /// The one byte of the number in two's complement, low byte first.
    open spec fn image(&self) -> Seq<u8> {
        le_bytes(twos_complement(*self as int, 1), 1)
    }

    open spec fn from_image(bytes: Seq<u8>) -> Self {
        from_twos_complement(le_value(bytes), 1) as i8
    }

    fn size() -> (n: usize) {
        1
    }

    fn store(&self, out: &mut Vec<u8>) {
        let v: i8 = *self;
        let unsigned: u8 = v as u8;
        proof {
            reveal_with_fuel(byte_range, 2);
            assert(v >= 0 ==> unsigned == v) by (bit_vector)
                requires
                    unsigned == v as u8,
            ;
            assert(v < 0 ==> unsigned == v + 0x100) by (bit_vector)
                requires
                    unsigned == v as u8,
            ;
            lemma_le_bytes_len(unsigned as nat, 1);
        }
        store_le(unsigned as u128, 1, out);
    }

    fn load(bytes: &[u8]) -> (v: Self)
        ensures
            bytes@.len() != 1 ==> v == 0,
    {
        if bytes.len() == 1 {
            proof {
                reveal_with_fuel(byte_range, 2);
                lemma_le_value_bound(bytes@);
            }
            let unsigned: u8 = load_le(bytes) as u8;
            let v: i8 = unsigned as i8;
            proof {
                assert(unsigned < 0x80 ==> v == unsigned) by (bit_vector)
                    requires
                        v == unsigned as i8,
                ;
                assert(unsigned >= 0x80 ==> v == unsigned - 0x100) by (bit_vector)
                    requires
                        v == unsigned as i8,
                ;
            }
            v
        } else {
            0
        }
    }
}

/// `i8` keeps the laws of a flat type.
pub proof fn lemma_i8_flat()
    ensures
        flat_laws::<i8>(),
{
    assert forall|v: i8|
        (#[trigger] v.image()).len() == 1 && i8::from_image(v.image()) == v by {
        reveal_with_fuel(byte_range, 2);
        lemma_le_bytes_len(twos_complement(v as int, 1), 1);
        lemma_le_round_trip(twos_complement(v as int, 1), 1);
    }
}

impl IpcSafe for i16 {
    open spec fn obeys_flat_spec() -> bool {
        true
    }

    open spec fn flat_size() -> nat {
        2
    }

    /// The 2 bytes of the number in two's complement, low byte first.
    open spec fn image(&self) -> Seq<u8> {
        le_bytes(twos_complement(*self as int, 2), 2)
    }

    open spec fn from_image(bytes: Seq<u8>) -> Self {
        from_twos_complement(le_value(bytes), 2) as i16
    }

    fn size() -> (n: usize) {
        2
    }

    fn store(&self, out: &mut Vec<u8>) {
        let v: i16 = *self;
        let unsigned: u16 = v as u16;
        proof {
            reveal_with_fuel(byte_range, 3);
            assert(v >= 0 ==> unsigned == v) by (bit_vector)
                requires
                    unsigned == v as u16,
            ;
            assert(v < 0 ==> unsigned == v + 0x1_0000) by (bit_vector)
                requires
                    unsigned == v as u16,
            ;
            lemma_le_bytes_len(unsigned as nat, 2);
        }
        store_le(unsigned as u128, 2, out);
    }

    fn load(bytes: &[u8]) -> (v: Self)
        ensures
            bytes@.len() != 2 ==> v == 0,
    {
        if bytes.len() == 2 {
            proof {
                reveal_with_fuel(byte_range, 3);
                lemma_le_value_bound(bytes@);
            }
            let unsigned: u16 = load_le(bytes) as u16;
            let v: i16 = unsigned as i16;
            proof {
                assert(unsigned < 0x8000 ==> v == unsigned) by (bit_vector)
                    requires
                        v == unsigned as i16,
                ;
                assert(unsigned >= 0x8000 ==> v == unsigned - 0x1_0000) by (bit_vector)
                    requires
                        v == unsigned as i16,
                ;
            }
            v
        } else {
            0
        }
    }
}

/// `i16` keeps the laws of a flat type.
pub proof fn lemma_i16_flat()
    ensures
        flat_laws::<i16>(),
{
    assert forall|v: i16|
        (#[trigger] v.image()).len() == 2 && i16::from_image(v.image()) == v by {
        reveal_with_fuel(byte_range, 3);
        lemma_le_bytes_len(twos_complement(v as int, 2), 2);
        lemma_le_round_trip(twos_complement(v as int, 2), 2);
    }
}

impl IpcSafe for i32 {
    open spec fn obeys_flat_spec() -> bool {
        true
    }

    open spec fn flat_size() -> nat {
        4
    }

    /// The 4 bytes of the number in two's complement, low byte first.
    open spec fn image(&self) -> Seq<u8> {
        le_bytes(twos_complement(*self as int, 4), 4)
    }

    open spec fn from_image(bytes: Seq<u8>) -> Self {
        from_twos_complement(le_value(bytes), 4) as i32
    }

    fn size() -> (n: usize) {
        4
    }

    fn store(&self, out: &mut Vec<u8>) {
        let v: i32 = *self;
        let unsigned: u32 = v as u32;
        proof {
            reveal_with_fuel(byte_range, 5);
            assert(v >= 0 ==> unsigned == v) by (bit_vector)
                requires
                    unsigned == v as u32,
            ;
            assert(v < 0 ==> unsigned == v + 0x1_0000_0000) by (bit_vector)
                requires
                    unsigned == v as u32,
            ;
            lemma_le_bytes_len(unsigned as nat, 4);
        }
        store_le(unsigned as u128, 4, out);
    }

    fn load(bytes: &[u8]) -> (v: Self)
        ensures
            bytes@.len() != 4 ==> v == 0,
    {
        if bytes.len() == 4 {
            proof {
                reveal_with_fuel(byte_range, 5);
                lemma_le_value_bound(bytes@);
            }
            let unsigned: u32 = load_le(bytes) as u32;
            let v: i32 = unsigned as i32;
            proof {
                assert(unsigned < 0x8000_0000 ==> v == unsigned) by (bit_vector)
                    requires
                        v == unsigned as i32,
                ;
                assert(unsigned >= 0x8000_0000 ==> v == unsigned - 0x1_0000_0000) by (bit_vector)
                    requires
                        v == unsigned as i32,
                ;
            }
            v
        } else {
            0
        }
    }
}

/// `i32` keeps the laws of a flat type.
pub proof fn lemma_i32_flat()
    ensures
        flat_laws::<i32>(),
{
    assert forall|v: i32|
        (#[trigger] v.image()).len() == 4 && i32::from_image(v.image()) == v by {
        reveal_with_fuel(byte_range, 5);
        lemma_le_bytes_len(twos_complement(v as int, 4), 4);
        lemma_le_round_trip(twos_complement(v as int, 4), 4);
    }
}

impl IpcSafe for i64 {
    open spec fn obeys_flat_spec() -> bool {
        true
    }

    open spec fn flat_size() -> nat {
        8
    }

    /// The 8 bytes of the number in two's complement, low byte first.
    open spec fn image(&self) -> Seq<u8> {
        le_bytes(twos_complement(*self as int, 8), 8)
    }

    open spec fn from_image(bytes: Seq<u8>) -> Self {
        from_twos_complement(le_value(bytes), 8) as i64
    }

    fn size() -> (n: usize) {
        8
    }

    fn store(&self, out: &mut Vec<u8>) {
        let v: i64 = *self;
        let unsigned: u64 = v as u64;
        proof {
            reveal_with_fuel(byte_range, 9);
            assert(v >= 0 ==> unsigned == v) by (bit_vector)
                requires
                    unsigned == v as u64,
            ;
            assert(v < 0 ==> unsigned == v + 0x1_0000_0000_0000_0000) by (bit_vector)
                requires
                    unsigned == v as u64,
            ;
            lemma_le_bytes_len(unsigned as nat, 8);
        }
        store_le(unsigned as u128, 8, out);
    }

    fn load(bytes: &[u8]) -> (v: Self)
        ensures
            bytes@.len() != 8 ==> v == 0,
    {
        if bytes.len() == 8 {
            proof {
                reveal_with_fuel(byte_range, 9);
                lemma_le_value_bound(bytes@);
            }
            let unsigned: u64 = load_le(bytes) as u64;
            let v: i64 = unsigned as i64;
            proof {
                assert(unsigned < 0x8000_0000_0000_0000 ==> v == unsigned) by (bit_vector)
                    requires
                        v == unsigned as i64,
                ;
                assert(unsigned >= 0x8000_0000_0000_0000
                    ==> v == unsigned - 0x1_0000_0000_0000_0000) by (bit_vector)
                    requires
                        v == unsigned as i64,
                ;
            }
            v
        } else {
            0
        }
    }
}

/// `i64` keeps the laws of a flat type.
pub proof fn lemma_i64_flat()
    ensures
        flat_laws::<i64>(),
{
    assert forall|v: i64|
        (#[trigger] v.image()).len() == 8 && i64::from_image(v.image()) == v by {
        reveal_with_fuel(byte_range, 9);
        lemma_le_bytes_len(twos_complement(v as int, 8), 8);
        lemma_le_round_trip(twos_complement(v as int, 8), 8);
    }
}

impl IpcSafe for i128 {
    open spec fn obeys_flat_spec() -> bool {
        true
    }

    open spec fn flat_size() -> nat {
        16
    }

    /// The 16 bytes of the number in two's complement, low byte first.
    open spec fn image(&self) -> Seq<u8> {
        le_bytes(twos_complement(*self as int, 16), 16)
    }

    open spec fn from_image(bytes: Seq<u8>) -> Self {
        from_twos_complement(le_value(bytes), 16) as i128
    }

    fn size() -> (n: usize) {
        16
    }

    fn store(&self, out: &mut Vec<u8>) {
        let v: i128 = *self;
        let unsigned: u128 = v as u128;
        proof {
            reveal_with_fuel(byte_range, 17);
            assert(v >= 0 ==> unsigned == v) by (bit_vector)
                requires
                    unsigned == v as u128,
            ;
            assert(v < 0
                ==> unsigned == v + 0x1_0000_0000_0000_0000_0000_0000_0000_0000) by (bit_vector)
                requires
                    unsigned == v as u128,
            ;
            lemma_le_bytes_len(unsigned as nat, 16);
        }
        store_le(unsigned as u128, 16, out);
    }

    fn load(bytes: &[u8]) -> (v: Self)
        ensures
            bytes@.len() != 16 ==> v == 0,
    {
        if bytes.len() == 16 {
            proof {
                reveal_with_fuel(byte_range, 17);
                lemma_le_value_bound(bytes@);
            }
            let unsigned: u128 = load_le(bytes) as u128;
            let v: i128 = unsigned as i128;
            proof {
                assert(unsigned < 0x8000_0000_0000_0000_0000_0000_0000_0000
                    ==> v == unsigned) by (bit_vector)
                    requires
                        v == unsigned as i128,
                ;
                assert(unsigned >= 0x8000_0000_0000_0000_0000_0000_0000_0000
                    ==> v == unsigned - 0x1_0000_0000_0000_0000_0000_0000_0000_0000) by (bit_vector)
                    requires
                        v == unsigned as i128,
                ;
            }
            v
        } else {
            0
        }
    }
}

/// `i128` keeps the laws of a flat type.
pub proof fn lemma_i128_flat()
    ensures
        flat_laws::<i128>(),
{
    assert forall|v: i128|
        (#[trigger] v.image()).len() == 16 && i128::from_image(v.image()) == v by {
        reveal_with_fuel(byte_range, 17);
        lemma_le_bytes_len(twos_complement(v as int, 16), 16);
        lemma_le_round_trip(twos_complement(v as int, 16), 16);
    }
}

impl IpcSafe for isize {
    open spec fn obeys_flat_spec() -> bool {
        true
    }

    open spec fn flat_size() -> nat {
        8
    }

    /// The number widened to 8 bytes in two's complement, low byte first.
    open spec fn image(&self) -> Seq<u8> {
        le_bytes(twos_complement(*self as int, 8), 8)
    }

    open spec fn from_image(bytes: Seq<u8>) -> Self {
        (from_twos_complement(le_value(bytes), 8) as i64) as isize
    }

    fn size() -> (n: usize) {
        8
    }

    fn store(&self, out: &mut Vec<u8>) {
        let wide: i64 = *self as i64;
        proof {
            assert(twos_complement(wide as int, 8) == twos_complement(*self as int, 8));
        }
        wide.store(out);
    }

    fn load(bytes: &[u8]) -> (v: Self)
        ensures
            bytes@.len() != 8 ==> v == 0,
    {
        let wide: i64 = i64::load(bytes);
        wide as isize
    }
}

/// `isize` keeps the laws of a flat type.
pub proof fn lemma_isize_flat()
    ensures
        flat_laws::<isize>(),
{
    assert forall|v: isize|
        (#[trigger] v.image()).len() == 8 && isize::from_image(v.image()) == v by {
        reveal_with_fuel(byte_range, 9);
        lemma_le_bytes_len(twos_complement(v as int, 8), 8);
        lemma_le_round_trip(twos_complement(v as int, 8), 8);
    }
}

impl IpcSafe for bool {
    open spec fn obeys_flat_spec() -> bool {
        true
    }

    open spec fn flat_size() -> nat {
        1
    }

    /// One byte: `1` for `true`, `0` for `false`.
    open spec fn image(&self) -> Seq<u8> {
        seq![if *self { 1u8 } else { 0u8 }]
    }

    /// Any byte but `0` is read as `true`.
    open spec fn from_image(bytes: Seq<u8>) -> Self {
        bytes[0] != 0
    }

    fn size() -> (n: usize) {
        1
    }

    fn store(&self, out: &mut Vec<u8>) {
        let byte: u8 = if *self {
            1
        } else {
            0
        };
        out.push(byte);
        assert(out@ == old(out)@ + seq![byte]);
    }

    fn load(bytes: &[u8]) -> (v: Self)
        ensures
            v == (bytes@.len() == 1 && bytes@[0] != 0),
    {
        bytes.len() == 1 && bytes[0] != 0
    }
}

/// `bool` keeps the laws of a flat type.
pub proof fn lemma_bool_flat()
    ensures
        flat_laws::<bool>(),
{
}

/// Whether `value` is a Unicode scalar value: a code point that is no surrogate.
pub open spec fn is_scalar_value(value: nat) -> bool {
    value <= 0xD7FF || 0xE000 <= value <= 0x10FFFF
}

/// `char::from_u32` of the standard library. Its documentation says that it returns the
/// `char` with the given scalar value, and `None` when the number is no valid `char`, that is
/// when it is a surrogate or above `0x10FFFF`.
pub assume_specification[ char::from_u32 ](i: u32) -> (c: Option<char>)
    ensures
        c.is_some() <==> is_scalar_value(i as nat),
        c.is_some() ==> c.unwrap() as u32 == i,
;

impl IpcSafe for char {
    open spec fn obeys_flat_spec() -> bool {
        true
    }

    open spec fn flat_size() -> nat {
        4
    }

    /// The 4 bytes of the scalar value, low byte first.
    open spec fn image(&self) -> Seq<u8> {
        le_bytes(*self as u32 as nat, 4)
    }

    /// The `char` with the scalar value that the bytes hold; the null character when they
    /// hold no scalar value.
    open spec fn from_image(bytes: Seq<u8>) -> Self {
        if is_scalar_value(le_value(bytes)) {
            le_value(bytes) as u32 as char
        } else {
            0u32 as char
        }
    }

    fn size() -> (n: usize) {
        4
    }

    fn store(&self, out: &mut Vec<u8>) {
        let scalar: u32 = *self as u32;
        proof {
            lemma_le_bytes_len(scalar as nat, 4);
        }
        store_le(scalar as u128, 4, out);
    }

    fn load(bytes: &[u8]) -> (v: Self)
        ensures
            bytes@.len() != 4 ==> v as u32 == 0,
    {
        if bytes.len() == 4 {
            proof {
                reveal_with_fuel(byte_range, 5);
                lemma_le_value_bound(bytes@);
            }
            let scalar: u32 = load_le(bytes) as u32;
            match char::from_u32(scalar) {
                Some(c) => {
                    proof {
                        lemma_char_scalar(c);
                    }
                    c
                },
                None => 0u8 as char,
            }
        } else {
            0u8 as char
        }
    }
}

/// A `char` is the `char` of its scalar value.
proof fn lemma_char_scalar(c: char)
    ensures
        is_scalar_value(c as u32 as nat),
        (c as u32) as char == c,
{
}

/// The image of a `char` has four bytes and is read back as that `char`.
proof fn lemma_char_round_trip(v: char)
    ensures
        v.image().len() == 4,
        char::from_image(v.image()) == v,
{
    reveal_with_fuel(byte_range, 5);
    let scalar = v as u32;
    lemma_le_bytes_len(scalar as nat, 4);
    lemma_le_round_trip(scalar as nat, 4);
    assert(is_scalar_value(scalar as nat));
    assert(scalar as char == v);
}

/// `char` keeps the laws of a flat type.
pub proof fn lemma_char_flat()
    ensures
        flat_laws::<char>(),
{
    assert forall|v: char|
        (#[trigger] v.image()).len() == 4 && char::from_image(v.image()) == v by {
        lemma_char_round_trip(v);
    }
}

} // verus!
