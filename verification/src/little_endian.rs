//! Numbers as bytes: the little-endian image of an unsigned number, and two's complement for
//! signed ones.

use vstd::prelude::*;

verus! {

/// `256` to the power `width`: the number of values that `width` bytes can hold.
pub open spec fn byte_range(width: nat) -> nat
    decreases width,
{
    if width == 0 {
        1
    } else {
        256 * byte_range((width - 1) as nat)
    }
}

/// The little-endian image of `value` in `width` bytes: the low byte comes first.
pub open spec fn le_bytes(value: nat, width: nat) -> Seq<u8>
    decreases width,
{
    if width == 0 {
        Seq::empty()
    } else {
        seq![(value % 256) as u8] + le_bytes(value / 256, (width - 1) as nat)
    }
}

/// The number whose little-endian image is `bytes`.
pub open spec fn le_value(bytes: Seq<u8>) -> nat
    decreases bytes.len(),
{
    if bytes.len() == 0 {
        0
    } else {
        bytes[0] as nat + 256 * le_value(bytes.drop_first())
    }
}

/// The unsigned number that stands for `value` in two's complement of `width` bytes.
pub open spec fn twos_complement(value: int, width: nat) -> nat {
    if value >= 0 {
        value as nat
    } else {
        (value + byte_range(width)) as nat
    }
}

/// The signed number that `stored` stands for in two's complement of `width` bytes.
pub open spec fn from_twos_complement(stored: nat, width: nat) -> int {
    if 2 * stored < byte_range(width) {
        stored as int
    } else {
        stored - byte_range(width)
    }
}

/// A little-endian image has as many bytes as were asked for.
pub proof fn lemma_le_bytes_len(value: nat, width: nat)
    ensures
        le_bytes(value, width).len() == width,
    decreases width,
{
    if width > 0 {
        lemma_le_bytes_len(value / 256, (width - 1) as nat);
    }
}

/// The value of an image is below the range of its width.
pub proof fn lemma_le_value_bound(bytes: Seq<u8>)
    ensures
        le_value(bytes) < byte_range(bytes.len()),
    decreases bytes.len(),
{
    if bytes.len() > 0 {
        lemma_le_value_bound(bytes.drop_first());
        let rest = le_value(bytes.drop_first());
        let range = byte_range((bytes.len() - 1) as nat);
        assert(bytes[0] as nat + 256 * rest < 256 * range) by (nonlinear_arith)
            requires
                rest < range,
                bytes[0] < 256,
        ;
    }
}

/// Reading back the image of a value that fits in `width` bytes gives the value.
pub proof fn lemma_le_round_trip(value: nat, width: nat)
    requires
        value < byte_range(width),
    ensures
        le_value(le_bytes(value, width)) == value,
    decreases width,
{
    if width > 0 {
        let image = le_bytes(value, width);
        let rest = le_bytes(value / 256, (width - 1) as nat);
        lemma_le_bytes_len(value / 256, (width - 1) as nat);
        assert(image.drop_first() =~= rest);
        assert(value / 256 < byte_range((width - 1) as nat)) by (nonlinear_arith)
            requires
                value < 256 * byte_range((width - 1) as nat),
        ;
        lemma_le_round_trip(value / 256, (width - 1) as nat);
        assert(image[0] as nat == value % 256);
        assert(value % 256 + 256 * (value / 256) == value) by (nonlinear_arith);
    }
}

/// Appends the little-endian image of `value` in `width` bytes to `out`.
pub fn store_le(value: u128, width: usize, out: &mut Vec<u8>)
    ensures
        final(out)@ == old(out)@ + le_bytes(value as nat, width as nat),
{
    let mut rest: u128 = value;
    let mut written: usize = 0;
    while written < width
        invariant
            written <= width,
            out@ + le_bytes(rest as nat, (width - written) as nat) == old(out)@ + le_bytes(
                value as nat,
                width as nat,
            ),
        decreases width - written,
    {
        let ghost before = out@;
        out.push((rest % 256) as u8);
        proof {
            let tail = le_bytes((rest / 256) as nat, (width - written - 1) as nat);
            assert(le_bytes(rest as nat, (width - written) as nat) == seq![(rest % 256) as u8]
                + tail);
            assert(before + (seq![(rest % 256) as u8] + tail) =~= before.push((rest % 256) as u8)
                + tail);
        }
        rest = rest / 256;
        written = written + 1;
    }
    assert(out@ + le_bytes(rest as nat, 0) =~= out@);
}

/// Reads the number whose little-endian image is `bytes`.
pub fn load_le(bytes: &[u8]) -> (value: u128)
    requires
        bytes@.len() <= 16,
    ensures
        value == le_value(bytes@),
{
    let mut value: u128 = 0;
    let mut left: usize = bytes.len();
    proof {
        assert(bytes@.subrange(left as int, bytes@.len() as int) =~= Seq::<u8>::empty());
    }
    while left > 0
        invariant
            left <= bytes@.len() <= 16,
            value == le_value(bytes@.subrange(left as int, bytes@.len() as int)),
        decreases left,
    {
        left = left - 1;
        proof {
            let tail = bytes@.subrange(left as int, bytes@.len() as int);
            let shorter = bytes@.subrange(left as int + 1, bytes@.len() as int);
            assert(tail.drop_first() =~= shorter);
            assert(tail[0] == bytes@[left as int]);
            lemma_le_value_bound(shorter);
            lemma_byte_range_monotone(shorter.len(), 15);
            lemma_byte_range_15();
        }
        value = bytes[left] as u128 + 256 * value;
    }
    proof {
        assert(bytes@.subrange(0, bytes@.len() as int) =~= bytes@);
    }
    value
}

/// The range grows with the width.
pub proof fn lemma_byte_range_monotone(narrow: nat, wide: nat)
    requires
        narrow <= wide,
    ensures
        byte_range(narrow) <= byte_range(wide),
        byte_range(narrow) >= 1,
    decreases wide,
{
    if narrow < wide {
        lemma_byte_range_monotone(narrow, (wide - 1) as nat);
    } else if narrow > 0 {
        lemma_byte_range_monotone((narrow - 1) as nat, (narrow - 1) as nat);
    }
}

/// Fifteen bytes hold `2^120` values, so a sixteenth byte still fits in a `u128`.
proof fn lemma_byte_range_15()
    ensures
        byte_range(15) == 0x1_0000_0000_0000_0000_0000_0000_0000_00,
{
    reveal_with_fuel(byte_range, 16);
}

} // verus!
