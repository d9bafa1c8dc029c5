//! Page arithmetic: how many bytes an envelope occupies for a value of a given size.

use vstd::prelude::*;

verus! {

/// Size in bytes of one page. Every envelope is a whole number of pages long.
pub const PAGE_SIZE: usize = 4096;

/// The largest value size for which the padded size still fits in a `usize`.
pub const MAX_FLAT_SIZE: usize = usize::MAX - 4095;

/// The padded size of a value of `size` bytes: `size` rounded up to a whole number of pages.
pub open spec fn spec_padded_size(size: nat) -> nat {
    (((size + 4095) / 4096) * 4096) as nat
}

/// The number of padding bytes that follow a value of `size` bytes in its envelope.
pub open spec fn spec_padding_size(size: nat) -> nat {
    (spec_padded_size(size) - size) as nat
}

/// Rounding up to a page boundary by masking agrees with the arithmetic definition.
proof fn lemma_mask_rounds_down(x: usize)
    ensures
        x & !4095usize == (x / 4096) * 4096,
{
    assert(x & !4095usize == (x / 4096) * 4096) by (bit_vector);
}

/// The padded size is a multiple of the page size, holds the value, and wastes less than a page.
pub proof fn lemma_padded_size(size: nat)
    ensures
        spec_padded_size(size) % 4096 == 0,
        spec_padded_size(size) >= size,
        spec_padded_size(size) - size < 4096,
        size % 4096 == 0 ==> spec_padded_size(size) == size,
{
    let pages = (size + 4095) / 4096;
    assert(spec_padded_size(size) == pages * 4096);
    assert((pages * 4096) % 4096 == 0) by (nonlinear_arith);
    assert(pages * 4096 >= size && pages * 4096 - size < 4096) by (nonlinear_arith)
        requires
            pages == (size + 4095) / 4096,
    ;
    if size % 4096 == 0 {
        assert(pages * 4096 == size) by (nonlinear_arith)
            requires
                pages == (size + 4095) / 4096,
                size % 4096 == 0,
        ;
    }
}

/// Computes the padded size of a value of `size` bytes.
pub fn padded_size(size: usize) -> (padded: usize)
    requires
        size <= MAX_FLAT_SIZE,
    ensures
        padded == spec_padded_size(size as nat),
        padded % 4096 == 0,
        padded >= size,
        padded - size < 4096,
{
    let bumped: usize = size + (PAGE_SIZE - 1);
    proof {
        lemma_mask_rounds_down(bumped);
        lemma_padded_size(size as nat);
    }
    bumped & !(PAGE_SIZE - 1)
}

/// Computes the padded size of a value of `size` bytes, or `None` when it does not fit in a
/// `usize`.
pub fn checked_padded_size(size: usize) -> (padded: Option<usize>)
    ensures
        padded.is_some() <==> size <= MAX_FLAT_SIZE,
        padded.is_some() ==> padded.unwrap() == spec_padded_size(size as nat),
{
    if size <= MAX_FLAT_SIZE {
        Some(padded_size(size))
    } else {
        None
    }
}

/// Computes how many zero bytes follow a value of `size` bytes in its envelope.
pub fn padding_size(size: usize) -> (padding: usize)
    requires
        size <= MAX_FLAT_SIZE,
    ensures
        padding == spec_padding_size(size as nat),
        padding < 4096,
{
    padded_size(size) - size
}

} // verus!
