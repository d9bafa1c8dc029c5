//! Flat types: values with a fixed-size byte image that holds no pointer.

use crate::layout::MAX_FLAT_SIZE;
use vstd::prelude::*;

verus! {

/// A type is `IpcSafe` when it is flat: it has a byte image of a fixed size from which the
/// value can be read back, and that image contains no pointers.
///
/// The spec functions describe the image. An implementation that is verified sets
/// `obeys_flat_spec` to `true` and is then held to the contracts of `size`, `store` and
/// `load`. An implementation written outside the verifier cannot set it, so nothing is
/// assumed of such a type: it is up to the implementer that the correct object arrives on
/// the other side.
pub trait IpcSafe: Sized {
    /// Whether `size`, `store` and `load` follow `flat_size`, `image` and `from_image`.
    open spec fn obeys_flat_spec() -> bool {
        false
    }

    /// The number of bytes in the image of every value of this type.
    open spec fn flat_size() -> nat {
        0
    }

    /// The byte image of this value.
    open spec fn image(&self) -> Seq<u8> {
        Seq::empty()
    }

    /// The value that an image of `flat_size()` bytes stands for.
    open spec fn from_image(bytes: Seq<u8>) -> Self {
        arbitrary()
    }

    /// The size of the image in bytes.
    fn size() -> (n: usize)
        ensures
            Self::obeys_flat_spec() ==> n == Self::flat_size() && n <= MAX_FLAT_SIZE,
    ;

    /// Appends the image of this value to `out`.
    fn store(&self, out: &mut Vec<u8>)
        ensures
            Self::obeys_flat_spec() ==> final(out)@ == old(out)@ + self.image()
                && self.image().len() == Self::flat_size(),
    ;

    /// Reads a value back from its image.
    fn load(bytes: &[u8]) -> (v: Self)
        ensures
            Self::obeys_flat_spec() && bytes@.len() == Self::flat_size() ==> v
                == Self::from_image(bytes@),
    ;
}

/// The laws of a flat type: its contracts are kept, its image fits in an envelope, every image
/// has the same length, and reading an image back gives the value it was made from.
pub open spec fn flat_laws<T: IpcSafe>() -> bool {
    &&& T::obeys_flat_spec()
    &&& T::flat_size() <= MAX_FLAT_SIZE
    &&& forall|v: T| (#[trigger] v.image()).len() == T::flat_size()
    &&& forall|v: T| T::from_image(#[trigger] v.image()) == v
}

/// `count` zero bytes.
pub open spec fn zeros(count: nat) -> Seq<u8> {
    Seq::new(count, |i: int| 0u8)
}

/// Appends `count` zero bytes to `out`.
pub fn push_zeros(out: &mut Vec<u8>, count: usize)
    ensures
        final(out)@ == old(out)@ + zeros(count as nat),
{
    let mut pushed: usize = 0;
    assert(out@ == old(out)@ + zeros(0));
    while pushed < count
        invariant
            pushed <= count,
            out@ == old(out)@ + zeros(pushed as nat),
        decreases count - pushed,
    {
        out.push(0);
        pushed = pushed + 1;
        assert(out@ == old(out)@ + zeros(pushed as nat));
    }
}

/// The part of `bytes` that starts at `from` and is `len` bytes long, cut off where `bytes`
/// ends.
pub open spec fn spec_window(bytes: Seq<u8>, from: nat, len: nat) -> Seq<u8> {
    if from + len <= bytes.len() {
        bytes.subrange(from as int, (from + len) as int)
    } else if from <= bytes.len() {
        bytes.subrange(from as int, bytes.len() as int)
    } else {
        Seq::empty()
    }
}

/// The part of `bytes` that starts at `from` and is `len` bytes long, cut off where `bytes`
/// ends.
pub fn window(bytes: &[u8], from: usize, len: usize) -> (part: &[u8])
    ensures
        part@ == spec_window(bytes@, from as nat, len as nat),
{
    let end = bytes.len();
    if from > end {
        vstd::slice::slice_subrange(bytes, end, end)
    } else if len <= end - from {
        vstd::slice::slice_subrange(bytes, from, from + len)
    } else {
        vstd::slice::slice_subrange(bytes, from, end)
    }
}

/// Reads the fields of a record back from its image, one after the other.
pub struct Reader<'a> {
    bytes: &'a [u8],
    at: usize,
}

impl<'a> Reader<'a> {
    /// The image that is read.
    pub closed spec fn image(&self) -> Seq<u8> {
        self.bytes@
    }

    /// How many bytes have been read. Reading stops at the end of the image.
    pub closed spec fn position(&self) -> nat {
        self.at as nat
    }

    /// A reader at the start of `bytes`.
    pub fn new(bytes: &'a [u8]) -> (reader: Self)
        ensures
            reader.image() == bytes@,
            reader.position() == 0,
    {
        Reader { bytes, at: 0 }
    }

    /// Reads the next field: a value of `T` from the next `T::size()` bytes, or from what is
    /// left of the image when it ends before that.
    pub fn take<T: IpcSafe>(&mut self) -> (value: T)
        ensures
            final(self).image() == old(self).image(),
            T::obeys_flat_spec() && old(self).position() + T::flat_size() <= old(self).image().len()
                ==> {
                &&& final(self).position() == old(self).position() + T::flat_size()
                &&& value == T::from_image(
                    old(self).image().subrange(
                        old(self).position() as int,
                        (old(self).position() + T::flat_size()) as int,
                    ),
                )
            },
    {
        let size = T::size();
        let total = self.bytes.len();
        let value = T::load(window(self.bytes, self.at, size));
        assert(old(self).position() + size <= total ==> old(self).position() + size
            <= usize::MAX);
        self.at = match self.at.checked_add(size) {
            Some(next) => next,
            None => usize::MAX,
        };
        value
    }

    /// Skips `count` bytes of padding.
    pub fn skip(&mut self, count: usize)
        ensures
            final(self).image() == old(self).image(),
            old(self).position() + count <= usize::MAX ==> final(self).position() == old(
                self,
            ).position() + count,
    {
        self.at = match self.at.checked_add(count) {
            Some(next) => next,
            None => usize::MAX,
        };
    }
}

} // verus!
