//! A byte vector of fixed capacity: a flat stand-in for a growable vector.

use crate::flat::{flat_laws, window, IpcSafe};
use crate::little_endian::{
    byte_range, le_bytes, le_value, lemma_byte_range_monotone, lemma_le_bytes_len,
    lemma_le_round_trip, lemma_le_value_bound, load_le, store_le,
};
use crate::layout::MAX_FLAT_SIZE;
use vstd::prelude::*;

verus! {

/// Up to `N` bytes, stored in place: a length, and room for `N` bytes. A length beyond the
/// capacity, which only a foreign image can bring, counts as the capacity.
#[derive(Clone, Copy, Debug)]
pub struct Vec<const N: usize> {
    length: usize,
    buffer: [u8; N],
}

impl<const N: usize> View for Vec<N> {
    type V = Seq<u8>;

    /// The bytes that the vector holds.
    closed spec fn view(&self) -> Seq<u8> {
        if self.length <= N {
            self.buffer@.take(self.length as int)
        } else {
            self.buffer@
        }
    }
}

impl<const N: usize> Vec<N> {
    /// An empty vector.
    pub fn new() -> (vec: Self)
        ensures
            vec@ == Seq::<u8>::empty(),
    {
        Vec { length: 0, buffer: [0u8;N] }
    }

    /// The number of bytes that the vector can hold.
    pub fn capacity(&self) -> (capacity: usize)
        ensures
            capacity == N,
    {
        N
    }

    /// The number of bytes that the vector holds.
    pub fn len(&self) -> (len: usize)
        ensures
            len == self@.len(),
            len <= N,
    {
        if self.length <= N {
            self.length
        } else {
            N
        }
    }

    /// The byte at position `at`, if there is one.
    pub fn get(&self, at: usize) -> (byte: Option<u8>)
        ensures
            byte == if at < self@.len() {
                Some(self@[at as int])
            } else {
                None
            },
    {
        if at < self.len() {
            Some(self.buffer[at])
        } else {
            None
        }
    }

    /// Appends `byte` if there is room for it. Returns whether it was appended; a full vector
    /// is left as it is.
    pub fn push(&mut self, byte: u8) -> (pushed: bool)
        ensures
            pushed <==> old(self)@.len() < N,
            pushed ==> final(self)@ == old(self)@.push(byte),
            !pushed ==> final(self)@ == old(self)@,
    {
        if self.length < N {
            let at = self.length;
            let mut buffer = self.buffer;
            buffer[at] = byte;
            *self = Vec { length: at + 1, buffer };
            assert(self@ =~= old(self)@.push(byte));
            true
        } else {
            false
        }
    }
}

impl<const N: usize> Default for Vec<N> {
    /// An empty vector.
    fn default() -> (vec: Self)
        ensures
            vec@ == Seq::<u8>::empty(),
    {
        Vec::new()
    }
}

impl<const N: usize> IpcSafe for Vec<N> {
    open spec fn obeys_flat_spec() -> bool {
        N + 8 <= MAX_FLAT_SIZE
    }

    open spec fn flat_size() -> nat {
        (N + 8) as nat
    }

    /// The length in 8 bytes, low byte first, then all `N` bytes of the room.
    closed spec fn image(&self) -> Seq<u8> {
        le_bytes(self.length as nat, 8) + self.buffer@
    }

    closed spec fn from_image(bytes: Seq<u8>) -> Self {
        Vec {
            length: le_value(bytes.subrange(0, 8)) as usize,
            buffer: choose|buffer: [u8; N]| buffer@ == bytes.subrange(8, 8 + N),
        }
    }

    fn size() -> (n: usize) {
        match N.checked_add(8) {
            Some(n) => n,
            None => usize::MAX,
        }
    }

    fn store(&self, out: &mut std::vec::Vec<u8>) {
        store_le(self.length as u128, 8, out);
        let mut at: usize = 0;
        assert(out@ == old(out)@ + (le_bytes(self.length as nat, 8) + self.buffer@.take(0)));
        while at < N
            invariant
                at <= N == self.buffer@.len(),
                out@ == old(out)@ + (le_bytes(self.length as nat, 8) + self.buffer@.take(
                    at as int,
                )),
            decreases N - at,
        {
            out.push(self.buffer[at]);
            assert(self.buffer@.take(at + 1) == self.buffer@.take(at as int).push(
                self.buffer@[at as int],
            ));
            at = at + 1;
        }
        proof {
            assert(self.buffer@.take(at as int) == self.buffer@);
            lemma_le_bytes_len(self.length as nat, 8);
        }
    }

    fn load(bytes: &[u8]) -> (v: Self) {
        let head = window(bytes, 0, 8);
        proof {
            reveal_with_fuel(byte_range, 9);
            lemma_le_value_bound(head@);
            lemma_byte_range_monotone(head@.len(), 8);
        }
        let length = load_le(head) as usize;
        let mut buffer = [0u8;N];
        let mut at: usize = 0;
        while at < N
            invariant
                at <= N == buffer@.len(),
                bytes@.len() == N + 8 ==> buffer@.take(at as int) == bytes@.subrange(8, 8 + at),
            decreases N - at,
        {
            let from = at.checked_add(8);
            let byte = match from {
                Some(from) => if from < bytes.len() {
                    bytes[from]
                } else {
                    0
                },
                None => 0,
            };
            buffer[at] = byte;
            proof {
                if bytes@.len() == N + 8 {
                    assert(buffer@.take(at + 1) =~= bytes@.subrange(8, 8 + at + 1));
                }
            }
            at = at + 1;
        }
        proof {
            if bytes@.len() == N + 8 {
                assert(buffer@.take(at as int) == buffer@);
                let chosen = choose|other: [u8; N]| other@ == bytes@.subrange(8, 8 + N);
                assert(chosen@ == buffer@);
                assert(chosen =~= buffer);
            }
        }
        Vec { length, buffer }
    }
}

/// The fixed-capacity vector keeps the laws of a flat type, as long as it fits in an envelope.
pub proof fn lemma_vec_flat<const N: usize>()
    requires
        N + 8 <= MAX_FLAT_SIZE,
    ensures
        flat_laws::<Vec<N>>(),
{
    assert forall|v: Vec<N>| (#[trigger] v.image()).len() == N + 8 && Vec::<N>::from_image(
        v.image(),
    ) == v by {
        reveal_with_fuel(byte_range, 9);
        lemma_le_bytes_len(v.length as nat, 8);
        lemma_le_round_trip(v.length as nat, 8);
        let image = v.image();
        assert(image.subrange(0, 8) == le_bytes(v.length as nat, 8));
        assert(image.subrange(8, 8 + N) == v.buffer@);
        let chosen = choose|other: [u8; N]| other@ == image.subrange(8, 8 + N);
        assert(chosen@ == v.buffer@);
        assert(chosen =~= v.buffer);
    }
}

} // verus!
