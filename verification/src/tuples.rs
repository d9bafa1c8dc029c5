//! The flat images of tuples of up to four members: the images of the members, one after the
//! other.

use crate::flat::{flat_laws, IpcSafe, Reader};
use crate::layout::MAX_FLAT_SIZE;
use vstd::prelude::*;

verus! {

impl IpcSafe for () {
    open spec fn obeys_flat_spec() -> bool {
        true
    }

    open spec fn flat_size() -> nat {
        0
    }

    /// No bytes at all.
    open spec fn image(&self) -> Seq<u8> {
        Seq::empty()
    }

    open spec fn from_image(bytes: Seq<u8>) -> Self {
        ()
    }

    fn size() -> (n: usize) {
        0
    }

    fn store(&self, out: &mut Vec<u8>) {
        assert(out@ == old(out)@ + Seq::<u8>::empty());
    }

    fn load(bytes: &[u8]) -> (v: Self) {
        ()
    }
}

/// The empty tuple keeps the laws of a flat type.
pub proof fn lemma_unit_flat()
    ensures
        flat_laws::<()>(),
{
}

impl<A: IpcSafe> IpcSafe for (A,) {
    open spec fn obeys_flat_spec() -> bool {
        &&& A::obeys_flat_spec()
        &&& A::flat_size() <= MAX_FLAT_SIZE
    }

    open spec fn flat_size() -> nat {
        A::flat_size()
    }

    /// The images of the members, one after the other.
    open spec fn image(&self) -> Seq<u8> {
        self.0.image()
    }

    open spec fn from_image(bytes: Seq<u8>) -> Self {
        let first = A::flat_size() as int;
        (
            A::from_image(bytes.subrange(0, first)),
        )
    }

    fn size() -> (n: usize) {
        A::size()
    }

    fn store(&self, out: &mut Vec<u8>) {
        self.0.store(out);
    }

    fn load(bytes: &[u8]) -> (v: Self) {
        let mut reader = Reader::new(bytes);
        (reader.take::<A>(),)
    }
}

/// A tuple of flat types keeps the laws of a flat type, as long as it fits in an envelope.
pub proof fn lemma_single_flat<A: IpcSafe>()
    requires
        flat_laws::<A>(),
        A::flat_size() <= MAX_FLAT_SIZE,
    ensures
        flat_laws::<(A,)>(),
{
    assert forall|v: (A,)|
        (#[trigger] v.image()).len() == <(A,)>::flat_size() && <(A,)>::from_image(v.image())
            == v by {
        let first = A::flat_size() as int;
        assert(v.0.image().len() == A::flat_size());
        assert(v.image().subrange(0, first) == v.0.image());
        assert(A::from_image(v.0.image()) == v.0);
    }
}

impl<A: IpcSafe, B: IpcSafe> IpcSafe for (A, B) {
    open spec fn obeys_flat_spec() -> bool {
        &&& A::obeys_flat_spec()
        &&& B::obeys_flat_spec()
        &&& A::flat_size() + B::flat_size() <= MAX_FLAT_SIZE
    }

    open spec fn flat_size() -> nat {
        A::flat_size() + B::flat_size()
    }

    /// The images of the members, one after the other.
    open spec fn image(&self) -> Seq<u8> {
        self.0.image() + self.1.image()
    }

    open spec fn from_image(bytes: Seq<u8>) -> Self {
        let first = A::flat_size() as int;
        let second = first + B::flat_size();
        (
            A::from_image(bytes.subrange(0, first)),
            B::from_image(bytes.subrange(first, second)),
        )
    }

    fn size() -> (n: usize) {
        let total: usize = A::size();
        let total = match total.checked_add(B::size()) {
            Some(total) => total,
            None => usize::MAX,
        };
        total
    }

    fn store(&self, out: &mut Vec<u8>) {
        self.0.store(out);
        self.1.store(out);
        proof {
            if Self::obeys_flat_spec() {
                assert(out@ == old(out)@ + (self.0.image() + self.1.image()));
            }
        }
    }

    fn load(bytes: &[u8]) -> (v: Self) {
        let mut reader = Reader::new(bytes);
        (reader.take::<A>(), reader.take::<B>())
    }
}

/// A tuple of flat types keeps the laws of a flat type, as long as it fits in an envelope.
pub proof fn lemma_pair_flat<A: IpcSafe, B: IpcSafe>()
    requires
        flat_laws::<A>(),
        flat_laws::<B>(),
        A::flat_size() + B::flat_size() <= MAX_FLAT_SIZE,
    ensures
        flat_laws::<(A, B)>(),
{
    assert forall|v: (A, B)|
        (#[trigger] v.image()).len() == <(A, B)>::flat_size() && <(A, B)>::from_image(v.image())
            == v by {
        let first = A::flat_size() as int;
        let second = first + B::flat_size();
        assert(v.0.image().len() == A::flat_size());
        assert(v.1.image().len() == B::flat_size());
        assert(v.image().subrange(0, first) == v.0.image());
        assert(A::from_image(v.0.image()) == v.0);
        assert(v.image().subrange(first, second) == v.1.image());
        assert(B::from_image(v.1.image()) == v.1);
    }
}

impl<A: IpcSafe, B: IpcSafe, C: IpcSafe> IpcSafe for (A, B, C) {
    open spec fn obeys_flat_spec() -> bool {
        &&& A::obeys_flat_spec()
        &&& B::obeys_flat_spec()
        &&& C::obeys_flat_spec()
        &&& A::flat_size() + B::flat_size() + C::flat_size() <= MAX_FLAT_SIZE
    }

    open spec fn flat_size() -> nat {
        A::flat_size() + B::flat_size() + C::flat_size()
    }

    /// The images of the members, one after the other.
    open spec fn image(&self) -> Seq<u8> {
        self.0.image() + self.1.image() + self.2.image()
    }

    open spec fn from_image(bytes: Seq<u8>) -> Self {
        let first = A::flat_size() as int;
        let second = first + B::flat_size();
        let third = second + C::flat_size();
        (
            A::from_image(bytes.subrange(0, first)),
            B::from_image(bytes.subrange(first, second)),
            C::from_image(bytes.subrange(second, third)),
        )
    }

    fn size() -> (n: usize) {
        let total: usize = A::size();
        let total = match total.checked_add(B::size()) {
            Some(total) => total,
            None => usize::MAX,
        };
        let total = match total.checked_add(C::size()) {
            Some(total) => total,
            None => usize::MAX,
        };
        total
    }

    fn store(&self, out: &mut Vec<u8>) {
        self.0.store(out);
        self.1.store(out);
        self.2.store(out);
        proof {
            if Self::obeys_flat_spec() {
                assert(out@ == old(out)@ + (self.0.image() + self.1.image() + self.2.image()));
            }
        }
    }

    fn load(bytes: &[u8]) -> (v: Self) {
        let mut reader = Reader::new(bytes);
        (reader.take::<A>(), reader.take::<B>(), reader.take::<C>())
    }
}

/// A tuple of flat types keeps the laws of a flat type, as long as it fits in an envelope.
pub proof fn lemma_triple_flat<A: IpcSafe, B: IpcSafe, C: IpcSafe>()
    requires
        flat_laws::<A>(),
        flat_laws::<B>(),
        flat_laws::<C>(),
        A::flat_size() + B::flat_size() + C::flat_size() <= MAX_FLAT_SIZE,
    ensures
        flat_laws::<(A, B, C)>(),
{
    assert forall|v: (A, B, C)|
        (#[trigger] v.image()).len() == <(A, B, C)>::flat_size() && <(A, B, C)>::from_image(
            v.image(),
        ) == v by {
        let first = A::flat_size() as int;
        let second = first + B::flat_size();
        let third = second + C::flat_size();
        assert(v.0.image().len() == A::flat_size());
        assert(v.1.image().len() == B::flat_size());
        assert(v.2.image().len() == C::flat_size());
        assert(v.image().subrange(0, first) == v.0.image());
        assert(A::from_image(v.0.image()) == v.0);
        assert(v.image().subrange(first, second) == v.1.image());
        assert(B::from_image(v.1.image()) == v.1);
        assert(v.image().subrange(second, third) == v.2.image());
        assert(C::from_image(v.2.image()) == v.2);
    }
}

impl<A: IpcSafe, B: IpcSafe, C: IpcSafe, D: IpcSafe> IpcSafe for (A, B, C, D) {
    open spec fn obeys_flat_spec() -> bool {
        &&& A::obeys_flat_spec()
        &&& B::obeys_flat_spec()
        &&& C::obeys_flat_spec()
        &&& D::obeys_flat_spec()
        &&& A::flat_size() + B::flat_size() + C::flat_size() + D::flat_size() <= MAX_FLAT_SIZE
    }

    open spec fn flat_size() -> nat {
        A::flat_size() + B::flat_size() + C::flat_size() + D::flat_size()
    }

    /// The images of the members, one after the other.
    open spec fn image(&self) -> Seq<u8> {
        self.0.image() + self.1.image() + self.2.image() + self.3.image()
    }

    open spec fn from_image(bytes: Seq<u8>) -> Self {
        let first = A::flat_size() as int;
        let second = first + B::flat_size();
        let third = second + C::flat_size();
        let fourth = third + D::flat_size();
        (
            A::from_image(bytes.subrange(0, first)),
            B::from_image(bytes.subrange(first, second)),
            C::from_image(bytes.subrange(second, third)),
            D::from_image(bytes.subrange(third, fourth)),
        )
    }

    fn size() -> (n: usize) {
        let total: usize = A::size();
        let total = match total.checked_add(B::size()) {
            Some(total) => total,
            None => usize::MAX,
        };
        let total = match total.checked_add(C::size()) {
            Some(total) => total,
            None => usize::MAX,
        };
        let total = match total.checked_add(D::size()) {
            Some(total) => total,
            None => usize::MAX,
        };
        total
    }

    fn store(&self, out: &mut Vec<u8>) {
        self.0.store(out);
        self.1.store(out);
        self.2.store(out);
        self.3.store(out);
        proof {
            if Self::obeys_flat_spec() {
                assert(out@ == old(out)@ + (self.0.image() + self.1.image() + self.2.image()
                    + self.3.image()));
            }
        }
    }

    fn load(bytes: &[u8]) -> (v: Self) {
        let mut reader = Reader::new(bytes);
        (reader.take::<A>(), reader.take::<B>(), reader.take::<C>(), reader.take::<D>())
    }
}

/// A tuple of flat types keeps the laws of a flat type, as long as it fits in an envelope.
pub proof fn lemma_quadruple_flat<A: IpcSafe, B: IpcSafe, C: IpcSafe, D: IpcSafe>()
    requires
        flat_laws::<A>(),
        flat_laws::<B>(),
        flat_laws::<C>(),
        flat_laws::<D>(),
        A::flat_size() + B::flat_size() + C::flat_size() + D::flat_size() <= MAX_FLAT_SIZE,
    ensures
        flat_laws::<(A, B, C, D)>(),
{
    assert forall|v: (A, B, C, D)|
        (#[trigger] v.image()).len() == <(A, B, C, D)>::flat_size() && <(
            A,
            B,
            C,
            D,
        )>::from_image(v.image()) == v by {
        let first = A::flat_size() as int;
        let second = first + B::flat_size();
        let third = second + C::flat_size();
        let fourth = third + D::flat_size();
        assert(v.0.image().len() == A::flat_size());
        assert(v.1.image().len() == B::flat_size());
        assert(v.2.image().len() == C::flat_size());
        assert(v.3.image().len() == D::flat_size());
        assert(v.image().subrange(0, first) == v.0.image());
        assert(A::from_image(v.0.image()) == v.0);
        assert(v.image().subrange(first, second) == v.1.image());
        assert(B::from_image(v.1.image()) == v.1);
        assert(v.image().subrange(second, third) == v.2.image());
        assert(C::from_image(v.2.image()) == v.2);
        assert(v.image().subrange(third, fourth) == v.3.image());
        assert(D::from_image(v.3.image()) == v.3);
    }
}

} // verus!

