//! The flat images of the types that are built from flat types: `Option`, `Result` and
//! fixed-size arrays.

use crate::flat::{flat_laws, push_zeros, window, zeros, IpcSafe};
use crate::layout::MAX_FLAT_SIZE;
use vstd::prelude::*;

verus! {

impl<T: IpcSafe> IpcSafe for Option<T> {
    open spec fn obeys_flat_spec() -> bool {
        T::obeys_flat_spec() && T::flat_size() < MAX_FLAT_SIZE
    }

    open spec fn flat_size() -> nat {
        1 + T::flat_size()
    }

    /// One byte that tells whether a value is there, then room for one: the image of the
    /// value, or zeros.
    open spec fn image(&self) -> Seq<u8> {
        match self {
            None => seq![0u8] + zeros(T::flat_size()),
            Some(value) => seq![1u8] + value.image(),
        }
    }

    open spec fn from_image(bytes: Seq<u8>) -> Self {
        if bytes[0] == 0 {
            None
        } else {
            Some(T::from_image(bytes.subrange(1, bytes.len() as int)))
        }
    }

    fn size() -> (n: usize) {
        match T::size().checked_add(1) {
            Some(n) => n,
            None => usize::MAX,
        }
    }

    fn store(&self, out: &mut Vec<u8>) {
        match self {
            None => {
                let room = T::size();
                out.push(0);
                push_zeros(out, room);
                assert(out@ == old(out)@ + (seq![0u8] + zeros(room as nat)));
            },
            Some(value) => {
                out.push(1);
                value.store(out);
                assert(T::obeys_flat_spec() ==> out@ == old(out)@ + (seq![1u8] + value.image()));
            },
        }
    }

    fn load(bytes: &[u8]) -> (v: Self) {
        if bytes.len() >= 1 && bytes[0] != 0 {
            Some(T::load(window(bytes, 1, bytes.len() - 1)))
        } else {
            None
        }
    }
}

/// An `Option` of a flat type that leaves room for the tag keeps the laws of a flat type.
pub proof fn lemma_option_flat<T: IpcSafe>()
    requires
        flat_laws::<T>(),
        T::flat_size() < MAX_FLAT_SIZE,
    ensures
        flat_laws::<Option<T>>(),
{
    assert forall|v: Option<T>| (#[trigger] v.image()).len() == 1 + T::flat_size() && Option::<
        T,
    >::from_image(v.image()) == v by {
        match v {
            None => {},
            Some(value) => {
                assert(value.image().len() == T::flat_size());
                assert(v.image().subrange(1, v.image().len() as int) == value.image());
                assert(T::from_image(value.image()) == value);
            },
        }
    }
}

/// The larger of two sizes.
pub open spec fn larger(a: nat, b: nat) -> nat {
    if a >= b {
        a
    } else {
        b
    }
}

impl<T: IpcSafe, E: IpcSafe> IpcSafe for Result<T, E> {
    open spec fn obeys_flat_spec() -> bool {
        &&& T::obeys_flat_spec()
        &&& E::obeys_flat_spec()
        &&& larger(T::flat_size(), E::flat_size()) < MAX_FLAT_SIZE
    }

    open spec fn flat_size() -> nat {
        1 + larger(T::flat_size(), E::flat_size())
    }

    /// One byte that tells which of the two is there, `0` for `Ok` and `1` for `Err`, then
    /// room for the larger of the two: the image of what is there, and zeros up to that size.
    open spec fn image(&self) -> Seq<u8> {
        match self {
            Ok(value) => seq![0u8] + value.image() + zeros(
                (larger(T::flat_size(), E::flat_size()) - T::flat_size()) as nat,
            ),
            Err(error) => seq![1u8] + error.image() + zeros(
                (larger(T::flat_size(), E::flat_size()) - E::flat_size()) as nat,
            ),
        }
    }

    open spec fn from_image(bytes: Seq<u8>) -> Self {
        if bytes[0] == 0 {
            Ok(T::from_image(bytes.subrange(1, 1 + T::flat_size() as int)))
        } else {
            Err(E::from_image(bytes.subrange(1, 1 + E::flat_size() as int)))
        }
    }

    fn size() -> (n: usize) {
        let ok = T::size();
        let err = E::size();
        let room = if ok >= err {
            ok
        } else {
            err
        };
        match room.checked_add(1) {
            Some(n) => n,
            None => usize::MAX,
        }
    }

    fn store(&self, out: &mut Vec<u8>) {
        let ok = T::size();
        let err = E::size();
        let room = if ok >= err {
            ok
        } else {
            err
        };
        match self {
            Ok(value) => {
                out.push(0);
                value.store(out);
                push_zeros(out, room - ok);
                assert(T::obeys_flat_spec() ==> out@ == old(out)@ + (seq![0u8] + value.image()
                    + zeros((room - ok) as nat)));
            },
            Err(error) => {
                out.push(1);
                error.store(out);
                push_zeros(out, room - err);
                assert(E::obeys_flat_spec() ==> out@ == old(out)@ + (seq![1u8] + error.image()
                    + zeros((room - err) as nat)));
            },
        }
    }

    fn load(bytes: &[u8]) -> (v: Self) {
        if bytes.len() >= 1 && bytes[0] != 0 {
            Err(E::load(window(bytes, 1, E::size())))
        } else {
            Ok(T::load(window(bytes, 1, T::size())))
        }
    }
}

/// A `Result` of two flat types that leave room for the tag keeps the laws of a flat type.
pub proof fn lemma_result_flat<T: IpcSafe, E: IpcSafe>()
    requires
        flat_laws::<T>(),
        flat_laws::<E>(),
        larger(T::flat_size(), E::flat_size()) < MAX_FLAT_SIZE,
    ensures
        flat_laws::<Result<T, E>>(),
{
    let room = larger(T::flat_size(), E::flat_size());
    assert forall|v: Result<T, E>| (#[trigger] v.image()).len() == 1 + room && Result::<
        T,
        E,
    >::from_image(v.image()) == v by {
        match v {
            Ok(value) => {
                assert(value.image().len() == T::flat_size());
                assert(v.image().subrange(1, 1 + T::flat_size() as int) == value.image());
                assert(T::from_image(value.image()) == value);
            },
            Err(error) => {
                assert(error.image().len() == E::flat_size());
                assert(v.image().subrange(1, 1 + E::flat_size() as int) == error.image());
                assert(E::from_image(error.image()) == error);
            },
        }
    }
}

/// The images of `items`, one after the other.
pub open spec fn images_of<T: IpcSafe>(items: Seq<T>) -> Seq<u8>
    decreases items.len(),
{
    if items.len() == 0 {
        Seq::empty()
    } else {
        images_of(items.drop_last()) + items.last().image()
    }
}

/// The `count` values whose images stand one after the other in `bytes`.
pub open spec fn elements_of<T: IpcSafe>(bytes: Seq<u8>, count: nat) -> Seq<T> {
    Seq::new(
        count,
        |at: int| T::from_image(bytes.subrange(at * T::flat_size(), (at + 1) * T::flat_size())),
    )
}

/// The images of the items of a flat type, one after the other, take the size of one image
/// for each item, and each item can be read back from its place.
pub proof fn lemma_images_of<T: IpcSafe>(items: Seq<T>)
    requires
        flat_laws::<T>(),
    ensures
        images_of(items).len() == items.len() * T::flat_size(),
        elements_of::<T>(images_of(items), items.len()) == items,
    decreases items.len(),
{
    let size = T::flat_size() as int;
    if items.len() > 0 {
        let front = items.drop_last();
        let last = items.last();
        lemma_images_of(front);
        assert(last.image().len() == size);
        assert(images_of(items).len() == items.len() * size) by (nonlinear_arith)
            requires
                images_of(items).len() == front.len() * size + size,
                front.len() == items.len() - 1,
        ;
        let bytes = images_of(items);
        assert forall|at: int| 0 <= at < items.len() implies elements_of::<T>(
            bytes,
            items.len(),
        )[at] == items[at] by {
            assert(0 <= at * size && (at + 1) * size <= items.len() * size
                && (at + 1) * size == at * size + size) by (nonlinear_arith)
                requires
                    0 <= at < items.len(),
                    0 <= size,
            ;
            if at < front.len() {
                assert((at + 1) * size <= front.len() * size) by (nonlinear_arith)
                    requires
                        at + 1 <= front.len(),
                        0 <= size,
                ;
                assert(bytes.subrange(at * size, (at + 1) * size) == images_of(front).subrange(
                    at * size,
                    (at + 1) * size,
                ));
                assert(elements_of::<T>(images_of(front), front.len())[at] == front[at]);
            } else {
                assert(at * size == images_of(front).len()) by (nonlinear_arith)
                    requires
                        at == front.len(),
                        images_of(front).len() == front.len() * size,
                ;
                assert(bytes.subrange(at * size, (at + 1) * size) == last.image());
            }
        }
        assert(elements_of::<T>(bytes, items.len()) =~= items);
    } else {
        assert(elements_of::<T>(images_of(items), items.len()) =~= items);
    }
}

/// The conversion of a `Vec` into an array, `TryFrom<Vec<T>>` for `[T; N]` of the standard
/// library. Its documentation says that it gets the entire contents of the `Vec` as an array
/// if its size exactly matches that of the requested array, and hands the `Vec` back
/// otherwise.
#[verifier::external_body]
fn vec_into_array<T, const N: usize>(items: Vec<T>) -> (array: Result<[T; N], Vec<T>>)
    ensures
        array.is_ok() <==> items@.len() == N,
        array matches Ok(filled) ==> filled@ == items@,
        array matches Err(returned) ==> returned == items,
{
    <[T; N]>::try_from(items)
}

impl<T: IpcSafe, const N: usize> IpcSafe for [T; N] {
    open spec fn obeys_flat_spec() -> bool {
        T::obeys_flat_spec() && N * T::flat_size() <= MAX_FLAT_SIZE
    }

    open spec fn flat_size() -> nat {
        (N * T::flat_size()) as nat
    }

    /// The images of the elements, one after the other.
    open spec fn image(&self) -> Seq<u8> {
        images_of(self@)
    }

    open spec fn from_image(bytes: Seq<u8>) -> Self {
        choose|array: [T; N]| array@ == elements_of::<T>(bytes, N as nat)
    }

    fn size() -> (n: usize) {
        match N.checked_mul(T::size()) {
            Some(n) => n,
            None => usize::MAX,
        }
    }

    fn store(&self, out: &mut Vec<u8>) {
        let mut at: usize = 0;
        assert(out@ == old(out)@ + images_of(self@.take(0)));
        while at < N
            invariant
                at <= N == self@.len(),
                T::obeys_flat_spec() ==> out@ == old(out)@ + images_of(self@.take(at as int)),
                T::obeys_flat_spec() ==> images_of(self@.take(at as int)).len() == at
                    * T::flat_size(),
            decreases N - at,
        {
            proof {
                assert(self@.take(at + 1).drop_last() == self@.take(at as int));
                assert(self@.take(at + 1).last() == self@[at as int]);
            }
            self[at].store(out);
            proof {
                if T::obeys_flat_spec() {
                    let size = T::flat_size() as int;
                    assert(out@ == old(out)@ + (images_of(self@.take(at as int))
                        + self@[at as int].image()));
                    assert((at + 1) * size == at * size + size) by (nonlinear_arith);
                }
            }
            at = at + 1;
        }
        proof {
            assert(self@.take(at as int) == self@);
        }
    }

    fn load(bytes: &[u8]) -> (v: Self) {
        let size = T::size();
        let mut items: Vec<T> = Vec::new();
        let mut at: usize = 0;
        while at < N
            invariant
                at <= N,
                items@.len() == at,
                T::obeys_flat_spec() ==> size == T::flat_size(),
                T::obeys_flat_spec() && bytes@.len() == N * T::flat_size() ==> items@
                    == elements_of::<T>(bytes@, at as nat),
            decreases N - at,
        {
            let start = match at.checked_mul(size) {
                Some(start) => start,
                None => bytes.len(),
            };
            let item = T::load(window(bytes, start, size));
            proof {
                if T::obeys_flat_spec() && bytes@.len() == N * T::flat_size() {
                    let s = T::flat_size() as int;
                    assert(0 <= at * s && (at + 1) * s <= N * s && (at + 1) * s == at * s + s)
                        by (nonlinear_arith)
                        requires
                            0 <= at < N,
                            0 <= s,
                    ;
                    assert(item == T::from_image(bytes@.subrange(at * s, (at + 1) * s)));
                    assert(items@.push(item) =~= elements_of::<T>(bytes@, (at + 1) as nat));
                }
            }
            items.push(item);
            at = at + 1;
        }
        match vec_into_array(items) {
            Ok(array) => {
                proof {
                    if T::obeys_flat_spec() && bytes@.len() == N * T::flat_size() {
                        let chosen = Self::from_image(bytes@);
                        assert(chosen@ == array@);
                        assert(chosen =~= array);
                    }
                }
                array
            },
            Err(_) => {
                proof {
                    assert(false);
                }
                vstd::pervasive::unreached()
            },
        }
    }
}

/// An array of a flat type keeps the laws of a flat type, as long as it fits in an envelope.
pub proof fn lemma_array_flat<T: IpcSafe, const N: usize>()
    requires
        flat_laws::<T>(),
        N * T::flat_size() <= MAX_FLAT_SIZE,
    ensures
        flat_laws::<[T; N]>(),
{
    assert forall|v: [T; N]|
        (#[trigger] v.image()).len() == N * T::flat_size() && <[T; N]>::from_image(v.image())
            == v by {
        lemma_images_of(v@);
        let chosen = <[T; N]>::from_image(v.image());
        assert(chosen@ == v@);
        assert(chosen =~= v);
    }
}

} // verus!
