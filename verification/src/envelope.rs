//! The envelope: one flat value together with the page-padded buffer that stands for it when
//! it is lent or handed over.
//!
//! An envelope owns exactly one value. Its bytes are the image of that value followed by zero
//! padding up to a whole number of pages. A buffer is turned back into an envelope only when
//! it is long enough and the caller presents the signature of the value's type.
//!
//! A handler that is lent a buffer reads the value by turning the buffer into an envelope of
//! its own. To change the value it changes that envelope and stores it back into the buffer.
//!
//! An envelope is lent only for the length of one call: `lend` and `lend_mut` borrow it and
//! return when the handler has returned. Turning the envelope into the original, or dropping
//! it, uses it up, and nothing can be done with it afterwards.

use crate::channel::LendChannel;
use crate::flat::{flat_laws, window, zeros, IpcSafe};
use crate::layout::{checked_padded_size, lemma_padded_size, spec_padded_size};
use vstd::prelude::*;

verus! {

/// A flat type whose declaration was certified. It carries the signature of that declaration.
pub trait Certified: IpcSafe {
    /// The signature of the declaration of this type.
    open spec fn spec_signature() -> u32 {
        0
    }

    /// The signature of the declaration of this type.
    fn signature() -> (signature: u32)
        ensures
            Self::obeys_flat_spec() ==> signature == Self::spec_signature(),
    ;
}

/// The bytes of the envelope of a value with this image: the image, then zeros up to the
/// padded size.
pub open spec fn padded_image(image: Seq<u8>) -> Seq<u8> {
    image + zeros((spec_padded_size(image.len()) - image.len()) as nat)
}

/// What every envelope type offers: reconstruction from a buffer, access to the value it holds,
/// lending, and its signature.
pub trait Ipc: Sized {
    /// What this envelope is a representation of.
    type Original;

    /// Whether the contracts of this trait say anything of this envelope type. They do when the
    /// original is a verified flat type.
    spec fn obeys_ipc_spec() -> bool;

    /// The value that the envelope holds.
    spec fn original(&self) -> Self::Original;

    /// The signature of the original's declaration.
    spec fn spec_signature() -> u32;

    /// The size of the original in bytes.
    spec fn original_size() -> nat;

    /// The bytes of the envelope: the image of the original and its padding.
    spec fn bytes(&self) -> Seq<u8>;

    /// The envelope that the first bytes of `data` stand for.
    spec fn from_bytes(data: Seq<u8>) -> Self;

    /// Whether this envelope may hand a handler this signature and this buffer.
    spec fn lends(&self, signature: usize, buffer: Seq<u8>) -> bool;

    /// The value that the envelope holds once a write handler has handed back `returned`.
    spec fn reread(&self, returned: Seq<u8>) -> Self::Original;

    /// Whether `data`, presented with `signature`, is taken for an envelope of this type: it is
    /// at least as long as the padded size, and `signature` is the signature of `Original`.
    open spec fn accepts(data: Seq<u8>, signature: usize) -> bool {
        &&& data.len() >= spec_padded_size(Self::original_size())
        &&& signature as int == Self::spec_signature() as int
    }

    /// Creates an envelope from a buffer. Succeeds only if the buffer holds a whole envelope
    /// and the signature passed in matches the signature of `Original`.
    fn from_slice(data: &[u8], signature: usize) -> (envelope: Option<Self>)
        ensures
            Self::obeys_ipc_spec() ==> (envelope.is_some() <==> Self::accepts(data@, signature)),
            Self::obeys_ipc_spec() && envelope.is_some() ==> envelope.unwrap() == Self::from_bytes(
                data@,
            ),
    ;

    /// Creates an envelope from a buffer without looking at its length or at a signature. It is
    /// up to the caller that `data` holds an envelope of this type.
    fn from_buffer_unchecked(data: &[u8]) -> (envelope: Self)
        ensures
            Self::obeys_ipc_spec() && data@.len() >= Self::original_size() ==> envelope
                == Self::from_bytes(data@),
    ;

    /// Writes the bytes of this envelope over the start of `buffer`, if they fit.
    fn store_into(&self, buffer: &mut Vec<u8>) -> (stored: bool)
        ensures
            final(buffer)@.len() == old(buffer)@.len(),
            !stored ==> final(buffer)@ == old(buffer)@,
            Self::obeys_ipc_spec() ==> (stored <==> old(buffer)@.len() >= self.bytes().len()),
            Self::obeys_ipc_spec() && stored ==> final(buffer)@ == self.bytes() + old(
                buffer,
            )@.subrange(self.bytes().len() as int, old(buffer)@.len() as int),
    ;

    /// Returns a reference to the original object while keeping the envelope alive.
    fn as_original(&self) -> (original: &Self::Original)
        ensures
            *original == self.original(),
    ;

    /// Returns a mutable reference to the original object while keeping the envelope alive.
    /// What is written through it is what the envelope holds afterwards.
    fn as_original_mut(&mut self) -> (original: &mut Self::Original)
        ensures
            *original == old(self).original(),
            final(self).original() == *final(original),
    ;

    /// Consumes the envelope and returns the original object.
    fn into_original(self) -> (original: Self::Original)
        ensures
            original == self.original(),
    ;

    /// Lends the bytes of this envelope to the read handler of `connection`, together with
    /// `opcode` and the envelope's signature. Returns the handler's reply, or `None` when no
    /// such server is registered. The envelope is unchanged.
    fn lend<R, W>(&self, channel: &LendChannel<R, W>, connection: usize, opcode: usize) -> (reply:
        Option<(usize, usize)>) where
        R: Fn(usize, usize, usize, &[u8]) -> (usize, usize),
        W: Fn(usize, usize, usize, &mut Vec<u8>) -> (usize, usize),

        requires
            channel.is_registered(connection) ==> forall|signature: usize, buffer: Seq<u8>|
                self.lends(signature, buffer) ==> #[trigger] channel.accepts_lend(
                    connection,
                    opcode,
                    signature,
                    0,
                    buffer,
                ),
        ensures
            reply.is_some() <==> channel.is_registered(connection),
            reply.is_some() ==> exists|signature: usize, buffer: Seq<u8>|
                self.lends(signature, buffer) && #[trigger] channel.lend_outcome(
                    connection,
                    opcode,
                    signature,
                    0,
                    buffer,
                    reply.unwrap(),
                ),
    ;

    /// Lends the bytes of this envelope mutably to the write handler of `connection`. When the
    /// handler has returned, the envelope holds what the handler left in the buffer. Returns
    /// the handler's reply, or `None`, with the envelope unchanged, when no such server is
    /// registered.
    fn lend_mut<R, W>(
        &mut self,
        channel: &LendChannel<R, W>,
        connection: usize,
        opcode: usize,
    ) -> (reply: Option<(usize, usize)>) where
        R: Fn(usize, usize, usize, &[u8]) -> (usize, usize),
        W: Fn(usize, usize, usize, &mut Vec<u8>) -> (usize, usize),

        requires
            channel.is_registered(connection) ==> forall|signature: usize, buffer: Seq<u8>|
                old(self).lends(signature, buffer) ==> #[trigger] channel.accepts_lend_mut(
                    connection,
                    opcode,
                    signature,
                    0,
                    buffer,
                ),
        ensures
            reply.is_some() <==> channel.is_registered(connection),
            reply.is_none() ==> final(self).original() == old(self).original(),
            reply.is_some() ==> exists|signature: usize, view: &mut Vec<u8>|
                old(self).lends(signature, mut_ref_current(view)@) && #[trigger] call_ensures(
                    channel@[connection as int].write,
                    (opcode, signature, 0usize, view),
                    reply.unwrap(),
                ) && (Self::obeys_ipc_spec() ==> final(self).original() == old(self).reread(
                    mut_ref_future(view)@,
                )),
    ;

    /// Returns the signature of this envelope. Useful for verifying that the correct message
    /// is being received.
    fn signature(&self) -> (signature: u32)
        ensures
            Self::obeys_ipc_spec() ==> signature == Self::spec_signature(),
    ;
}

/// A value that can be put into an envelope.
pub trait IntoIpc: Sized {
    /// The envelope type of this type.
    type IpcType: Ipc<Original = Self>;

    /// Moves this value into an envelope of its own. The value is not copied and not dropped:
    /// the envelope owns it from now on.
    fn into_ipc(self) -> (envelope: Self::IpcType)
        ensures
            envelope.original() == self,
    ;
}

/// The envelope of a certified flat type.
///
/// The envelope owns the value. It gives it up when it is turned back into the original;
/// otherwise the value is destroyed with the envelope, once.
pub struct Envelope<T: Certified> {
    value: T,
}

impl<T: Certified> IntoIpc for T {
    type IpcType = Envelope<T>;

    fn into_ipc(self) -> (envelope: Envelope<T>)
        ensures
            envelope == Envelope::spec_new(self),
            envelope.bytes() == padded_image(self.image()),
    {
        Envelope { value: self }
    }
}

impl<T: Certified> Envelope<T> {
    /// The envelope that holds `value`.
    pub closed spec fn spec_new(value: T) -> Self {
        Envelope { value }
    }

    /// The size of every envelope of this type.
    pub open spec fn spec_envelope_size() -> nat {
        spec_padded_size(T::flat_size())
    }
}

impl<T: Certified> Ipc for Envelope<T> {
    type Original = T;

    open spec fn obeys_ipc_spec() -> bool {
        T::obeys_flat_spec()
    }

    closed spec fn original(&self) -> T {
        self.value
    }

    open spec fn spec_signature() -> u32 {
        <T as Certified>::spec_signature()
    }

    open spec fn original_size() -> nat {
        T::flat_size()
    }

    open spec fn bytes(&self) -> Seq<u8> {
        padded_image(self.original().image())
    }

    open spec fn from_bytes(data: Seq<u8>) -> Self {
        Self::spec_new(T::from_image(data.subrange(0, T::flat_size() as int)))
    }

    open spec fn lends(&self, signature: usize, buffer: Seq<u8>) -> bool {
        T::obeys_flat_spec() ==> signature == Self::spec_signature() && buffer == self.bytes()
    }

    open spec fn reread(&self, returned: Seq<u8>) -> T {
        if returned.len() >= T::flat_size() {
            T::from_image(returned.subrange(0, T::flat_size() as int))
        } else {
            self.original()
        }
    }

    fn from_slice(data: &[u8], signature: usize) -> (envelope: Option<Self>) {
        let expected = T::signature() as usize;
        match checked_padded_size(T::size()) {
            Some(padded) => {
                if data.len() < padded || signature != expected {
                    None
                } else {
                    proof {
                        lemma_padded_size(T::flat_size());
                    }
                    Some(Self::from_buffer_unchecked(data))
                }
            },
            None => None,
        }
    }

    fn from_buffer_unchecked(data: &[u8]) -> (envelope: Self) {
        Envelope { value: T::load(window(data, 0, T::size())) }
    }

    fn store_into(&self, buffer: &mut Vec<u8>) -> (stored: bool) {
        let bytes = self.to_buffer();
        if bytes.len() > buffer.len() {
            return false;
        }
        let ghost before = buffer@;
        let mut at: usize = 0;
        while at < bytes.len()
            invariant
                at <= bytes@.len() <= buffer@.len() == before.len(),
                buffer@ == bytes@.subrange(0, at as int) + before.subrange(
                    at as int,
                    before.len() as int,
                ),
            decreases bytes@.len() - at,
        {
            buffer.set(at, bytes[at]);
            at = at + 1;
        }
        assert(bytes@.subrange(0, at as int) == bytes@);
        true
    }

    fn as_original(&self) -> (original: &T) {
        &self.value
    }

    fn as_original_mut(&mut self) -> (original: &mut T) {
        &mut self.value
    }

    fn into_original(self) -> (original: T) {
        self.value
    }

    fn lend<R, W>(&self, channel: &LendChannel<R, W>, connection: usize, opcode: usize) -> (reply:
        Option<(usize, usize)>) where
        R: Fn(usize, usize, usize, &[u8]) -> (usize, usize),
        W: Fn(usize, usize, usize, &mut Vec<u8>) -> (usize, usize),
     {
        let signature = T::signature() as usize;
        let buffer = self.to_buffer();
        proof {
            assert(self.lends(signature, buffer@));
        }
        channel.lend(connection, opcode, signature, 0, buffer.as_slice())
    }

    fn lend_mut<R, W>(
        &mut self,
        channel: &LendChannel<R, W>,
        connection: usize,
        opcode: usize,
    ) -> (reply: Option<(usize, usize)>) where
        R: Fn(usize, usize, usize, &[u8]) -> (usize, usize),
        W: Fn(usize, usize, usize, &mut Vec<u8>) -> (usize, usize),
     {
        let signature = T::signature() as usize;
        let mut buffer = self.to_buffer();
        proof {
            assert(self.lends(signature, buffer@));
        }
        let reply = channel.lend_mut(connection, opcode, signature, 0, &mut buffer);
        if reply.is_some() {
            let size = T::size();
            if size <= buffer.len() {
                self.value = T::load(window(buffer.as_slice(), 0, size));
            }
        }
        reply
    }

    fn signature(&self) -> (signature: u32) {
        T::signature()
    }
}

impl<T: Certified> core::ops::Deref for Envelope<T> {
    type Target = T;

    /// The envelope can be read as the value it holds.
    fn deref(&self) -> (original: &T)
        ensures
            *original == self.original(),
    {
        &self.value
    }
}

/// Round trip: the envelope made from a value holds that value, so turning it back into the
/// original gives the value that went in.
pub proof fn lemma_round_trip<T: Certified>(value: T)
    ensures
        Envelope::spec_new(value).original() == value,
{
}

/// An envelope is nothing but the value it holds: two envelopes with the same original are the
/// same envelope.
pub proof fn lemma_envelope_of_original<T: Certified>(envelope: Envelope<T>)
    ensures
        envelope == Envelope::spec_new(envelope.original()),
{
}

/// Size and alignment: the bytes of an envelope are a whole number of pages, at least as long
/// as the value and less than one page longer, and hold the image of the value at their start
/// and zeros after it.
pub proof fn lemma_envelope_bytes<T: Certified>(envelope: Envelope<T>)
    requires
        flat_laws::<T>(),
    ensures
        envelope.bytes().len() == Envelope::<T>::spec_envelope_size(),
        envelope.bytes().len() % 4096 == 0,
        envelope.bytes().len() >= T::flat_size(),
        envelope.bytes().len() - T::flat_size() < 4096,
        envelope.bytes().subrange(0, T::flat_size() as int) == envelope.original().image(),
        forall|i: int| T::flat_size() <= i < envelope.bytes().len() ==> envelope.bytes()[i] == 0,
{
    lemma_padded_size(T::flat_size());
    let image = envelope.original().image();
    assert(image.len() == T::flat_size());
    assert(envelope.bytes().subrange(0, T::flat_size() as int) =~= image);
}

/// Reconstruction: a buffer that starts with the bytes of an envelope, presented with the
/// right signature, is accepted and stands for that same envelope.
pub proof fn lemma_reconstruction<T: Certified>(envelope: Envelope<T>, rest: Seq<u8>)
    requires
        flat_laws::<T>(),
    ensures
        Envelope::<T>::accepts(
            envelope.bytes() + rest,
            <T as Certified>::spec_signature() as usize,
        ),
        Envelope::<T>::from_bytes(envelope.bytes() + rest) == envelope,
        envelope.reread(envelope.bytes() + rest) == envelope.original(),
{
    lemma_envelope_bytes(envelope);
    let data = envelope.bytes() + rest;
    assert(data.subrange(0, T::flat_size() as int) =~= envelope.original().image());
}

impl<T: Certified> Envelope<T> {
    /// The bytes of this envelope in a buffer of their own: the image of the value, then zeros
    /// up to the padded size.
    pub fn to_buffer(&self) -> (buffer: Vec<u8>)
        ensures
            T::obeys_flat_spec() ==> buffer@ == self.bytes(),
            T::obeys_flat_spec() ==> buffer@.len() == Self::spec_envelope_size(),
    {
        let mut buffer: Vec<u8> = Vec::new();
        self.value.store(&mut buffer);
        match checked_padded_size(T::size()) {
            Some(padded) => {
                proof {
                    lemma_padded_size(T::flat_size());
                }
                buffer.resize(padded, 0u8);
            },
            None => {},
        }
        buffer
    }
}

} // verus!
