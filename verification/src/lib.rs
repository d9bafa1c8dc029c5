//! Page-aligned envelopes for flat values, the signatures that guard them, and a lend channel
//! that hands their buffers to handlers.
//!
//! A flat value has a byte image of fixed size that holds no pointer ([`IpcSafe`]); the
//! primitive types are flat, and so are options, results, arrays and tuples of flat types. An
//! envelope ([`envelope::Envelope`]) owns one such value and stands for a buffer of whole
//! pages: the image of the value, then zeros. The buffer can be lent to a handler of a
//! [`channel::LendChannel`], read-only or mutably, and it can be turned back into an envelope
//! by whoever presents the signature of the value's type.
//!
//! The signature ([`signature::ast_hash`]) is a fingerprint of the declaration of the type
//! ([`declaration::Declaration`]): declarations that read the same have the same signature,
//! and declarations that differ are hashed from different bytes ([`distinct`]).
//!
//! Before a type gets an envelope its declaration is certified ([`certify`], [`derive`]):
//! every field must have a type that can be flat, and each named type among them is listed as
//! an obligation that is left to be proved where the type is used.

pub mod certify;
pub mod channel;
pub mod compound;
pub mod declaration;
pub mod derive;
pub mod distinct;
pub mod envelope;
pub mod flat;
pub mod layout;
pub mod little_endian;
pub mod primitives;
pub mod signature;
pub mod tuples;
pub mod vec;

pub use envelope::{IntoIpc, Ipc};
pub use flat::IpcSafe;
pub use vec::Vec;
