//! A typed, chainable accessor layer over a fixed-layout binary buffer.
//!
//! Each logical field of the buffer is described by a [`Field`]
//! descriptor: a fixed, non-empty byte range together with endian-aware
//! encode and decode functions.  An [`Accessor`] binds an active byte
//! order to read ([`Getter`]) and write ([`Setter`]) operations against a
//! byte buffer owned by the caller, and operations chain: several reads
//! or writes go in one expression.  Only descriptors carrying the
//! [`Mutable`] capability may be used in write operations; the check is a
//! trait bound, settled before any byte of a buffer can change.

pub mod access;
pub mod codec;
pub mod descriptors;
pub mod field;

pub use access::{AccessError, Accessor, Getter, Ordered, Setter};
pub use descriptors::{U16Field, U32Field, U64Field, U8Field, U8ReadOnlyField};
pub use field::{Encode, Field, Mutable};
