//! Field descriptors: the contract every logical field of a fixed-layout
//! buffer must satisfy, and the capability marker for writable fields.

use vstd::prelude::*;

verus! {

/// The two byte orders a buffer can be read or written in.
#[derive(Clone, Copy, Debug, PartialEq, Eq, Structural)]
pub enum Encode {
    Le,
    Be,
}

/// A field descriptor: a fixed, non-empty, half-open byte range within a
/// buffer, together with pure encode and decode functions for both byte
/// orders.
///
/// A value of the implementing type wraps one decoded field value (its
/// [`spec_value`](Field::spec_value)), which a write operation consumes.
/// The codec laws — every encoding is exactly as long as the declared
/// range, and decoding inverts encoding for both orders — are proof
/// obligations on each implementation, discharged in
/// [`lemma_codec`](Field::lemma_codec).
pub trait Field: Sized {
    /// The decoded value type of this field.
    type FieldType;

    /// First byte of the field's range.
    spec fn spec_start() -> int;

    /// One past the last byte of the field's range.
    spec fn spec_end() -> int;

    /// The value a little-endian byte string of the field's width decodes to.
    spec fn spec_decode_le(bytes: Seq<u8>) -> Self::FieldType;

    /// The value a big-endian byte string of the field's width decodes to.
    spec fn spec_decode_be(bytes: Seq<u8>) -> Self::FieldType;

    /// The little-endian byte string a value encodes to.
    spec fn spec_encode_le(v: Self::FieldType) -> Seq<u8>;

    /// The big-endian byte string a value encodes to.
    spec fn spec_encode_be(v: Self::FieldType) -> Seq<u8>;

    /// The decoded value wrapped by this descriptor value.
    spec fn spec_value(self) -> Self::FieldType;

    /// Codec laws: encodings fill the declared range exactly, and each
    /// decode function inverts the encode function of the same order.
    proof fn lemma_codec(v: Self::FieldType)
        ensures
            Self::spec_encode_le(v).len() == Self::spec_end() - Self::spec_start(),
            Self::spec_encode_be(v).len() == Self::spec_end() - Self::spec_start(),
            Self::spec_decode_le(Self::spec_encode_le(v)) == v,
            Self::spec_decode_be(Self::spec_encode_be(v)) == v,
    ;

    /// The field's byte range, the same whatever byte order is active.
    fn range() -> (r: (usize, usize))
        requires
            0 <= Self::spec_start() < Self::spec_end() <= usize::MAX,
        ensures
            r.0 == Self::spec_start(),
            r.1 == Self::spec_end(),
    ;

    /// Decodes a little-endian byte string of exactly the field's width.
    fn from_le_bytes(val: &[u8]) -> (r: Self::FieldType)
        requires
            val@.len() == Self::spec_end() - Self::spec_start(),
        ensures
            r == Self::spec_decode_le(val@),
    ;

    /// Decodes a big-endian byte string of exactly the field's width.
    fn from_be_bytes(val: &[u8]) -> (r: Self::FieldType)
        requires
            val@.len() == Self::spec_end() - Self::spec_start(),
        ensures
            r == Self::spec_decode_be(val@),
    ;

    /// Encodes the wrapped value as little-endian bytes.
    fn to_le_bytes(self) -> (r: Vec<u8>)
        ensures
            r@ == Self::spec_encode_le(self.spec_value()),
    ;

    /// Encodes the wrapped value as big-endian bytes.
    fn to_be_bytes(self) -> (r: Vec<u8>)
        ensures
            r@ == Self::spec_encode_be(self.spec_value()),
    ;
}

/// A well-formed descriptor: its range is non-empty and representable in
/// machine integers.  Violating this is a construction-time defect of the
/// descriptor, not a run-time condition of any buffer.
pub open spec fn field_wf<T: Field>() -> bool {
    &&& 0 <= T::spec_start()
    &&& T::spec_start() < T::spec_end()
    &&& T::spec_end() <= usize::MAX
}

/// The descriptor is well formed and its range lies inside the buffer.
pub open spec fn field_fits<T: Field>(buf: Seq<u8>) -> bool {
    &&& field_wf::<T>()
    &&& T::spec_end() <= buf.len()
}

/// Capability marker: only field descriptors carrying it may be passed to
/// a write operation.  The restriction is enforced by trait bounds at the
/// call site, before any byte of a buffer can change.
pub trait Mutable {

}

} // verus!
