//! Views over a byte buffer: the read ([`Getter`]) and write ([`Setter`])
//! protocols, and [`Accessor`], the concrete view handle.
//!
//! A view binds one active byte order to buffer operations.  The buffer
//! itself is owned by the caller and handed to each operation, so any
//! number of views may share one buffer; a view owns no buffer memory.

use vstd::prelude::*;
use vstd::slice::slice_subrange;

use crate::field::{field_fits, field_wf, Encode, Field, Mutable};

verus! {

/// What a read of field T returns: the field's byte range of the buffer,
/// decoded in the given order.
pub open spec fn spec_get<T: Field>(buf: Seq<u8>, order: Encode) -> T::FieldType {
    match order {
        Encode::Le => T::spec_decode_le(buf.subrange(T::spec_start(), T::spec_end())),
        Encode::Be => T::spec_decode_be(buf.subrange(T::spec_start(), T::spec_end())),
    }
}

/// The bytes a value of field T is written as under the given order.
pub open spec fn spec_encoded<T: Field>(v: T::FieldType, order: Encode) -> Seq<u8> {
    match order {
        Encode::Le => T::spec_encode_le(v),
        Encode::Be => T::spec_encode_be(v),
    }
}

/// The buffer after writing value v into field T under the given order:
/// the field's range is overwritten, all other bytes are kept.
pub open spec fn spec_with<T: Field>(buf: Seq<u8>, v: T::FieldType, order: Encode) -> Seq<u8> {
    buf.subrange(0, T::spec_start()) + spec_encoded::<T>(v, order) + buf.subrange(
        T::spec_end(),
        buf.len() as int,
    )
}

/// A handle with an active byte order.
pub trait Ordered {
    /// The byte order the handle currently reads and writes in.
    spec fn current_order(&self) -> Encode;
}

/// The read protocol: decode fields out of a shared buffer.  No operation
/// of this trait can change the buffer, which is only ever borrowed
/// immutably.
pub trait Getter: Ordered + Sized {
    /// Returns the value of field T: the buffer slice at the field's range,
    /// decoded in the view's current order.
    fn get<T: Field>(&self, data: &Vec<u8>) -> (r: T::FieldType)
        requires
            field_fits::<T>(data@),
        ensures
            r == spec_get::<T>(data@, self.current_order()),
    ;

    /// Derives a view on the same buffer with the given order active;
    /// neither this view nor any buffer changes.
    fn getter(&self, encode: Encode) -> (r: Self)
        ensures
            r.current_order() == encode,
    ;

    /// Reads field T into dest and returns the same view, so that several
    /// reads chain in one expression.
    fn out<T: Field>(&self, data: &Vec<u8>, dest: &mut T::FieldType) -> (r: &Self)
        requires
            field_fits::<T>(data@),
        ensures
            *final(dest) == spec_get::<T>(data@, self.current_order()),
            *r == *self,
    {
        *dest = self.get::<T>(data);
        self
    }
}

/// The write protocol: encode values into a caller-owned buffer.  Only
/// descriptors carrying the [`Mutable`] capability are accepted.
pub trait Setter: Ordered + Sized {
    /// Writes the value wrapped by `value` into field T's range, in the
    /// view's current order, leaving every byte outside the range as it
    /// was, and returns the same view, so that several writes chain in
    /// one expression.
    fn with<T: Field + Mutable>(&self, data: &mut Vec<u8>, value: T) -> (r: &Self)
        requires
            field_fits::<T>(old(data)@),
        ensures
            final(data)@ == spec_with::<T>(old(data)@, value.spec_value(), self.current_order()),
            final(data)@.len() == old(data)@.len(),
            *r == *self,
    ;

    /// Derives a view on the same buffer with the given order active;
    /// neither this view nor any buffer changes.
    fn setter(&self, encode: Encode) -> (r: Self)
        ensures
            r.current_order() == encode,
    ;
}

/// The one failure a checked buffer access can surface at run time: the
/// field's range ends past the buffer.  A write through a descriptor
/// without the [`Mutable`] capability is rejected by the type system
/// before any byte changes, and a descriptor whose encodings disagree
/// with its declared range cannot discharge
/// [`Field::lemma_codec`], so neither defect has a run-time
/// representation.
#[derive(Clone, Copy, Debug, PartialEq, Eq, Structural)]
pub enum AccessError {
    OutOfRange,
}

/// A view handle: an active byte order, bound to whatever buffer the
/// caller passes to each operation.  Copying the handle is free and every
/// copy shares the caller's buffer.
#[derive(Clone, Copy, Debug)]
pub struct Accessor {
    /// The active byte order.
    pub encode: Encode,
}

impl Ordered for Accessor {
    open spec fn current_order(&self) -> Encode {
        self.encode
    }
}

impl Accessor {
    /// A view with the given order active.
    pub fn new(encode: Encode) -> (r: Accessor)
        ensures
            r.current_order() == encode,
    {
        Accessor { encode }
    }

    /// Checked read: like [`Getter::get`], but a field whose range ends
    /// past the buffer is reported as [`AccessError::OutOfRange`] instead
    /// of being ruled out by the caller.
    pub fn try_get<T: Field>(&self, data: &Vec<u8>) -> (r: Result<T::FieldType, AccessError>)
        requires
            field_wf::<T>(),
        ensures
            T::spec_end() <= data@.len() ==> r == Ok::<T::FieldType, AccessError>(
                spec_get::<T>(data@, self.current_order()),
            ),
            T::spec_end() > data@.len() ==> r == Err::<T::FieldType, AccessError>(
                AccessError::OutOfRange,
            ),
    {
        let rg = T::range();
        if rg.1 <= data.len() {
            Ok(self.get::<T>(data))
        } else {
            Err(AccessError::OutOfRange)
        }
    }

    /// Checked write: like [`Setter::with`], but a field whose range ends
    /// past the buffer is reported as [`AccessError::OutOfRange`], and the
    /// buffer is then left unmodified.
    pub fn try_with<T: Field + Mutable>(&self, data: &mut Vec<u8>, value: T) -> (r: Result<
        (),
        AccessError,
    >)
        requires
            field_wf::<T>(),
        ensures
            T::spec_end() <= old(data)@.len() ==> r == Ok::<(), AccessError>(()) && final(data)@
                == spec_with::<T>(old(data)@, value.spec_value(), self.current_order()),
            T::spec_end() > old(data)@.len() ==> r == Err::<(), AccessError>(
                AccessError::OutOfRange,
            ) && final(data)@ == old(data)@,
    {
        let rg = T::range();
        if rg.1 <= data.len() {
            self.with(data, value);
            Ok(())
        } else {
            Err(AccessError::OutOfRange)
        }
    }
}

impl Getter for Accessor {
    fn get<T: Field>(&self, data: &Vec<u8>) -> (r: T::FieldType) {
        let rg = T::range();
        let bytes = slice_subrange(data.as_slice(), rg.0, rg.1);
        match self.encode {
            Encode::Le => T::from_le_bytes(bytes),
            Encode::Be => T::from_be_bytes(bytes),
        }
    }

    fn getter(&self, encode: Encode) -> (r: Self) {
        Accessor { encode }
    }
}

impl Setter for Accessor {
    fn with<T: Field + Mutable>(&self, data: &mut Vec<u8>, value: T) -> (r: &Self) {
        let rg = T::range();
        let ghost v = value.spec_value();
        let bytes: Vec<u8> = match self.encode {
            Encode::Le => value.to_le_bytes(),
            Encode::Be => value.to_be_bytes(),
        };
        proof {
            T::lemma_codec(v);
        }
        let n = bytes.len();
        let mut i: usize = 0;
        while i < n
            invariant
                0 <= i <= n,
                n == bytes@.len(),
                bytes@ == spec_encoded::<T>(v, self.current_order()),
                rg.0 == T::spec_start(),
                rg.1 == T::spec_end(),
                n == rg.1 - rg.0,
                field_fits::<T>(old(data)@),
                data@.len() == old(data)@.len(),
                forall|j: int|
                    0 <= j < data@.len() && !(rg.0 <= j < rg.0 + i) ==> data@[j] == old(data)@[j],
                forall|j: int| 0 <= j < i ==> data@[rg.0 + j] == bytes@[j],
            decreases n - i,
        {
            data.set(rg.0 + i, bytes[i]);
            i = i + 1;
        }
        proof {
            assert(data@ =~= spec_with::<T>(old(data)@, v, self.current_order()));
        }
        self
    }

    fn setter(&self, encode: Encode) -> (r: Self) {
        Accessor { encode }
    }
}

/// Law: writing a field and then reading it under the same order returns
/// exactly the value written.
pub proof fn lemma_get_after_with<T: Field>(buf: Seq<u8>, v: T::FieldType, order: Encode)
    requires
        field_fits::<T>(buf),
    ensures
        spec_get::<T>(spec_with::<T>(buf, v, order), order) == v,
{
    T::lemma_codec(v);
    let w = spec_with::<T>(buf, v, order);
    assert(w.subrange(T::spec_start(), T::spec_end()) =~= spec_encoded::<T>(v, order));
}

/// Law: a write changes no byte outside the field's range and keeps the
/// buffer's length.
pub proof fn lemma_with_frames<T: Field>(buf: Seq<u8>, v: T::FieldType, order: Encode)
    requires
        field_fits::<T>(buf),
    ensures
        spec_with::<T>(buf, v, order).len() == buf.len(),
        forall|j: int|
            0 <= j < buf.len() && !(T::spec_start() <= j < T::spec_end()) ==> spec_with::<T>(
                buf,
                v,
                order,
            )[j] == buf[j],
{
    T::lemma_codec(v);
}

/// Law: chained writes compose sequentially.  The first write keeps the
/// buffer's length, so the second field still fits, and the chained
/// expression `view.with(a).with(b)` leaves the buffer described by the
/// nested effect below, `with(a)` applied first.
pub proof fn lemma_with_chain<A: Field, B: Field>(
    buf: Seq<u8>,
    a: A::FieldType,
    b: B::FieldType,
    order: Encode,
)
    requires
        field_fits::<A>(buf),
        field_fits::<B>(buf),
    ensures
        field_fits::<B>(spec_with::<A>(buf, a, order)),
        spec_with::<B>(spec_with::<A>(buf, a, order), b, order).len() == buf.len(),
{
    A::lemma_codec(a);
    B::lemma_codec(b);
}

} // verus!
