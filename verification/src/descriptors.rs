//! Ready-made field descriptors for unsigned fields of one, two, four and
//! eight bytes, placed at a compile-time-chosen offset.
//!
//! `U8Field<3>` is a writable one-byte field at range `[3, 4)`;
//! `U32Field<1>` a writable four-byte field at `[1, 5)`, and so on.
//! [`U8ReadOnlyField`] carries no [`Mutable`] capability: passing it to a
//! write operation does not compile.

use vstd::prelude::*;

use crate::codec::{
    be_bytes_of, be_decode, be_encode, be_value, le_bytes_of, le_decode, le_encode, le_value,
    lemma_be_bytes_of_len, lemma_be_round_trip, lemma_be_value_bound, lemma_le_bytes_of_len,
    lemma_le_round_trip, lemma_le_value_bound, lemma_pow256_values,
};
use crate::field::{Field, Mutable};

verus! {

/// A writable one-byte unsigned field at range `[START, START + 1)`.
#[derive(Clone, Copy, Debug)]
pub struct U8Field<const START: usize>(pub u8);

/// A writable two-byte unsigned field at range `[START, START + 2)`.
#[derive(Clone, Copy, Debug)]
pub struct U16Field<const START: usize>(pub u16);

/// A writable four-byte unsigned field at range `[START, START + 4)`.
#[derive(Clone, Copy, Debug)]
pub struct U32Field<const START: usize>(pub u32);

/// A writable eight-byte unsigned field at range `[START, START + 8)`.
#[derive(Clone, Copy, Debug)]
pub struct U64Field<const START: usize>(pub u64);

/// A one-byte unsigned field at range `[START, START + 1)` without the
/// [`Mutable`] capability: it can be read, never written.
#[derive(Clone, Copy, Debug)]
pub struct U8ReadOnlyField<const START: usize>(pub u8);

impl<const START: usize> Field for U8Field<START> {
    type FieldType = u8;

    open spec fn spec_start() -> int {
        START as int
    }

    open spec fn spec_end() -> int {
        START as int + 1
    }

    open spec fn spec_decode_le(bytes: Seq<u8>) -> u8 {
        le_value(bytes) as u8
    }

    open spec fn spec_decode_be(bytes: Seq<u8>) -> u8 {
        be_value(bytes) as u8
    }

    open spec fn spec_encode_le(v: u8) -> Seq<u8> {
        le_bytes_of(v as int, 1)
    }

    open spec fn spec_encode_be(v: u8) -> Seq<u8> {
        be_bytes_of(v as int, 1)
    }

    open spec fn spec_value(self) -> u8 {
        self.0
    }

    proof fn lemma_codec(v: u8) {
        lemma_pow256_values();
        lemma_le_bytes_of_len(v as int, 1);
        lemma_be_bytes_of_len(v as int, 1);
        lemma_le_round_trip(v as int, 1);
        lemma_be_round_trip(v as int, 1);
    }

    fn range() -> (r: (usize, usize)) {
        (START, START + 1)
    }

    fn from_le_bytes(val: &[u8]) -> (r: u8) {
        let x = le_decode(val);
        proof {
            lemma_le_value_bound(val@);
            lemma_pow256_values();
        }
        x as u8
    }

    fn from_be_bytes(val: &[u8]) -> (r: u8) {
        let x = be_decode(val);
        proof {
            lemma_be_value_bound(val@);
            lemma_pow256_values();
        }
        x as u8
    }

    fn to_le_bytes(self) -> (r: Vec<u8>) {
        proof {
            lemma_pow256_values();
        }
        le_encode(self.0 as u64, 1)
    }

    fn to_be_bytes(self) -> (r: Vec<u8>) {
        proof {
            lemma_pow256_values();
        }
        be_encode(self.0 as u64, 1)
    }
}

impl<const START: usize> Mutable for U8Field<START> {

}

impl<const START: usize> Field for U16Field<START> {
    type FieldType = u16;

    open spec fn spec_start() -> int {
        START as int
    }

    open spec fn spec_end() -> int {
        START as int + 2
    }

    open spec fn spec_decode_le(bytes: Seq<u8>) -> u16 {
        le_value(bytes) as u16
    }

    open spec fn spec_decode_be(bytes: Seq<u8>) -> u16 {
        be_value(bytes) as u16
    }

    open spec fn spec_encode_le(v: u16) -> Seq<u8> {
        le_bytes_of(v as int, 2)
    }

    open spec fn spec_encode_be(v: u16) -> Seq<u8> {
        be_bytes_of(v as int, 2)
    }

    open spec fn spec_value(self) -> u16 {
        self.0
    }

    proof fn lemma_codec(v: u16) {
        lemma_pow256_values();
        lemma_le_bytes_of_len(v as int, 2);
        lemma_be_bytes_of_len(v as int, 2);
        lemma_le_round_trip(v as int, 2);
        lemma_be_round_trip(v as int, 2);
    }

    fn range() -> (r: (usize, usize)) {
        (START, START + 2)
    }

    fn from_le_bytes(val: &[u8]) -> (r: u16) {
        let x = le_decode(val);
        proof {
            lemma_le_value_bound(val@);
            lemma_pow256_values();
        }
        x as u16
    }

    fn from_be_bytes(val: &[u8]) -> (r: u16) {
        let x = be_decode(val);
        proof {
            lemma_be_value_bound(val@);
            lemma_pow256_values();
        }
        x as u16
    }

    fn to_le_bytes(self) -> (r: Vec<u8>) {
        proof {
            lemma_pow256_values();
        }
        le_encode(self.0 as u64, 2)
    }

    fn to_be_bytes(self) -> (r: Vec<u8>) {
        proof {
            lemma_pow256_values();
        }
        be_encode(self.0 as u64, 2)
    }
}

impl<const START: usize> Mutable for U16Field<START> {

}

impl<const START: usize> Field for U32Field<START> {
    type FieldType = u32;

    open spec fn spec_start() -> int {
        START as int
    }

    open spec fn spec_end() -> int {
        START as int + 4
    }

    open spec fn spec_decode_le(bytes: Seq<u8>) -> u32 {
        le_value(bytes) as u32
    }

    open spec fn spec_decode_be(bytes: Seq<u8>) -> u32 {
        be_value(bytes) as u32
    }

    open spec fn spec_encode_le(v: u32) -> Seq<u8> {
        le_bytes_of(v as int, 4)
    }

    open spec fn spec_encode_be(v: u32) -> Seq<u8> {
        be_bytes_of(v as int, 4)
    }

    open spec fn spec_value(self) -> u32 {
        self.0
    }

    proof fn lemma_codec(v: u32) {
        lemma_pow256_values();
        lemma_le_bytes_of_len(v as int, 4);
        lemma_be_bytes_of_len(v as int, 4);
        lemma_le_round_trip(v as int, 4);
        lemma_be_round_trip(v as int, 4);
    }

    fn range() -> (r: (usize, usize)) {
        (START, START + 4)
    }

    fn from_le_bytes(val: &[u8]) -> (r: u32) {
        let x = le_decode(val);
        proof {
            lemma_le_value_bound(val@);
            lemma_pow256_values();
        }
        x as u32
    }

    fn from_be_bytes(val: &[u8]) -> (r: u32) {
        let x = be_decode(val);
        proof {
            lemma_be_value_bound(val@);
            lemma_pow256_values();
        }
        x as u32
    }

    fn to_le_bytes(self) -> (r: Vec<u8>) {
        proof {
            lemma_pow256_values();
        }
        le_encode(self.0 as u64, 4)
    }

    fn to_be_bytes(self) -> (r: Vec<u8>) {
        proof {
            lemma_pow256_values();
        }
        be_encode(self.0 as u64, 4)
    }
}

impl<const START: usize> Mutable for U32Field<START> {

}

impl<const START: usize> Field for U64Field<START> {
    type FieldType = u64;

    open spec fn spec_start() -> int {
        START as int
    }

    open spec fn spec_end() -> int {
        START as int + 8
    }

    open spec fn spec_decode_le(bytes: Seq<u8>) -> u64 {
        le_value(bytes) as u64
    }

    open spec fn spec_decode_be(bytes: Seq<u8>) -> u64 {
        be_value(bytes) as u64
    }

    open spec fn spec_encode_le(v: u64) -> Seq<u8> {
        le_bytes_of(v as int, 8)
    }

    open spec fn spec_encode_be(v: u64) -> Seq<u8> {
        be_bytes_of(v as int, 8)
    }

    open spec fn spec_value(self) -> u64 {
        self.0
    }

    proof fn lemma_codec(v: u64) {
        lemma_pow256_values();
        lemma_le_bytes_of_len(v as int, 8);
        lemma_be_bytes_of_len(v as int, 8);
        lemma_le_round_trip(v as int, 8);
        lemma_be_round_trip(v as int, 8);
    }

    fn range() -> (r: (usize, usize)) {
        (START, START + 8)
    }

    fn from_le_bytes(val: &[u8]) -> (r: u64) {
        le_decode(val)
    }

    fn from_be_bytes(val: &[u8]) -> (r: u64) {
        be_decode(val)
    }

    fn to_le_bytes(self) -> (r: Vec<u8>) {
        proof {
            lemma_pow256_values();
        }
        le_encode(self.0, 8)
    }

    fn to_be_bytes(self) -> (r: Vec<u8>) {
        proof {
            lemma_pow256_values();
        }
        be_encode(self.0, 8)
    }
}

impl<const START: usize> Mutable for U64Field<START> {

}

impl<const START: usize> Field for U8ReadOnlyField<START> {
    type FieldType = u8;

    open spec fn spec_start() -> int {
        START as int
    }

    open spec fn spec_end() -> int {
        START as int + 1
    }

    open spec fn spec_decode_le(bytes: Seq<u8>) -> u8 {
        le_value(bytes) as u8
    }

    open spec fn spec_decode_be(bytes: Seq<u8>) -> u8 {
        be_value(bytes) as u8
    }

    open spec fn spec_encode_le(v: u8) -> Seq<u8> {
        le_bytes_of(v as int, 1)
    }

    open spec fn spec_encode_be(v: u8) -> Seq<u8> {
        be_bytes_of(v as int, 1)
    }

    open spec fn spec_value(self) -> u8 {
        self.0
    }

    proof fn lemma_codec(v: u8) {
        lemma_pow256_values();
        lemma_le_bytes_of_len(v as int, 1);
        lemma_be_bytes_of_len(v as int, 1);
        lemma_le_round_trip(v as int, 1);
        lemma_be_round_trip(v as int, 1);
    }

    fn range() -> (r: (usize, usize)) {
        (START, START + 1)
    }

    fn from_le_bytes(val: &[u8]) -> (r: u8) {
        let x = le_decode(val);
        proof {
            lemma_le_value_bound(val@);
            lemma_pow256_values();
        }
        x as u8
    }

    fn from_be_bytes(val: &[u8]) -> (r: u8) {
        let x = be_decode(val);
        proof {
            lemma_be_value_bound(val@);
            lemma_pow256_values();
        }
        x as u8
    }

    fn to_le_bytes(self) -> (r: Vec<u8>) {
        proof {
            lemma_pow256_values();
        }
        le_encode(self.0 as u64, 1)
    }

    fn to_be_bytes(self) -> (r: Vec<u8>) {
        proof {
            lemma_pow256_values();
        }
        be_encode(self.0 as u64, 1)
    }
}

} // verus!
