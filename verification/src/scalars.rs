//! The binary codec of the values that messages are made of: integers, IEEE 754 numbers,
//! strings, and shared pointers to any of them.

use vstd::prelude::*;
use std::sync::Arc;
use vstd::utf8::*;
use crate::bin::{Error, FromBin, Parsed, ToBin};
use crate::double::{Double, Single};
use crate::framing::{
    get_u16, get_u32, get_u64, get_u8, lemma_longest_valid_prefix_unique, longest_valid_prefix,
    parse_u16, parse_u32, parse_u64, parse_u8, put_bytes, put_u16, put_u32, put_u64, put_u8,
    str_from_utf8, utf8_error,
};
use crate::le::{lemma_u16_le, lemma_u32_le, lemma_u64_le, u16_to_le, u32_to_le, u64_to_le};

verus! {

/// What reading an `i8` gives: the `u8` at the front of `area`, taken as two's complement.
pub open spec fn parse_i8(area: Seq<u8>) -> Parsed<i8> {
    match parse_u8(area) {
        Ok((n, rest)) => Ok((n as i8, rest)),
        Err(e) => Err(e),
    }
}

/// What reading an `i16` gives: the `u16` at the front of `area`, taken as two's complement.
pub open spec fn parse_i16(area: Seq<u8>) -> Parsed<i16> {
    match parse_u16(area) {
        Ok((n, rest)) => Ok((n as i16, rest)),
        Err(e) => Err(e),
    }
}

/// What reading an `i32` gives: the `u32` at the front of `area`, taken as two's complement.
pub open spec fn parse_i32(area: Seq<u8>) -> Parsed<i32> {
    match parse_u32(area) {
        Ok((n, rest)) => Ok((n as i32, rest)),
        Err(e) => Err(e),
    }
}

/// What reading an `i64` gives: the `u64` at the front of `area`, taken as two's complement.
pub open spec fn parse_i64(area: Seq<u8>) -> Parsed<i64> {
    match parse_u64(area) {
        Ok((n, rest)) => Ok((n as i64, rest)),
        Err(e) => Err(e),
    }
}

/// What reading a double gives: the eight bytes at the front of `area` are its bits.
pub open spec fn parse_double(area: Seq<u8>) -> Parsed<Double> {
    match parse_u64(area) {
        Ok((bits, rest)) => Ok((Double { bits }, rest)),
        Err(e) => Err(e),
    }
}

/// What reading a single gives: the four bytes at the front of `area` are its bits.
pub open spec fn parse_single(area: Seq<u8>) -> Parsed<Single> {
    match parse_u32(area) {
        Ok((bits, rest)) => Ok((Single { bits }, rest)),
        Err(e) => Err(e),
    }
}

impl ToBin for u8 {
    open spec fn wire(v: u8) -> Seq<u8> {
        seq![v]
    }

    open spec fn fits(v: u8) -> bool {
        true
    }

    fn fits_wire(&self) -> (b: bool) {
        true
    }

    fn encode_len(&self) -> (n: usize) {
        1
    }

    fn encode<'a>(&self, area: &'a mut [u8]) -> (rest: &'a mut [u8]) {
        put_u8(area, *self)
    }
}

impl FromBin for u8 {
    open spec fn parse(area: Seq<u8>) -> Parsed<u8> {
        parse_u8(area)
    }

    fn decode<'a>(area: &'a [u8]) -> (r: Result<(u8, &'a [u8]), Error>) {
        get_u8(area)
    }
}

impl ToBin for i8 {
    open spec fn wire(v: i8) -> Seq<u8> {
        seq![v as u8]
    }

    open spec fn fits(v: i8) -> bool {
        true
    }

    fn fits_wire(&self) -> (b: bool) {
        true
    }

    fn encode_len(&self) -> (n: usize) {
        1
    }

    fn encode<'a>(&self, area: &'a mut [u8]) -> (rest: &'a mut [u8]) {
        put_u8(area, *self as u8)
    }
}

impl FromBin for i8 {
    open spec fn parse(area: Seq<u8>) -> Parsed<i8> {
        parse_i8(area)
    }

    fn decode<'a>(area: &'a [u8]) -> (r: Result<(i8, &'a [u8]), Error>) {
        match get_u8(area) {
            Ok((n, rest)) => Ok((n as i8, rest)),
            Err(e) => Err(e),
        }
    }
}

impl ToBin for u16 {
    open spec fn wire(v: u16) -> Seq<u8> {
        u16_to_le(v)
    }

    open spec fn fits(v: u16) -> bool {
        true
    }

    fn fits_wire(&self) -> (b: bool) {
        true
    }

    fn encode_len(&self) -> (n: usize) {
        proof {
            lemma_u16_le();
        }
        2
    }

    fn encode<'a>(&self, area: &'a mut [u8]) -> (rest: &'a mut [u8]) {
        proof {
            lemma_u16_le();
        }
        put_u16(area, *self)
    }
}

impl FromBin for u16 {
    open spec fn parse(area: Seq<u8>) -> Parsed<u16> {
        parse_u16(area)
    }

    fn decode<'a>(area: &'a [u8]) -> (r: Result<(u16, &'a [u8]), Error>) {
        get_u16(area)
    }
}

impl ToBin for i16 {
    open spec fn wire(v: i16) -> Seq<u8> {
        u16_to_le(v as u16)
    }

    open spec fn fits(v: i16) -> bool {
        true
    }

    fn fits_wire(&self) -> (b: bool) {
        true
    }

    fn encode_len(&self) -> (n: usize) {
        proof {
            lemma_u16_le();
        }
        2
    }

    fn encode<'a>(&self, area: &'a mut [u8]) -> (rest: &'a mut [u8]) {
        proof {
            lemma_u16_le();
        }
        put_u16(area, *self as u16)
    }
}

impl FromBin for i16 {
    open spec fn parse(area: Seq<u8>) -> Parsed<i16> {
        parse_i16(area)
    }

    fn decode<'a>(area: &'a [u8]) -> (r: Result<(i16, &'a [u8]), Error>) {
        match get_u16(area) {
            Ok((n, rest)) => Ok((n as i16, rest)),
            Err(e) => Err(e),
        }
    }
}

impl ToBin for u32 {
    open spec fn wire(v: u32) -> Seq<u8> {
        u32_to_le(v)
    }

    open spec fn fits(v: u32) -> bool {
        true
    }

    fn fits_wire(&self) -> (b: bool) {
        true
    }

    fn encode_len(&self) -> (n: usize) {
        proof {
            lemma_u32_le();
        }
        4
    }

    fn encode<'a>(&self, area: &'a mut [u8]) -> (rest: &'a mut [u8]) {
        proof {
            lemma_u32_le();
        }
        put_u32(area, *self)
    }
}

impl FromBin for u32 {
    open spec fn parse(area: Seq<u8>) -> Parsed<u32> {
        parse_u32(area)
    }

    fn decode<'a>(area: &'a [u8]) -> (r: Result<(u32, &'a [u8]), Error>) {
        get_u32(area)
    }
}

impl ToBin for i32 {
    open spec fn wire(v: i32) -> Seq<u8> {
        u32_to_le(v as u32)
    }

    open spec fn fits(v: i32) -> bool {
        true
    }

    fn fits_wire(&self) -> (b: bool) {
        true
    }

    fn encode_len(&self) -> (n: usize) {
        proof {
            lemma_u32_le();
        }
        4
    }

    fn encode<'a>(&self, area: &'a mut [u8]) -> (rest: &'a mut [u8]) {
        proof {
            lemma_u32_le();
        }
        put_u32(area, *self as u32)
    }
}

impl FromBin for i32 {
    open spec fn parse(area: Seq<u8>) -> Parsed<i32> {
        parse_i32(area)
    }

    fn decode<'a>(area: &'a [u8]) -> (r: Result<(i32, &'a [u8]), Error>) {
        match get_u32(area) {
            Ok((n, rest)) => Ok((n as i32, rest)),
            Err(e) => Err(e),
        }
    }
}

impl ToBin for u64 {
    open spec fn wire(v: u64) -> Seq<u8> {
        u64_to_le(v)
    }

    open spec fn fits(v: u64) -> bool {
        true
    }

    fn fits_wire(&self) -> (b: bool) {
        true
    }

    fn encode_len(&self) -> (n: usize) {
        proof {
            lemma_u64_le();
        }
        8
    }

    fn encode<'a>(&self, area: &'a mut [u8]) -> (rest: &'a mut [u8]) {
        proof {
            lemma_u64_le();
        }
        put_u64(area, *self)
    }
}

impl FromBin for u64 {
    open spec fn parse(area: Seq<u8>) -> Parsed<u64> {
        parse_u64(area)
    }

    fn decode<'a>(area: &'a [u8]) -> (r: Result<(u64, &'a [u8]), Error>) {
        get_u64(area)
    }
}

impl ToBin for i64 {
    open spec fn wire(v: i64) -> Seq<u8> {
        u64_to_le(v as u64)
    }

    open spec fn fits(v: i64) -> bool {
        true
    }

    fn fits_wire(&self) -> (b: bool) {
        true
    }

    fn encode_len(&self) -> (n: usize) {
        proof {
            lemma_u64_le();
        }
        8
    }

    fn encode<'a>(&self, area: &'a mut [u8]) -> (rest: &'a mut [u8]) {
        proof {
            lemma_u64_le();
        }
        put_u64(area, *self as u64)
    }
}

impl FromBin for i64 {
    open spec fn parse(area: Seq<u8>) -> Parsed<i64> {
        parse_i64(area)
    }

    fn decode<'a>(area: &'a [u8]) -> (r: Result<(i64, &'a [u8]), Error>) {
        match get_u64(area) {
            Ok((n, rest)) => Ok((n as i64, rest)),
            Err(e) => Err(e),
        }
    }
}

impl ToBin for Single {
    open spec fn wire(v: Single) -> Seq<u8> {
        u32_to_le(v.bits)
    }

    open spec fn fits(v: Single) -> bool {
        true
    }

    fn fits_wire(&self) -> (b: bool) {
        true
    }

    fn encode_len(&self) -> (n: usize) {
        proof {
            lemma_u32_le();
        }
        4
    }

    fn encode<'a>(&self, area: &'a mut [u8]) -> (rest: &'a mut [u8]) {
        proof {
            lemma_u32_le();
        }
        put_u32(area, self.bits)
    }
}

impl FromBin for Single {
    open spec fn parse(area: Seq<u8>) -> Parsed<Single> {
        parse_single(area)
    }

    fn decode<'a>(area: &'a [u8]) -> (r: Result<(Single, &'a [u8]), Error>) {
        match get_u32(area) {
            Ok((bits, rest)) => Ok((Single { bits }, rest)),
            Err(e) => Err(e),
        }
    }
}

impl ToBin for Double {
    open spec fn wire(v: Double) -> Seq<u8> {
        u64_to_le(v.bits)
    }

    open spec fn fits(v: Double) -> bool {
        true
    }

    fn fits_wire(&self) -> (b: bool) {
        true
    }

    fn encode_len(&self) -> (n: usize) {
        proof {
            lemma_u64_le();
        }
        8
    }

    fn encode<'a>(&self, area: &'a mut [u8]) -> (rest: &'a mut [u8]) {
        proof {
            lemma_u64_le();
        }
        put_u64(area, self.bits)
    }
}

impl FromBin for Double {
    open spec fn parse(area: Seq<u8>) -> Parsed<Double> {
        parse_double(area)
    }

    fn decode<'a>(area: &'a [u8]) -> (r: Result<(Double, &'a [u8]), Error>) {
        match get_u64(area) {
            Ok((bits, rest)) => Ok((Double { bits }, rest)),
            Err(e) => Err(e),
        }
    }
}

/// The bytes of a string: the number of its UTF-8 bytes, then those bytes.
#[verifier::opaque]
pub open spec fn wire_string(v: Seq<char>) -> Seq<u8> {
    u32_to_le(encode_utf8(v).len() as u32) + encode_utf8(v)
}

/// What reading a string gives: too few bytes for the length or for the text end the
/// buffer early; text that is not UTF-8 is an error of its own.
#[verifier::opaque]
pub open spec fn parse_string(area: Seq<u8>) -> Parsed<Seq<char>> {
    match parse_u32(area) {
        Err(e) => Err(e),
        Ok((len, rest)) => {
            if rest.len() < len {
                Err(Error::UnexpectedEOF)
            } else if !valid_utf8(rest.take(len as int)) {
                Err(utf8_error(rest.take(len as int)))
            } else {
                Ok((decode_utf8(rest.take(len as int)), rest.skip(len as int)))
            }
        },
    }
}

impl ToBin for String {
    open spec fn wire(v: Seq<char>) -> Seq<u8> {
        wire_string(v)
    }

    open spec fn fits(v: Seq<char>) -> bool {
        encode_utf8(v).len() <= u32::MAX
    }

    fn fits_wire(&self) -> (b: bool) {
        self.as_str().as_bytes().len() <= 0xffff_ffff
    }

    fn encode_len(&self) -> (n: usize) {
        proof {
            reveal(wire_string);
            lemma_u32_le();
        }
        4 + self.as_str().as_bytes().len()
    }

    fn encode<'a>(&self, area: &'a mut [u8]) -> (rest: &'a mut [u8]) {
        proof {
            reveal(wire_string);
            lemma_u32_le();
        }
        let src = self.as_str().as_bytes();
        let area = put_u32(area, src.len() as u32);
        put_bytes(area, src)
    }
}

impl FromBin for String {
    open spec fn parse(area: Seq<u8>) -> Parsed<Seq<char>> {
        parse_string(area)
    }

    fn decode<'a>(area: &'a [u8]) -> (r: Result<(String, &'a [u8]), Error>) {
        proof {
            reveal(parse_string);
        }
        let (len, area) = get_u32(area)?;
        let len = len as usize;
        if area.len() < len {
            return Err(Error::UnexpectedEOF);
        }
        let (text, rest) = area.split_at(len);
        assert(text@ =~= area@.take(len as int));
        assert(rest@ =~= area@.skip(len as int));
        match str_from_utf8(text) {
            Ok(s) => {
                proof {
                    encode_utf8_decode_utf8(s@);
                }
                Ok((s.to_owned(), rest))
            },
            Err(e) => {
                proof {
                    let k = choose|k: usize| longest_valid_prefix(text@, k as int);
                    lemma_longest_valid_prefix_unique(text@, k as int, e->valid_up_to as int);
                }
                Err(e)
            },
        }
    }
}

impl<T: ToBin> ToBin for Arc<T> {
    open spec fn wire(v: T::V) -> Seq<u8> {
        T::wire(v)
    }

    open spec fn fits(v: T::V) -> bool {
        T::fits(v)
    }

    fn fits_wire(&self) -> (b: bool) {
        (**self).fits_wire()
    }

    fn encode_len(&self) -> (n: usize) {
        (**self).encode_len()
    }

    fn encode<'a>(&self, area: &'a mut [u8]) -> (rest: &'a mut [u8]) {
        (**self).encode(area)
    }
}

impl<T: FromBin> FromBin for Arc<T> {
    open spec fn parse(area: Seq<u8>) -> Parsed<T::V> {
        T::parse(area)
    }

    fn decode<'a>(area: &'a [u8]) -> (r: Result<(Arc<T>, &'a [u8]), Error>) {
        let (value, area) = T::decode(area)?;
        Ok((Arc::new(value), area))
    }
}

} // verus!
