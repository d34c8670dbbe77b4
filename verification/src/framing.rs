//! Reading and writing the fixed-width pieces of the binary framing.

use vstd::prelude::*;
use vstd::utf8::*;
use byteorder::ByteOrder;
use byteorder::LittleEndian;
use crate::bin::{decoded, Error, Parsed};
use crate::le::{
    lemma_u16_le, lemma_u32_le, lemma_u64_le, u16_from_le, u16_to_le, u32_from_le, u32_to_le,
    u64_from_le, u64_to_le,
};

verus! {

/// `byteorder::LittleEndian::read_u16`: the number whose little-endian form is the first
/// two bytes of `buf`.
#[verifier::external_body]
pub(crate) fn read_u16(buf: &[u8]) -> (n: u16)
    requires
        buf@.len() >= 2,
    ensures
        n == u16_from_le(buf@.take(2)),
{
    LittleEndian::read_u16(buf)
}

/// `byteorder::LittleEndian::read_u32`: the number whose little-endian form is the first
/// four bytes of `buf`.
#[verifier::external_body]
pub(crate) fn read_u32(buf: &[u8]) -> (n: u32)
    requires
        buf@.len() >= 4,
    ensures
        n == u32_from_le(buf@.take(4)),
{
    LittleEndian::read_u32(buf)
}

/// `byteorder::LittleEndian::read_u64`: the number whose little-endian form is the first
/// eight bytes of `buf`.
#[verifier::external_body]
pub(crate) fn read_u64(buf: &[u8]) -> (n: u64)
    requires
        buf@.len() >= 8,
    ensures
        n == u64_from_le(buf@.take(8)),
{
    LittleEndian::read_u64(buf)
}

/// `byteorder::LittleEndian::write_u16`: puts the little-endian form of `n` in the first
/// two bytes of `buf` and leaves the others as they were.
#[verifier::external_body]
pub(crate) fn write_u16(buf: &mut [u8], n: u16)
    requires
        old(buf)@.len() >= 2,
    ensures
        final(buf)@ == u16_to_le(n) + old(buf)@.skip(2),
{
    LittleEndian::write_u16(buf, n)
}

/// `byteorder::LittleEndian::write_u32`: puts the little-endian form of `n` in the first
/// four bytes of `buf` and leaves the others as they were.
#[verifier::external_body]
pub(crate) fn write_u32(buf: &mut [u8], n: u32)
    requires
        old(buf)@.len() >= 4,
    ensures
        final(buf)@ == u32_to_le(n) + old(buf)@.skip(4),
{
    LittleEndian::write_u32(buf, n)
}

/// `byteorder::LittleEndian::write_u64`: puts the little-endian form of `n` in the first
/// eight bytes of `buf` and leaves the others as they were.
#[verifier::external_body]
pub(crate) fn write_u64(buf: &mut [u8], n: u64)
    requires
        old(buf)@.len() >= 8,
    ensures
        final(buf)@ == u64_to_le(n) + old(buf)@.skip(8),
{
    LittleEndian::write_u64(buf, n)
}

/// Writes one byte at the front of `area` and returns the rest of `area`.
pub fn put_u8<'a>(area: &'a mut [u8], byte: u8) -> (rest: &'a mut [u8])
    requires
        old(area)@.len() >= 1,
    ensures
        rest@ == old(area)@.skip(1),
        final(area)@ == seq![byte] + final(rest)@,
{
    area[0] = byte;
    let (head, rest) = area.split_at_mut(1);
    assert(head@ =~= seq![byte]);
    rest
}

/// Writes `n` at the front of `area` and returns the rest of `area`.
pub fn put_u16<'a>(area: &'a mut [u8], n: u16) -> (rest: &'a mut [u8])
    requires
        old(area)@.len() >= 2,
    ensures
        rest@ == old(area)@.skip(2),
        final(area)@ == u16_to_le(n) + final(rest)@,
{
    proof {
        lemma_u16_le();
    }
    write_u16(area, n);
    let (head, rest) = area.split_at_mut(2);
    assert(head@ =~= u16_to_le(n));
    assert(rest@ =~= old(area)@.skip(2));
    rest
}

/// Writes `n` at the front of `area` and returns the rest of `area`.
pub fn put_u32<'a>(area: &'a mut [u8], n: u32) -> (rest: &'a mut [u8])
    requires
        old(area)@.len() >= 4,
    ensures
        rest@ == old(area)@.skip(4),
        final(area)@ == u32_to_le(n) + final(rest)@,
{
    proof {
        lemma_u32_le();
    }
    write_u32(area, n);
    let (head, rest) = area.split_at_mut(4);
    assert(head@ =~= u32_to_le(n));
    assert(rest@ =~= old(area)@.skip(4));
    rest
}

/// Writes `n` at the front of `area` and returns the rest of `area`.
pub fn put_u64<'a>(area: &'a mut [u8], n: u64) -> (rest: &'a mut [u8])
    requires
        old(area)@.len() >= 8,
    ensures
        rest@ == old(area)@.skip(8),
        final(area)@ == u64_to_le(n) + final(rest)@,
{
    proof {
        lemma_u64_le();
    }
    write_u64(area, n);
    let (head, rest) = area.split_at_mut(8);
    assert(head@ =~= u64_to_le(n));
    assert(rest@ =~= old(area)@.skip(8));
    rest
}

/// What reading one byte gives.
pub open spec fn parse_u8(area: Seq<u8>) -> Parsed<u8> {
    if area.len() < 1 {
        Err(Error::UnexpectedEOF)
    } else {
        Ok((area[0], area.skip(1)))
    }
}

/// What reading a two-byte little-endian number gives.
pub open spec fn parse_u16(area: Seq<u8>) -> Parsed<u16> {
    if area.len() < 2 {
        Err(Error::UnexpectedEOF)
    } else {
        Ok((u16_from_le(area.take(2)), area.skip(2)))
    }
}

/// What reading a four-byte little-endian number gives.
pub open spec fn parse_u32(area: Seq<u8>) -> Parsed<u32> {
    if area.len() < 4 {
        Err(Error::UnexpectedEOF)
    } else {
        Ok((u32_from_le(area.take(4)), area.skip(4)))
    }
}

/// What reading an eight-byte little-endian number gives.
pub open spec fn parse_u64(area: Seq<u8>) -> Parsed<u64> {
    if area.len() < 8 {
        Err(Error::UnexpectedEOF)
    } else {
        Ok((u64_from_le(area.take(8)), area.skip(8)))
    }
}

/// Reads one byte from the front of `area`.
pub fn get_u8<'a>(area: &'a [u8]) -> (r: Result<(u8, &'a [u8]), Error>)
    ensures
        decoded(r, parse_u8(area@)),
{
    if area.len() < 1 {
        Err(Error::UnexpectedEOF)
    } else {
        let (_, rest) = area.split_at(1);
        assert(rest@ =~= area@.skip(1));
        Ok((area[0], rest))
    }
}

/// Reads a two-byte number from the front of `area`.
pub fn get_u16<'a>(area: &'a [u8]) -> (r: Result<(u16, &'a [u8]), Error>)
    ensures
        decoded(r, parse_u16(area@)),
{
    if area.len() < 2 {
        Err(Error::UnexpectedEOF)
    } else {
        let (_, rest) = area.split_at(2);
        assert(rest@ =~= area@.skip(2));
        Ok((read_u16(area), rest))
    }
}

/// Reads a four-byte number from the front of `area`.
pub fn get_u32<'a>(area: &'a [u8]) -> (r: Result<(u32, &'a [u8]), Error>)
    ensures
        decoded(r, parse_u32(area@)),
{
    if area.len() < 4 {
        Err(Error::UnexpectedEOF)
    } else {
        let (_, rest) = area.split_at(4);
        assert(rest@ =~= area@.skip(4));
        Ok((read_u32(area), rest))
    }
}

/// Reads an eight-byte number from the front of `area`.
pub fn get_u64<'a>(area: &'a [u8]) -> (r: Result<(u64, &'a [u8]), Error>)
    ensures
        decoded(r, parse_u64(area@)),
{
    if area.len() < 8 {
        Err(Error::UnexpectedEOF)
    } else {
        let (_, rest) = area.split_at(8);
        assert(rest@ =~= area@.skip(8));
        Ok((read_u64(area), rest))
    }
}

/// Named result of `core::str::Utf8Error::error_len` on the error that
/// `core::str::from_utf8` gives for `bytes`: the length of the invalid sequence behind the
/// valid part, or `None` where the input ends in the middle of a character.
pub uninterp spec fn utf8_error_len(bytes: Seq<u8>) -> Option<usize>;

/// The first `k` bytes of `bytes` are UTF-8 and no longer prefix of `bytes` is.
pub open spec fn longest_valid_prefix(bytes: Seq<u8>, k: int) -> bool {
    &&& 0 <= k <= bytes.len()
    &&& valid_utf8(bytes.take(k))
    &&& forall|j: int| k < j <= bytes.len() ==> !valid_utf8(#[trigger] bytes.take(j))
}

/// The error for bytes that are not UTF-8.
pub open spec fn utf8_error(bytes: Seq<u8>) -> Error {
    Error::Utf8 {
        valid_up_to: choose|k: usize| longest_valid_prefix(bytes, k as int),
        error_len: utf8_error_len(bytes),
    }
}

/// `core::str::from_utf8`: the string that `bytes` encode, where they are UTF-8. Where they
/// are not, the error holds what `Utf8Error::valid_up_to` gives, which is the length of the
/// longest prefix that is UTF-8, and what `Utf8Error::error_len` gives.
#[verifier::external_body]
pub(crate) fn str_from_utf8<'a>(bytes: &'a [u8]) -> (r: Result<&'a str, Error>)
    ensures
        match r {
            Ok(s) => valid_utf8(bytes@) && encode_utf8(s@) == bytes@,
            Err(e) => {
                &&& !valid_utf8(bytes@)
                &&& e matches Error::Utf8 { valid_up_to, error_len }
                &&& longest_valid_prefix(bytes@, valid_up_to as int)
                &&& error_len == utf8_error_len(bytes@)
            },
        },
{
    match core::str::from_utf8(bytes) {
        Ok(s) => Ok(s),
        Err(e) => Err(Error::Utf8 { valid_up_to: e.valid_up_to(), error_len: e.error_len() }),
    }
}

/// At most one length is the longest valid prefix.
pub proof fn lemma_longest_valid_prefix_unique(bytes: Seq<u8>, k1: int, k2: int)
    requires
        longest_valid_prefix(bytes, k1),
        longest_valid_prefix(bytes, k2),
    ensures
        k1 == k2,
{
    if k1 < k2 {
        assert(!valid_utf8(bytes.take(k2)));
    } else if k2 < k1 {
        assert(!valid_utf8(bytes.take(k1)));
    }
}

/// Copies `src` to the front of `area` and returns the rest of `area`.
pub fn put_bytes<'a>(area: &'a mut [u8], src: &[u8]) -> (rest: &'a mut [u8])
    requires
        src@.len() <= old(area)@.len(),
    ensures
        rest@ == old(area)@.skip(src@.len() as int),
        final(area)@ == src@ + final(rest)@,
{
    let n = src.len();
    let mut i: usize = 0;
    while i < n
        invariant
            n == src@.len(),
            i <= n <= area@.len(),
            area@.len() == old(area)@.len(),
            forall|j: int| 0 <= j < i ==> area@[j] == src@[j],
            forall|j: int| i <= j < area@.len() ==> area@[j] == old(area)@[j],
        decreases n - i,
    {
        area[i] = src[i];
        i += 1;
    }
    let (head, rest) = area.split_at_mut(n);
    assert(head@ =~= src@);
    assert(rest@ =~= old(area)@.skip(n as int));
    rest
}

} // verus!
