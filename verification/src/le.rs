//! Fixed-width numbers as little-endian byte strings.
//!
//! The definitions are opaque, so that proofs about whole messages do not unfold them;
//! `reveal` one to reason about the bytes of a given number.

use vstd::prelude::*;

verus! {

/// The two bytes of `x`, least significant first.
#[verifier::opaque]
pub open spec fn u16_to_le(x: u16) -> Seq<u8> {
    seq![(x & 0xff) as u8, (x >> 8) as u8]
}

/// The number with the two bytes `s`, least significant first.
#[verifier::opaque]
pub open spec fn u16_from_le(s: Seq<u8>) -> u16
    recommends
        s.len() == 2,
{
    (s[0] as u16) | ((s[1] as u16) << 8)
}

/// The four bytes of `x`, least significant first.
#[verifier::opaque]
pub open spec fn u32_to_le(x: u32) -> Seq<u8> {
    seq![
        (x & 0xff) as u8,
        ((x >> 8) & 0xff) as u8,
        ((x >> 16) & 0xff) as u8,
        (x >> 24) as u8,
    ]
}

/// The number with the four bytes `s`, least significant first.
#[verifier::opaque]
pub open spec fn u32_from_le(s: Seq<u8>) -> u32
    recommends
        s.len() == 4,
{
    (s[0] as u32) | ((s[1] as u32) << 8) | ((s[2] as u32) << 16) | ((s[3] as u32) << 24)
}

/// The eight bytes of `x`, least significant first.
#[verifier::opaque]
pub open spec fn u64_to_le(x: u64) -> Seq<u8> {
    seq![
        (x & 0xff) as u8,
        ((x >> 8) & 0xff) as u8,
        ((x >> 16) & 0xff) as u8,
        ((x >> 24) & 0xff) as u8,
        ((x >> 32) & 0xff) as u8,
        ((x >> 40) & 0xff) as u8,
        ((x >> 48) & 0xff) as u8,
        (x >> 56) as u8,
    ]
}

/// The number with the eight bytes `s`, least significant first.
#[verifier::opaque]
pub open spec fn u64_from_le(s: Seq<u8>) -> u64
    recommends
        s.len() == 8,
{
    (s[0] as u64) | ((s[1] as u64) << 8) | ((s[2] as u64) << 16) | ((s[3] as u64) << 24) | ((
    s[4] as u64) << 32) | ((s[5] as u64) << 40) | ((s[6] as u64) << 48) | ((s[7] as u64) << 56)
}

/// The bytes of a two-byte number give the number back.
pub proof fn lemma_u16_to_le(x: u16)
    ensures
        u16_to_le(x).len() == 2,
        u16_from_le(u16_to_le(x)) == x,
{
    reveal(u16_to_le);
    reveal(u16_from_le);
    assert(x & 0xff < 256 && x >> 8 < 256) by (bit_vector);
    assert(x == (x & 0xff) | ((x >> 8) << 8)) by (bit_vector);
}

/// The number of two bytes has those bytes.
pub proof fn lemma_u16_from_le(s: Seq<u8>)
    requires
        s.len() == 2,
    ensures
        u16_to_le(u16_from_le(s)) == s,
{
    reveal(u16_to_le);
    reveal(u16_from_le);
    let a = s[0] as u16;
    let b = s[1] as u16;
    assert(a < 256 && b < 256 ==> (a | (b << 8)) & 0xff == a && (a | (b << 8)) >> 8 == b)
        by (bit_vector);
    assert(u16_to_le(u16_from_le(s)) =~= s);
}

/// The bytes of a four-byte number give the number back.
pub proof fn lemma_u32_to_le(x: u32)
    ensures
        u32_to_le(x).len() == 4,
        u32_from_le(u32_to_le(x)) == x,
{
    reveal(u32_to_le);
    reveal(u32_from_le);
    assert(x & 0xff < 256 && (x >> 8) & 0xff < 256 && (x >> 16) & 0xff < 256 && x >> 24 < 256)
        by (bit_vector);
    assert(x == (x & 0xff) | (((x >> 8) & 0xff) << 8) | (((x >> 16) & 0xff) << 16) | ((x >> 24)
        << 24)) by (bit_vector);
}

/// The number of four bytes has those bytes.
pub proof fn lemma_u32_from_le(s: Seq<u8>)
    requires
        s.len() == 4,
    ensures
        u32_to_le(u32_from_le(s)) == s,
{
    reveal(u32_to_le);
    reveal(u32_from_le);
    let a = s[0] as u32;
    let b = s[1] as u32;
    let c = s[2] as u32;
    let d = s[3] as u32;
    assert(a < 256 && b < 256 && c < 256 && d < 256 ==> {
        let x = a | (b << 8) | (c << 16) | (d << 24);
        x & 0xff == a && (x >> 8) & 0xff == b && (x >> 16) & 0xff == c && x >> 24 == d
    }) by (bit_vector);
    assert(u32_to_le(u32_from_le(s)) =~= s);
}

/// The bytes of an eight-byte number give the number back.
pub proof fn lemma_u64_to_le(x: u64)
    ensures
        u64_to_le(x).len() == 8,
        u64_from_le(u64_to_le(x)) == x,
{
    reveal(u64_to_le);
    reveal(u64_from_le);
    assert(x & 0xff < 256 && (x >> 8) & 0xff < 256 && (x >> 16) & 0xff < 256 && (x >> 24) & 0xff
        < 256 && (x >> 32) & 0xff < 256 && (x >> 40) & 0xff < 256 && (x >> 48) & 0xff < 256 && x
        >> 56 < 256) by (bit_vector);
    assert(x == (x & 0xff) | (((x >> 8) & 0xff) << 8) | (((x >> 16) & 0xff) << 16) | (((x >> 24)
        & 0xff) << 24) | (((x >> 32) & 0xff) << 32) | (((x >> 40) & 0xff) << 40) | (((x >> 48)
        & 0xff) << 48) | ((x >> 56) << 56)) by (bit_vector);
}

/// The number of eight bytes has those bytes.
pub proof fn lemma_u64_from_le(s: Seq<u8>)
    requires
        s.len() == 8,
    ensures
        u64_to_le(u64_from_le(s)) == s,
{
    reveal(u64_to_le);
    reveal(u64_from_le);
    let a = s[0] as u64;
    let b = s[1] as u64;
    let c = s[2] as u64;
    let d = s[3] as u64;
    let e = s[4] as u64;
    let f = s[5] as u64;
    let g = s[6] as u64;
    let h = s[7] as u64;
    assert(a < 256 && b < 256 && c < 256 && d < 256 && e < 256 && f < 256 && g < 256 && h < 256
        ==> {
        let x = a | (b << 8) | (c << 16) | (d << 24) | (e << 32) | (f << 40) | (g << 48) | (h
            << 56);
        x & 0xff == a && (x >> 8) & 0xff == b && (x >> 16) & 0xff == c && (x >> 24) & 0xff == d
            && (x >> 32) & 0xff == e && (x >> 40) & 0xff == f && (x >> 48) & 0xff == g && x >> 56
            == h
    }) by (bit_vector);
    assert(u64_to_le(u64_from_le(s)) =~= s);
}

/// Two-byte numbers and their byte strings stand for each other.
pub proof fn lemma_u16_le()
    ensures
        forall|x: u16| #[trigger] u16_to_le(x).len() == 2 && u16_from_le(u16_to_le(x)) == x,
        forall|s: Seq<u8>| s.len() == 2 ==> #[trigger] u16_to_le(u16_from_le(s)) == s,
{
    assert forall|x: u16| #[trigger] u16_to_le(x).len() == 2 && u16_from_le(u16_to_le(x)) == x by {
        lemma_u16_to_le(x);
    }
    assert forall|s: Seq<u8>| s.len() == 2 implies #[trigger] u16_to_le(u16_from_le(s)) == s by {
        lemma_u16_from_le(s);
    }
}

/// Four-byte numbers and their byte strings stand for each other.
pub proof fn lemma_u32_le()
    ensures
        forall|x: u32| #[trigger] u32_to_le(x).len() == 4 && u32_from_le(u32_to_le(x)) == x,
        forall|s: Seq<u8>| s.len() == 4 ==> #[trigger] u32_to_le(u32_from_le(s)) == s,
{
    assert forall|x: u32| #[trigger] u32_to_le(x).len() == 4 && u32_from_le(u32_to_le(x)) == x by {
        lemma_u32_to_le(x);
    }
    assert forall|s: Seq<u8>| s.len() == 4 implies #[trigger] u32_to_le(u32_from_le(s)) == s by {
        lemma_u32_from_le(s);
    }
}

/// Eight-byte numbers and their byte strings stand for each other.
pub proof fn lemma_u64_le()
    ensures
        forall|x: u64| #[trigger] u64_to_le(x).len() == 8 && u64_from_le(u64_to_le(x)) == x,
        forall|s: Seq<u8>| s.len() == 8 ==> #[trigger] u64_to_le(u64_from_le(s)) == s,
{
    assert forall|x: u64| #[trigger] u64_to_le(x).len() == 8 && u64_from_le(u64_to_le(x)) == x by {
        lemma_u64_to_le(x);
    }
    assert forall|s: Seq<u8>| s.len() == 8 implies #[trigger] u64_to_le(u64_from_le(s)) == s by {
        lemma_u64_from_le(s);
    }
}

} // verus!
