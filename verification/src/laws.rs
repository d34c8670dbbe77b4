//! What holds of the binary codec as a whole: decoding undoes encoding, a message that was
//! cut short is reported as such, and a tag that names no variant is reported with its value.
//!
//! The statements are generic in the payload type: they ask of it what they give for the
//! messages built around it.

use vstd::prelude::*;
use std::sync::Arc;
use vstd::utf8::*;
use crate::bin::{fits_all, parse_all, wire_all, Error, FromBin, ToBin};
use crate::double::{Double, Single};
use crate::framing::{parse_u16, parse_u32, parse_u64, parse_u8};
use crate::le::{lemma_u16_le, lemma_u32_le, lemma_u64_le, u16_to_le, u32_to_le, u64_to_le};
use crate::scalars::{parse_string, wire_string};
use crate::{
    AssignCond, ClusterAssign, ClusterChoice, InsertCond, LookupResult, LookupResultView,
    LookupTask, LookupTaskView, LookupType, Match, MatchView, PostAction, PostActionView, Rep,
    RepView, Req, ReqView, Trans, TransView, Workload, WorkloadView,
};

verus! {

/// Decoding what was encoded, whatever follows it in the buffer, gives the value back and
/// leaves exactly what followed.
#[verifier::opaque]
pub open spec fn round_trips<T: ToBin + FromBin>() -> bool {
    forall|v: T::V, rest: Seq<u8>|
        T::fits(v) ==> #[trigger] T::parse(T::wire(v) + rest) == Ok::<(T::V, Seq<u8>), Error>(
            (v, rest),
        )
}

/// Decoding any strict prefix of what was encoded reports the end of the buffer.
#[verifier::opaque]
pub open spec fn truncation_fails<T: ToBin + FromBin>() -> bool {
    forall|v: T::V, n: int|
        T::fits(v) && 0 <= n < T::wire(v).len() ==> #[trigger] T::parse(T::wire(v).take(n))
            == Err::<(T::V, Seq<u8>), Error>(Error::UnexpectedEOF)
}

/// Both laws at once.
pub open spec fn faithful<T: ToBin + FromBin>() -> bool {
    round_trips::<T>() && truncation_fails::<T>()
}

/// The round trip of one value.
pub proof fn lemma_round_trip<T: ToBin + FromBin>(v: T::V, rest: Seq<u8>)
    requires
        round_trips::<T>(),
        T::fits(v),
    ensures
        T::parse(T::wire(v) + rest) == Ok::<(T::V, Seq<u8>), Error>((v, rest)),
{
    reveal(round_trips);
}

/// A buffer that holds one encoded value and nothing else is decoded to that value with
/// nothing left over.
pub proof fn lemma_exact_buffer<T: ToBin + FromBin>(v: T::V)
    requires
        round_trips::<T>(),
        T::fits(v),
    ensures
        T::parse(T::wire(v)) == Ok::<(T::V, Seq<u8>), Error>((v, Seq::empty())),
{
    lemma_round_trip::<T>(v, Seq::empty());
    assert(T::wire(v) + Seq::<u8>::empty() =~= T::wire(v));
}

/// The failure of one value cut to `n` bytes.
pub proof fn lemma_truncation<T: ToBin + FromBin>(v: T::V, n: int)
    requires
        truncation_fails::<T>(),
        T::fits(v),
        0 <= n < T::wire(v).len(),
    ensures
        T::parse(T::wire(v).take(n)) == Err::<(T::V, Seq<u8>), Error>(Error::UnexpectedEOF),
{
    reveal(truncation_fails);
}

/// One byte in front of `body` is read back with `body` left over, nothing can be read
/// from an empty buffer, and a prefix of the whole is the byte and a prefix of `body`.
pub proof fn lemma_tag(tag: u8, body: Seq<u8>)
    ensures
        parse_u8(seq![tag] + body) == Ok::<(u8, Seq<u8>), Error>((tag, body)),
        parse_u8(Seq::empty()) == Err::<(u8, Seq<u8>), Error>(Error::UnexpectedEOF),
        (seq![tag] + body).take(0) == Seq::<u8>::empty(),
        forall|n: int|
            0 < n <= body.len() + 1 ==> #[trigger] (seq![tag] + body).take(n) == seq![tag]
                + body.take(n - 1),
{
    assert((seq![tag] + body).skip(1) =~= body);
    assert((seq![tag] + body).take(0) =~= Seq::<u8>::empty());
    assert forall|n: int| 0 < n <= body.len() + 1 implies #[trigger] (seq![tag] + body).take(n)
        == seq![tag] + body.take(n - 1) by {
        assert((seq![tag] + body).take(n) =~= seq![tag] + body.take(n - 1));
    }
}

/// Splitting a concatenation before or behind its seam.
pub proof fn lemma_take_concat(a: Seq<u8>, b: Seq<u8>, n: int)
    requires
        0 <= n <= a.len() + b.len(),
    ensures
        n <= a.len() ==> (a + b).take(n) == a.take(n),
        n >= a.len() ==> (a + b).take(n) == a + b.take(n - a.len()),
{
    if n <= a.len() {
        assert((a + b).take(n) =~= a.take(n));
    }
    if n >= a.len() {
        assert((a + b).take(n) =~= a + b.take(n - a.len()));
    }
}

/// Two bytes that stand for a number, in front of `rest`, are read back as that number
/// with `rest` left over, and fewer bytes are too few.
pub proof fn lemma_u16_frame(x: u16, rest: Seq<u8>)
    ensures
        u16_to_le(x).len() == 2,
        parse_u16(u16_to_le(x) + rest) == Ok::<(u16, Seq<u8>), Error>(
            (x, rest),
        ),
        forall|n: int|
            0 <= n < 2 ==> parse_u16(#[trigger] u16_to_le(x).take(n))
                == Err::<(u16, Seq<u8>), Error>(Error::UnexpectedEOF),
{
    lemma_u16_le();
    let bytes = u16_to_le(x);
    assert((bytes + rest).take(2) =~= bytes);
    assert((bytes + rest).skip(2) =~= rest);
}

/// Four bytes that stand for a number, in front of `rest`, are read back as that number
/// with `rest` left over, and fewer bytes are too few.
pub proof fn lemma_u32_frame(x: u32, rest: Seq<u8>)
    ensures
        u32_to_le(x).len() == 4,
        parse_u32(u32_to_le(x) + rest) == Ok::<(u32, Seq<u8>), Error>(
            (x, rest),
        ),
        forall|n: int|
            0 <= n < 4 ==> parse_u32(#[trigger] u32_to_le(x).take(n))
                == Err::<(u32, Seq<u8>), Error>(Error::UnexpectedEOF),
{
    lemma_u32_le();
    let bytes = u32_to_le(x);
    assert((bytes + rest).take(4) =~= bytes);
    assert((bytes + rest).skip(4) =~= rest);
}

/// Eight bytes that stand for a number, in front of `rest`, are read back as that number
/// with `rest` left over, and fewer bytes are too few.
pub proof fn lemma_u64_frame(x: u64, rest: Seq<u8>)
    ensures
        u64_to_le(x).len() == 8,
        parse_u64(u64_to_le(x) + rest) == Ok::<(u64, Seq<u8>), Error>(
            (x, rest),
        ),
        forall|n: int|
            0 <= n < 8 ==> parse_u64(#[trigger] u64_to_le(x).take(n))
                == Err::<(u64, Seq<u8>), Error>(Error::UnexpectedEOF),
{
    lemma_u64_le();
    let bytes = u64_to_le(x);
    assert((bytes + rest).take(8) =~= bytes);
    assert((bytes + rest).skip(8) =~= rest);
}

/// The codec of `u8` is faithful.
pub proof fn lemma_u8_faithful()
    ensures
        faithful::<u8>(),
{
    reveal(round_trips);
    reveal(truncation_fails);
    assert forall|v: u8, rest: Seq<u8>| #[trigger]
        u8::parse(u8::wire(v) + rest) == Ok::<(u8, Seq<u8>), Error>((v, rest)) by {
        lemma_tag(v, rest);
    }
    assert forall|v: u8, n: int|
        0 <= n < u8::wire(v).len() implies #[trigger] u8::parse(u8::wire(v).take(n))
        == Err::<(u8, Seq<u8>), Error>(Error::UnexpectedEOF) by {
        lemma_tag(v, Seq::empty());
    }
}

/// The codec of `i8` is faithful.
pub proof fn lemma_i8_faithful()
    ensures
        faithful::<i8>(),
{
    reveal(round_trips);
    reveal(truncation_fails);
    assert forall|v: i8, rest: Seq<u8>| #[trigger]
        i8::parse(i8::wire(v) + rest) == Ok::<(i8, Seq<u8>), Error>((v, rest)) by {
        lemma_tag(v as u8, rest);
        assert((v as u8) as i8 == v) by (bit_vector);
    }
    assert forall|v: i8, n: int|
        0 <= n < i8::wire(v).len() implies #[trigger] i8::parse(i8::wire(v).take(n))
        == Err::<(i8, Seq<u8>), Error>(Error::UnexpectedEOF) by {
        lemma_tag(v as u8, Seq::empty());
    }
}

/// The codec of `u16` is faithful.
pub proof fn lemma_u16_faithful()
    ensures
        faithful::<u16>(),
{
    reveal(round_trips);
    reveal(truncation_fails);
    assert forall|v: u16, rest: Seq<u8>| #[trigger]
        u16::parse(u16::wire(v) + rest) == Ok::<(u16, Seq<u8>), Error>((v, rest)) by {
        lemma_u16_frame(v, rest);
    }
    assert forall|v: u16, n: int|
        0 <= n < u16::wire(v).len() implies #[trigger] u16::parse(u16::wire(v).take(n))
        == Err::<(u16, Seq<u8>), Error>(Error::UnexpectedEOF) by {
        lemma_u16_frame(v, Seq::empty());
    }
}

/// The codec of `i16` is faithful.
pub proof fn lemma_i16_faithful()
    ensures
        faithful::<i16>(),
{
    reveal(round_trips);
    reveal(truncation_fails);
    assert forall|v: i16, rest: Seq<u8>| #[trigger]
        i16::parse(i16::wire(v) + rest) == Ok::<(i16, Seq<u8>), Error>((v, rest)) by {
        lemma_u16_frame(v as u16, rest);
        assert((v as u16) as i16 == v) by (bit_vector);
    }
    assert forall|v: i16, n: int|
        0 <= n < i16::wire(v).len() implies #[trigger] i16::parse(i16::wire(v).take(n))
        == Err::<(i16, Seq<u8>), Error>(Error::UnexpectedEOF) by {
        lemma_u16_frame(v as u16, Seq::empty());
    }
}

/// The codec of `u32` is faithful.
pub proof fn lemma_u32_faithful()
    ensures
        faithful::<u32>(),
{
    reveal(round_trips);
    reveal(truncation_fails);
    assert forall|v: u32, rest: Seq<u8>| #[trigger]
        u32::parse(u32::wire(v) + rest) == Ok::<(u32, Seq<u8>), Error>((v, rest)) by {
        lemma_u32_frame(v, rest);
    }
    assert forall|v: u32, n: int|
        0 <= n < u32::wire(v).len() implies #[trigger] u32::parse(u32::wire(v).take(n))
        == Err::<(u32, Seq<u8>), Error>(Error::UnexpectedEOF) by {
        lemma_u32_frame(v, Seq::empty());
    }
}

/// The codec of `i32` is faithful.
pub proof fn lemma_i32_faithful()
    ensures
        faithful::<i32>(),
{
    reveal(round_trips);
    reveal(truncation_fails);
    assert forall|v: i32, rest: Seq<u8>| #[trigger]
        i32::parse(i32::wire(v) + rest) == Ok::<(i32, Seq<u8>), Error>((v, rest)) by {
        lemma_u32_frame(v as u32, rest);
        assert((v as u32) as i32 == v) by (bit_vector);
    }
    assert forall|v: i32, n: int|
        0 <= n < i32::wire(v).len() implies #[trigger] i32::parse(i32::wire(v).take(n))
        == Err::<(i32, Seq<u8>), Error>(Error::UnexpectedEOF) by {
        lemma_u32_frame(v as u32, Seq::empty());
    }
}

/// The codec of `u64` is faithful.
pub proof fn lemma_u64_faithful()
    ensures
        faithful::<u64>(),
{
    reveal(round_trips);
    reveal(truncation_fails);
    assert forall|v: u64, rest: Seq<u8>| #[trigger]
        u64::parse(u64::wire(v) + rest) == Ok::<(u64, Seq<u8>), Error>((v, rest)) by {
        lemma_u64_frame(v, rest);
    }
    assert forall|v: u64, n: int|
        0 <= n < u64::wire(v).len() implies #[trigger] u64::parse(u64::wire(v).take(n))
        == Err::<(u64, Seq<u8>), Error>(Error::UnexpectedEOF) by {
        lemma_u64_frame(v, Seq::empty());
    }
}

/// The codec of `i64` is faithful.
pub proof fn lemma_i64_faithful()
    ensures
        faithful::<i64>(),
{
    reveal(round_trips);
    reveal(truncation_fails);
    assert forall|v: i64, rest: Seq<u8>| #[trigger]
        i64::parse(i64::wire(v) + rest) == Ok::<(i64, Seq<u8>), Error>((v, rest)) by {
        lemma_u64_frame(v as u64, rest);
        assert((v as u64) as i64 == v) by (bit_vector);
    }
    assert forall|v: i64, n: int|
        0 <= n < i64::wire(v).len() implies #[trigger] i64::parse(i64::wire(v).take(n))
        == Err::<(i64, Seq<u8>), Error>(Error::UnexpectedEOF) by {
        lemma_u64_frame(v as u64, Seq::empty());
    }
}

/// The codec of `Single` is faithful.
pub proof fn lemma_single_faithful()
    ensures
        faithful::<Single>(),
{
    reveal(round_trips);
    reveal(truncation_fails);
    assert forall|v: Single, rest: Seq<u8>| #[trigger]
        Single::parse(Single::wire(v) + rest) == Ok::<(Single, Seq<u8>), Error>((v, rest)) by {
        lemma_u32_frame(v.bits, rest);
    }
    assert forall|v: Single, n: int|
        0 <= n < Single::wire(v).len() implies #[trigger] Single::parse(Single::wire(v).take(n))
        == Err::<(Single, Seq<u8>), Error>(Error::UnexpectedEOF) by {
        lemma_u32_frame(v.bits, Seq::empty());
    }
}

/// The codec of `Double` is faithful.
pub proof fn lemma_double_faithful()
    ensures
        faithful::<Double>(),
{
    reveal(round_trips);
    reveal(truncation_fails);
    assert forall|v: Double, rest: Seq<u8>| #[trigger]
        Double::parse(Double::wire(v) + rest) == Ok::<(Double, Seq<u8>), Error>((v, rest)) by {
        lemma_u64_frame(v.bits, rest);
    }
    assert forall|v: Double, n: int|
        0 <= n < Double::wire(v).len() implies #[trigger] Double::parse(Double::wire(v).take(n))
        == Err::<(Double, Seq<u8>), Error>(Error::UnexpectedEOF) by {
        lemma_u64_frame(v.bits, Seq::empty());
    }
}

/// A string in front of `rest` is read back with `rest` left over.
pub proof fn lemma_string_round_trip(v: Seq<char>, rest: Seq<u8>)
    requires
        String::fits(v),
    ensures
        parse_string(wire_string(v) + rest) == Ok::<(Seq<char>, Seq<u8>), Error>((v, rest)),
{
    reveal(wire_string);
    reveal(parse_string);
    let text = encode_utf8(v);
    let len = text.len() as u32;
    lemma_u32_frame(len, text + rest);
    assert(wire_string(v) + rest =~= u32_to_le(len) + (text + rest));
    assert((text + rest).take(len as int) =~= text);
    assert((text + rest).skip(len as int) =~= rest);
    encode_utf8_valid_utf8(v);
    encode_utf8_decode_utf8(v);
}

/// A string that was cut short cannot be read.
pub proof fn lemma_string_truncation(v: Seq<char>, n: int)
    requires
        String::fits(v),
        0 <= n < wire_string(v).len(),
    ensures
        parse_string(wire_string(v).take(n)) == Err::<(Seq<char>, Seq<u8>), Error>(
            Error::UnexpectedEOF,
        ),
{
    reveal(wire_string);
    reveal(parse_string);
    let text = encode_utf8(v);
    let len = text.len() as u32;
    lemma_take_concat(u32_to_le(len), text, n);
    if n >= 4 {
        lemma_u32_frame(len, text.take(n - 4));
    } else {
        lemma_u32_frame(len, Seq::empty());
    }
}

/// The codec of `String` is faithful.
pub proof fn lemma_string_faithful()
    ensures
        faithful::<String>(),
{
    reveal(round_trips);
    reveal(truncation_fails);
    assert forall|v: Seq<char>, rest: Seq<u8>| String::fits(v) implies #[trigger] String::parse(
        String::wire(v) + rest,
    ) == Ok::<(Seq<char>, Seq<u8>), Error>((v, rest)) by {
        lemma_string_round_trip(v, rest);
    }
    assert forall|v: Seq<char>, n: int|
        String::fits(v) && 0 <= n < String::wire(v).len() implies #[trigger] String::parse(
        String::wire(v).take(n),
    ) == Err::<(Seq<char>, Seq<u8>), Error>(Error::UnexpectedEOF) by {
        lemma_string_truncation(v, n);
    }
}

/// A tag and a value behind it, in front of `rest`: the tag is read, and then the value
/// with `rest` left over.
pub proof fn lemma_tagged_round_trip<T: ToBin + FromBin>(tag: u8, v: T::V, rest: Seq<u8>)
    requires
        round_trips::<T>(),
        T::fits(v),
    ensures
        parse_u8((seq![tag] + T::wire(v)) + rest) == Ok::<(u8, Seq<u8>), Error>(
            (tag, T::wire(v) + rest),
        ),
        T::parse(T::wire(v) + rest) == Ok::<(T::V, Seq<u8>), Error>((v, rest)),
{
    lemma_round_trip::<T>(v, rest);
    lemma_tag(tag, T::wire(v) + rest);
    assert((seq![tag] + T::wire(v)) + rest =~= seq![tag] + (T::wire(v) + rest));
}

/// A tag and a value behind it, cut to `n` bytes: either the tag is missing, or the tag is
/// read and the value behind it is cut short.
pub proof fn lemma_tagged_truncation<T: ToBin + FromBin>(tag: u8, v: T::V, n: int)
    requires
        truncation_fails::<T>(),
        T::fits(v),
        0 <= n < 1 + T::wire(v).len(),
    ensures
        n == 0 ==> parse_u8((seq![tag] + T::wire(v)).take(n)) == Err::<(u8, Seq<u8>), Error>(
            Error::UnexpectedEOF,
        ),
        n > 0 ==> parse_u8((seq![tag] + T::wire(v)).take(n)) == Ok::<(u8, Seq<u8>), Error>(
            (tag, T::wire(v).take(n - 1)),
        ),
        n > 0 ==> T::parse(T::wire(v).take(n - 1)) == Err::<(T::V, Seq<u8>), Error>(
            Error::UnexpectedEOF,
        ),
{
    lemma_tag(tag, T::wire(v));
    if n > 0 {
        lemma_truncation::<T>(v, n - 1);
        lemma_tag(tag, T::wire(v).take(n - 1));
    }
}

/// A value with `tail` behind it, in front of `rest`: the value is read and `tail` and
/// `rest` are left over.
pub proof fn lemma_field_round_trip<T: ToBin + FromBin>(v: T::V, tail: Seq<u8>, rest: Seq<u8>)
    requires
        round_trips::<T>(),
        T::fits(v),
    ensures
        T::parse((T::wire(v) + tail) + rest) == Ok::<(T::V, Seq<u8>), Error>((v, tail + rest)),
{
    lemma_round_trip::<T>(v, tail + rest);
    assert((T::wire(v) + tail) + rest =~= T::wire(v) + (tail + rest));
}

/// A value with `tail` behind it, cut to `n` bytes: either the value is cut short, or it is
/// read and what is left of `tail` follows.
pub proof fn lemma_field_truncation<T: ToBin + FromBin>(v: T::V, tail: Seq<u8>, n: int)
    requires
        faithful::<T>(),
        T::fits(v),
        0 <= n < T::wire(v).len() + tail.len(),
    ensures
        n < T::wire(v).len() ==> T::parse((T::wire(v) + tail).take(n)) == Err::<
            (T::V, Seq<u8>),
            Error,
        >(Error::UnexpectedEOF),
        n >= T::wire(v).len() ==> T::parse((T::wire(v) + tail).take(n)) == Ok::<
            (T::V, Seq<u8>),
            Error,
        >((v, tail.take(n - T::wire(v).len()))),
        n >= T::wire(v).len() ==> 0 <= n - T::wire(v).len() < tail.len(),
{
    lemma_take_concat(T::wire(v), tail, n);
    if n < T::wire(v).len() {
        lemma_truncation::<T>(v, n);
    } else {
        lemma_round_trip::<T>(v, tail.take(n - T::wire(v).len()));
    }
}

/// A lookup type in front of `rest` is read back with `rest` left over.
pub proof fn lemma_lookup_type_round_trip(
    v: LookupType,
    rest: Seq<u8>,
)
    requires
        LookupType::fits(v),
    ensures
        LookupType::parse(LookupType::wire(v) + rest) == Ok::<
            (LookupType, Seq<u8>),
            Error,
        >((v, rest)),
{
    lemma_tag(LookupType::wire(v)[0], rest);
    assert(LookupType::wire(v) + rest =~= seq![LookupType::wire(v)[0]] + rest);
}

/// A lookup type that was cut short cannot be read.
pub proof fn lemma_lookup_type_truncation(v: LookupType, n: int)
    requires
        LookupType::fits(v),
        0 <= n < LookupType::wire(v).len(),
    ensures
        LookupType::parse(LookupType::wire(v).take(n)) == Err::<
            (LookupType, Seq<u8>),
            Error,
        >(Error::UnexpectedEOF),
{
}

/// The codec of `LookupType` is faithful.
pub proof fn lemma_lookup_type_faithful()
    ensures
        faithful::<LookupType>(),
{
    assert(round_trips::<LookupType>()) by {
        reveal(round_trips);
        assert forall|v: LookupType, rest: Seq<u8>|
            LookupType::fits(v) implies #[trigger] LookupType::parse(
            LookupType::wire(v) + rest,
        ) == Ok::<(LookupType, Seq<u8>), Error>((v, rest)) by {
            lemma_lookup_type_round_trip(v, rest);
        }
    }
    assert(truncation_fails::<LookupType>()) by {
        reveal(truncation_fails);
        assert forall|v: LookupType, n: int|
            LookupType::fits(v) && 0 <= n < LookupType::wire(v).len()
            implies #[trigger] LookupType::parse(LookupType::wire(v).take(n)) == Err::<
            (LookupType, Seq<u8>),
            Error,
        >(Error::UnexpectedEOF) by {
            lemma_lookup_type_truncation(v, n);
        }
    }
}

/// An insertion gate in front of `rest` is read back with `rest` left over.
pub proof fn lemma_insert_cond_round_trip(
    v: InsertCond,
    rest: Seq<u8>,
)
    requires
        InsertCond::fits(v),
    ensures
        InsertCond::parse(InsertCond::wire(v) + rest) == Ok::<
            (InsertCond, Seq<u8>),
            Error,
        >((v, rest)),
{
    lemma_double_faithful();
    match v {
        InsertCond::Always => {
            lemma_tag(1, rest);
        },
        InsertCond::BestSimLessThan(sim) => {
            lemma_tagged_round_trip::<Double>(2, sim, rest);
        },
    }
}

/// An insertion gate that was cut short cannot be read.
pub proof fn lemma_insert_cond_truncation(v: InsertCond, n: int)
    requires
        InsertCond::fits(v),
        0 <= n < InsertCond::wire(v).len(),
    ensures
        InsertCond::parse(InsertCond::wire(v).take(n)) == Err::<
            (InsertCond, Seq<u8>),
            Error,
        >(Error::UnexpectedEOF),
{
    lemma_double_faithful();
    match v {
        InsertCond::Always => {},
        InsertCond::BestSimLessThan(sim) => {
            lemma_tagged_truncation::<Double>(2, sim, n);
        },
    }
}

/// The codec of `InsertCond` is faithful.
pub proof fn lemma_insert_cond_faithful()
    ensures
        faithful::<InsertCond>(),
{
    assert(round_trips::<InsertCond>()) by {
        reveal(round_trips);
        assert forall|v: InsertCond, rest: Seq<u8>|
            InsertCond::fits(v) implies #[trigger] InsertCond::parse(
            InsertCond::wire(v) + rest,
        ) == Ok::<(InsertCond, Seq<u8>), Error>((v, rest)) by {
            lemma_insert_cond_round_trip(v, rest);
        }
    }
    assert(truncation_fails::<InsertCond>()) by {
        reveal(truncation_fails);
        assert forall|v: InsertCond, n: int|
            InsertCond::fits(v) && 0 <= n < InsertCond::wire(v).len()
            implies #[trigger] InsertCond::parse(InsertCond::wire(v).take(n)) == Err::<
            (InsertCond, Seq<u8>),
            Error,
        >(Error::UnexpectedEOF) by {
            lemma_insert_cond_truncation(v, n);
        }
    }
}

/// An assignment gate in front of `rest` is read back with `rest` left over.
pub proof fn lemma_assign_cond_round_trip(
    v: AssignCond,
    rest: Seq<u8>,
)
    requires
        AssignCond::fits(v),
    ensures
        AssignCond::parse(AssignCond::wire(v) + rest) == Ok::<
            (AssignCond, Seq<u8>),
            Error,
        >((v, rest)),
{
    lemma_double_faithful();
    match v {
        AssignCond::Always => {
            lemma_tag(1, rest);
        },
        AssignCond::BestSimLessThan(sim) => {
            lemma_tagged_round_trip::<Double>(2, sim, rest);
        },
    }
}

/// An assignment gate that was cut short cannot be read.
pub proof fn lemma_assign_cond_truncation(v: AssignCond, n: int)
    requires
        AssignCond::fits(v),
        0 <= n < AssignCond::wire(v).len(),
    ensures
        AssignCond::parse(AssignCond::wire(v).take(n)) == Err::<
            (AssignCond, Seq<u8>),
            Error,
        >(Error::UnexpectedEOF),
{
    lemma_double_faithful();
    match v {
        AssignCond::Always => {},
        AssignCond::BestSimLessThan(sim) => {
            lemma_tagged_truncation::<Double>(2, sim, n);
        },
    }
}

/// The codec of `AssignCond` is faithful.
pub proof fn lemma_assign_cond_faithful()
    ensures
        faithful::<AssignCond>(),
{
    assert(round_trips::<AssignCond>()) by {
        reveal(round_trips);
        assert forall|v: AssignCond, rest: Seq<u8>|
            AssignCond::fits(v) implies #[trigger] AssignCond::parse(
            AssignCond::wire(v) + rest,
        ) == Ok::<(AssignCond, Seq<u8>), Error>((v, rest)) by {
            lemma_assign_cond_round_trip(v, rest);
        }
    }
    assert(truncation_fails::<AssignCond>()) by {
        reveal(truncation_fails);
        assert forall|v: AssignCond, n: int|
            AssignCond::fits(v) && 0 <= n < AssignCond::wire(v).len()
            implies #[trigger] AssignCond::parse(AssignCond::wire(v).take(n)) == Err::<
            (AssignCond, Seq<u8>),
            Error,
        >(Error::UnexpectedEOF) by {
            lemma_assign_cond_truncation(v, n);
        }
    }
}

/// A cluster choice in front of `rest` is read back with `rest` left over.
pub proof fn lemma_cluster_choice_round_trip(
    v: ClusterChoice,
    rest: Seq<u8>,
)
    requires
        ClusterChoice::fits(v),
    ensures
        ClusterChoice::parse(ClusterChoice::wire(v) + rest) == Ok::<
            (ClusterChoice, Seq<u8>),
            Error,
        >((v, rest)),
{
    lemma_u64_faithful();
    match v {
        ClusterChoice::ServerChoice => {
            lemma_tag(1, rest);
        },
        ClusterChoice::ClientChoice(cluster_id) => {
            lemma_tagged_round_trip::<u64>(2, cluster_id, rest);
        },
    }
}

/// A cluster choice that was cut short cannot be read.
pub proof fn lemma_cluster_choice_truncation(v: ClusterChoice, n: int)
    requires
        ClusterChoice::fits(v),
        0 <= n < ClusterChoice::wire(v).len(),
    ensures
        ClusterChoice::parse(ClusterChoice::wire(v).take(n)) == Err::<
            (ClusterChoice, Seq<u8>),
            Error,
        >(Error::UnexpectedEOF),
{
    lemma_u64_faithful();
    match v {
        ClusterChoice::ServerChoice => {},
        ClusterChoice::ClientChoice(cluster_id) => {
            lemma_tagged_truncation::<u64>(2, cluster_id, n);
        },
    }
}

/// The codec of `ClusterChoice` is faithful.
pub proof fn lemma_cluster_choice_faithful()
    ensures
        faithful::<ClusterChoice>(),
{
    assert(round_trips::<ClusterChoice>()) by {
        reveal(round_trips);
        assert forall|v: ClusterChoice, rest: Seq<u8>|
            ClusterChoice::fits(v) implies #[trigger] ClusterChoice::parse(
            ClusterChoice::wire(v) + rest,
        ) == Ok::<(ClusterChoice, Seq<u8>), Error>((v, rest)) by {
            lemma_cluster_choice_round_trip(v, rest);
        }
    }
    assert(truncation_fails::<ClusterChoice>()) by {
        reveal(truncation_fails);
        assert forall|v: ClusterChoice, n: int|
            ClusterChoice::fits(v) && 0 <= n < ClusterChoice::wire(v).len()
            implies #[trigger] ClusterChoice::parse(ClusterChoice::wire(v).take(n)) == Err::<
            (ClusterChoice, Seq<u8>),
            Error,
        >(Error::UnexpectedEOF) by {
            lemma_cluster_choice_truncation(v, n);
        }
    }
}

/// A cluster assignment in front of `rest` is read back with `rest` left over.
pub proof fn lemma_cluster_assign_round_trip(
    v: ClusterAssign,
    rest: Seq<u8>,
)
    requires
        ClusterAssign::fits(v),
    ensures
        ClusterAssign::parse(ClusterAssign::wire(v) + rest) == Ok::<
            (ClusterAssign, Seq<u8>),
            Error,
        >((v, rest)),
{
    lemma_assign_cond_faithful();
    lemma_cluster_choice_faithful();
    let cond = AssignCond::wire(v.cond);
    let choice = ClusterChoice::wire(v.choice);
    assert(ClusterAssign::wire(v) + rest =~= cond + (choice + rest));
    lemma_round_trip::<AssignCond>(v.cond, choice + rest);
    lemma_round_trip::<ClusterChoice>(v.choice, rest);
}

/// A cluster assignment that was cut short cannot be read.
pub proof fn lemma_cluster_assign_truncation(v: ClusterAssign, n: int)
    requires
        ClusterAssign::fits(v),
        0 <= n < ClusterAssign::wire(v).len(),
    ensures
        ClusterAssign::parse(ClusterAssign::wire(v).take(n)) == Err::<
            (ClusterAssign, Seq<u8>),
            Error,
        >(Error::UnexpectedEOF),
{
    lemma_assign_cond_faithful();
    lemma_cluster_choice_faithful();
    let cond = AssignCond::wire(v.cond);
    let choice = ClusterChoice::wire(v.choice);
    lemma_field_truncation::<AssignCond>(v.cond, choice, n);
    let n1 = n - cond.len();
    if n1 >= 0 {
        lemma_truncation::<ClusterChoice>(v.choice, n1);
    }
}

/// The codec of `ClusterAssign` is faithful.
pub proof fn lemma_cluster_assign_faithful()
    ensures
        faithful::<ClusterAssign>(),
{
    assert(round_trips::<ClusterAssign>()) by {
        reveal(round_trips);
        assert forall|v: ClusterAssign, rest: Seq<u8>|
            ClusterAssign::fits(v) implies #[trigger] ClusterAssign::parse(
            ClusterAssign::wire(v) + rest,
        ) == Ok::<(ClusterAssign, Seq<u8>), Error>((v, rest)) by {
            lemma_cluster_assign_round_trip(v, rest);
        }
    }
    assert(truncation_fails::<ClusterAssign>()) by {
        reveal(truncation_fails);
        assert forall|v: ClusterAssign, n: int|
            ClusterAssign::fits(v) && 0 <= n < ClusterAssign::wire(v).len()
            implies #[trigger] ClusterAssign::parse(ClusterAssign::wire(v).take(n)) == Err::<
            (ClusterAssign, Seq<u8>),
            Error,
        >(Error::UnexpectedEOF) by {
            lemma_cluster_assign_truncation(v, n);
        }
    }
}

/// The items of a batch in front of `rest` are read back in order with `rest` left over.
pub proof fn lemma_parse_all_round_trip<T: ToBin + FromBin>(items: Seq<T::V>, rest: Seq<u8>)
    requires
        round_trips::<T>(),
        fits_all::<T>(items),
    ensures
        parse_all::<T>(wire_all::<T>(items) + rest, items.len()) == Ok::<
            (Seq<T::V>, Seq<u8>),
            Error,
        >((items, rest)),
    decreases items.len(),
{
    if items.len() == 0 {
        assert(wire_all::<T>(items) + rest =~= rest);
        assert(items =~= Seq::<T::V>::empty());
    } else {
        let others = items.drop_first();
        lemma_field_round_trip::<T>(items[0], wire_all::<T>(others), rest);
        assert forall|i: int| 0 <= i < others.len() implies T::fits(#[trigger] others[i]) by {
            assert(others[i] == items[i + 1]);
        }
        lemma_parse_all_round_trip::<T>(others, rest);
        assert(seq![items[0]] + others =~= items);
    }
}

/// The items of a batch that was cut short cannot all be read.
pub proof fn lemma_parse_all_truncation<T: ToBin + FromBin>(items: Seq<T::V>, n: int)
    requires
        faithful::<T>(),
        fits_all::<T>(items),
        0 <= n < wire_all::<T>(items).len(),
    ensures
        parse_all::<T>(wire_all::<T>(items).take(n), items.len()) == Err::<
            (Seq<T::V>, Seq<u8>),
            Error,
        >(Error::UnexpectedEOF),
    decreases items.len(),
{
    let others = items.drop_first();
    lemma_field_truncation::<T>(items[0], wire_all::<T>(others), n);
    if n >= T::wire(items[0]).len() {
        assert forall|i: int| 0 <= i < others.len() implies T::fits(#[trigger] others[i]) by {
            assert(others[i] == items[i + 1]);
        }
        lemma_parse_all_truncation::<T>(others, n - T::wire(items[0]).len());
    }
}

/// A workload in front of `rest` is read back with `rest` left over.
pub proof fn lemma_workload_round_trip<T: ToBin + FromBin>(
    v: WorkloadView<T::V>,
    rest: Seq<u8>,
)
    requires
        faithful::<T>(),
        Workload::<T>::fits(v),
    ensures
        Workload::<T>::parse(Workload::<T>::wire(v) + rest) == Ok::<
            (WorkloadView<T::V>, Seq<u8>),
            Error,
        >((v, rest)),
{
    match v {
        WorkloadView::Single(item) => {
            lemma_tagged_round_trip::<T>(1, item, rest);
        },
        WorkloadView::Many(items) => {
            let count = items.len() as u32;
            let body = wire_all::<T>(items) + rest;
            lemma_tag(2, u32_to_le(count) + body);
            lemma_u32_frame(count, body);
            lemma_parse_all_round_trip::<T>(items, rest);
            assert(Workload::<T>::wire(v) + rest =~= seq![2u8] + (u32_to_le(count)
                + body));
        },
    }
}

/// A workload that was cut short cannot be read.
pub proof fn lemma_workload_truncation<T: ToBin + FromBin>(v: WorkloadView<T::V>, n: int)
    requires
        faithful::<T>(),
        Workload::<T>::fits(v),
        0 <= n < Workload::<T>::wire(v).len(),
    ensures
        Workload::<T>::parse(Workload::<T>::wire(v).take(n)) == Err::<
            (WorkloadView<T::V>, Seq<u8>),
            Error,
        >(Error::UnexpectedEOF),
{
    match v {
        WorkloadView::Single(item) => {
            lemma_tagged_truncation::<T>(1, item, n);
        },
        WorkloadView::Many(items) => {
            let count = items.len() as u32;
            let prefix = u32_to_le(count);
            let body = prefix + wire_all::<T>(items);
            assert(Workload::<T>::wire(v) =~= seq![2u8] + body);
            lemma_tag(2, body);
            if n > 0 {
                lemma_tag(2, body.take(n - 1));
                lemma_take_concat(prefix, wire_all::<T>(items), n - 1);
                if n >= 5 {
                    lemma_u32_frame(count, wire_all::<T>(items).take(n - 5));
                    lemma_parse_all_truncation::<T>(items, n - 5);
                } else {
                    lemma_u32_frame(count, Seq::empty());
                }
            }
        },
    }
}

/// The codec of `Workload` is faithful, where that of its payload is.
pub proof fn lemma_workload_faithful<T: ToBin + FromBin>()
    requires
        faithful::<T>(),
    ensures
        faithful::<Workload<T>>(),
{
    assert(round_trips::<Workload<T>>()) by {
        reveal(round_trips);
        assert forall|v: WorkloadView<T::V>, rest: Seq<u8>|
            Workload::<T>::fits(v) implies #[trigger] Workload::<T>::parse(
            Workload::<T>::wire(v) + rest,
        ) == Ok::<(WorkloadView<T::V>, Seq<u8>), Error>((v, rest)) by {
            lemma_workload_round_trip::<T>(v, rest);
        }
    }
    assert(truncation_fails::<Workload<T>>()) by {
        reveal(truncation_fails);
        assert forall|v: WorkloadView<T::V>, n: int|
            Workload::<T>::fits(v) && 0 <= n < Workload::<T>::wire(v).len()
            implies #[trigger] Workload::<T>::parse(Workload::<T>::wire(v).take(n)) == Err::<
            (WorkloadView<T::V>, Seq<u8>),
            Error,
        >(Error::UnexpectedEOF) by {
            lemma_workload_truncation::<T>(v, n);
        }
    }
}

/// The three fields of an insertion in front of `rest` are read back one after the other.
pub proof fn lemma_insert_new_round_trip<UD: ToBin + FromBin>(
    cond: InsertCond,
    assign: ClusterAssign,
    user_data: UD::V,
    rest: Seq<u8>,
)
    requires
        faithful::<UD>(),
        UD::fits(user_data),
    ensures
        InsertCond::parse(
            InsertCond::wire(cond) + (ClusterAssign::wire(assign) + (UD::wire(user_data) + rest)),
        ) == Ok::<(InsertCond, Seq<u8>), Error>(
            (cond, ClusterAssign::wire(assign) + (UD::wire(user_data) + rest)),
        ),
        ClusterAssign::parse(ClusterAssign::wire(assign) + (UD::wire(user_data) + rest)) == Ok::<
            (ClusterAssign, Seq<u8>),
            Error,
        >((assign, UD::wire(user_data) + rest)),
        UD::parse(UD::wire(user_data) + rest) == Ok::<(UD::V, Seq<u8>), Error>((user_data, rest)),
{
    lemma_insert_cond_faithful();
    lemma_cluster_assign_faithful();
    let a = ClusterAssign::wire(assign);
    let u = UD::wire(user_data);
    lemma_round_trip::<InsertCond>(cond, a + (u + rest));
    lemma_round_trip::<ClusterAssign>(assign, u + rest);
    lemma_round_trip::<UD>(user_data, rest);
}

/// The three fields of an insertion, cut to `n` bytes, cannot all be read: the first one
/// that was cut reports the end of the buffer.
pub proof fn lemma_insert_new_truncation<UD: ToBin + FromBin>(
    cond: InsertCond,
    assign: ClusterAssign,
    user_data: UD::V,
    n: int,
)
    requires
        faithful::<UD>(),
        UD::fits(user_data),
        0 <= n < InsertCond::wire(cond).len() + ClusterAssign::wire(assign).len() + UD::wire(
            user_data,
        ).len(),
    ensures
        PostAction::<UD>::parse(
            seq![2u8] + (InsertCond::wire(cond) + (ClusterAssign::wire(assign) + UD::wire(
                user_data,
            ))).take(n),
        ) == Err::<(PostActionView<UD::V>, Seq<u8>), Error>(Error::UnexpectedEOF),
{
    lemma_insert_cond_faithful();
    lemma_cluster_assign_faithful();
    let c = InsertCond::wire(cond);
    let a = ClusterAssign::wire(assign);
    let u = UD::wire(user_data);
    lemma_tag(2, (c + (a + u)).take(n));
    lemma_field_truncation::<InsertCond>(cond, a + u, n);
    let n1 = n - c.len();
    if n1 >= 0 {
        lemma_field_truncation::<ClusterAssign>(assign, u, n1);
        let n2 = n1 - a.len();
        if n2 >= 0 {
            lemma_truncation::<UD>(user_data, n2);
        }
    }
}

/// A post action in front of `rest` is read back with `rest` left over.
pub proof fn lemma_post_action_round_trip<UD: ToBin + FromBin>(
    v: PostActionView<UD::V>,
    rest: Seq<u8>,
)
    requires
        faithful::<UD>(),
        PostAction::<UD>::fits(v),
    ensures
        PostAction::<UD>::parse(PostAction::<UD>::wire(v) + rest) == Ok::<
            (PostActionView<UD::V>, Seq<u8>),
            Error,
        >((v, rest)),
{
    match v {
        PostActionView::NoAction => {
            lemma_tag(1, rest);
        },
        PostActionView::InsertNew { cond, assign, user_data } => {
            let c = InsertCond::wire(cond);
            let a = ClusterAssign::wire(assign);
            let u = UD::wire(user_data);
            lemma_tag(2, c + (a + (u + rest)));
            assert(PostAction::<UD>::wire(v) + rest =~= seq![2u8] + (c + (a + (u + rest))));
            lemma_insert_new_round_trip::<UD>(cond, assign, user_data, rest);
        },
    }
}

/// A post action that was cut short cannot be read.
pub proof fn lemma_post_action_truncation<UD: ToBin + FromBin>(v: PostActionView<UD::V>, n: int)
    requires
        faithful::<UD>(),
        PostAction::<UD>::fits(v),
        0 <= n < PostAction::<UD>::wire(v).len(),
    ensures
        PostAction::<UD>::parse(PostAction::<UD>::wire(v).take(n)) == Err::<
            (PostActionView<UD::V>, Seq<u8>),
            Error,
        >(Error::UnexpectedEOF),
{
    match v {
        PostActionView::NoAction => {},
        PostActionView::InsertNew { cond, assign, user_data } => {
            let c = InsertCond::wire(cond);
            let a = ClusterAssign::wire(assign);
            let u = UD::wire(user_data);
            assert(PostAction::<UD>::wire(v) =~= seq![2u8] + (c + (a + u)));
            lemma_tag(2, c + (a + u));
            if n > 0 {
                lemma_insert_new_truncation::<UD>(cond, assign, user_data, n - 1);
            }
        },
    }
}

/// The codec of `PostAction` is faithful, where that of its payload is.
pub proof fn lemma_post_action_faithful<UD: ToBin + FromBin>()
    requires
        faithful::<UD>(),
    ensures
        faithful::<PostAction<UD>>(),
{
    assert(round_trips::<PostAction<UD>>()) by {
        reveal(round_trips);
        assert forall|v: PostActionView<UD::V>, rest: Seq<u8>|
            PostAction::<UD>::fits(v) implies #[trigger] PostAction::<UD>::parse(
            PostAction::<UD>::wire(v) + rest,
        ) == Ok::<(PostActionView<UD::V>, Seq<u8>), Error>((v, rest)) by {
            lemma_post_action_round_trip::<UD>(v, rest);
        }
    }
    assert(truncation_fails::<PostAction<UD>>()) by {
        reveal(truncation_fails);
        assert forall|v: PostActionView<UD::V>, n: int|
            PostAction::<UD>::fits(v) && 0 <= n < PostAction::<UD>::wire(v).len()
            implies #[trigger] PostAction::<UD>::parse(PostAction::<UD>::wire(v).take(n)) == Err::<
            (PostActionView<UD::V>, Seq<u8>),
            Error,
        >(Error::UnexpectedEOF) by {
            lemma_post_action_truncation::<UD>(v, n);
        }
    }
}

/// A lookup task in front of `rest` is read back with `rest` left over.
pub proof fn lemma_lookup_task_round_trip<UD: ToBin + FromBin>(
    v: LookupTaskView<UD::V>,
    rest: Seq<u8>,
)
    requires
        faithful::<UD>(),
        LookupTask::<UD>::fits(v),
    ensures
        LookupTask::<UD>::parse(LookupTask::<UD>::wire(v) + rest) == Ok::<
            (LookupTaskView<UD::V>, Seq<u8>),
            Error,
        >((v, rest)),
{
    lemma_string_faithful();
    lemma_lookup_type_faithful();
    lemma_post_action_faithful::<UD>();
    let t = String::wire(v.text);
    let r = LookupType::wire(v.result);
    let p = PostAction::<UD>::wire(v.post_action);
    assert(LookupTask::<UD>::wire(v) + rest =~= t + (r + (p + rest)));
    lemma_round_trip::<String>(v.text, r + (p + rest));
    lemma_round_trip::<LookupType>(v.result, p + rest);
    lemma_round_trip::<PostAction<UD>>(v.post_action, rest);
}

/// A lookup task that was cut short cannot be read.
pub proof fn lemma_lookup_task_truncation<UD: ToBin + FromBin>(v: LookupTaskView<UD::V>, n: int)
    requires
        faithful::<UD>(),
        LookupTask::<UD>::fits(v),
        0 <= n < LookupTask::<UD>::wire(v).len(),
    ensures
        LookupTask::<UD>::parse(LookupTask::<UD>::wire(v).take(n)) == Err::<
            (LookupTaskView<UD::V>, Seq<u8>),
            Error,
        >(Error::UnexpectedEOF),
{
    lemma_string_faithful();
    lemma_lookup_type_faithful();
    lemma_post_action_faithful::<UD>();
    let t = String::wire(v.text);
    let r = LookupType::wire(v.result);
    let p = PostAction::<UD>::wire(v.post_action);
    assert(LookupTask::<UD>::wire(v) =~= t + (r + p));
    lemma_field_truncation::<String>(v.text, r + p, n);
    let n1 = n - t.len();
    if n1 >= 0 {
        lemma_field_truncation::<LookupType>(v.result, p, n1);
        let n2 = n1 - r.len();
        if n2 >= 0 {
            lemma_truncation::<PostAction<UD>>(v.post_action, n2);
        }
    }
}

/// The codec of `LookupTask` is faithful, where that of its payload is.
pub proof fn lemma_lookup_task_faithful<UD: ToBin + FromBin>()
    requires
        faithful::<UD>(),
    ensures
        faithful::<LookupTask<UD>>(),
{
    assert(round_trips::<LookupTask<UD>>()) by {
        reveal(round_trips);
        assert forall|v: LookupTaskView<UD::V>, rest: Seq<u8>|
            LookupTask::<UD>::fits(v) implies #[trigger] LookupTask::<UD>::parse(
            LookupTask::<UD>::wire(v) + rest,
        ) == Ok::<(LookupTaskView<UD::V>, Seq<u8>), Error>((v, rest)) by {
            lemma_lookup_task_round_trip::<UD>(v, rest);
        }
    }
    assert(truncation_fails::<LookupTask<UD>>()) by {
        reveal(truncation_fails);
        assert forall|v: LookupTaskView<UD::V>, n: int|
            LookupTask::<UD>::fits(v) && 0 <= n < LookupTask::<UD>::wire(v).len()
            implies #[trigger] LookupTask::<UD>::parse(LookupTask::<UD>::wire(v).take(n)) == Err::<
            (LookupTaskView<UD::V>, Seq<u8>),
            Error,
        >(Error::UnexpectedEOF) by {
            lemma_lookup_task_truncation::<UD>(v, n);
        }
    }
}

/// A request in front of `rest` is read back with `rest` left over.
pub proof fn lemma_req_round_trip<UD: ToBin + FromBin>(
    v: ReqView<UD::V>,
    rest: Seq<u8>,
)
    requires
        faithful::<UD>(),
        Req::<UD>::fits(v),
    ensures
        Req::<UD>::parse(Req::<UD>::wire(v) + rest) == Ok::<
            (ReqView<UD::V>, Seq<u8>),
            Error,
        >((v, rest)),
{
    lemma_lookup_task_faithful::<UD>();
    lemma_workload_faithful::<LookupTask<UD>>();
    match v {
        ReqView::Init => {
            lemma_tag(1, rest);
        },
        ReqView::Lookup(workload) => {
            lemma_tagged_round_trip::<Workload<LookupTask<UD>>>(2, workload, rest);
        },
        ReqView::Terminate => {
            lemma_tag(3, rest);
        },
    }
}

/// A request that was cut short cannot be read.
pub proof fn lemma_req_truncation<UD: ToBin + FromBin>(v: ReqView<UD::V>, n: int)
    requires
        faithful::<UD>(),
        Req::<UD>::fits(v),
        0 <= n < Req::<UD>::wire(v).len(),
    ensures
        Req::<UD>::parse(Req::<UD>::wire(v).take(n)) == Err::<
            (ReqView<UD::V>, Seq<u8>),
            Error,
        >(Error::UnexpectedEOF),
{
    lemma_lookup_task_faithful::<UD>();
    lemma_workload_faithful::<LookupTask<UD>>();
    match v {
        ReqView::Init => {},
        ReqView::Lookup(workload) => {
            lemma_tagged_truncation::<Workload<LookupTask<UD>>>(2, workload, n);
        },
        ReqView::Terminate => {},
    }
}

/// The codec of `Req` is faithful, where that of its payload is.
pub proof fn lemma_req_faithful<UD: ToBin + FromBin>()
    requires
        faithful::<UD>(),
    ensures
        faithful::<Req<UD>>(),
{
    assert(round_trips::<Req<UD>>()) by {
        reveal(round_trips);
        assert forall|v: ReqView<UD::V>, rest: Seq<u8>|
            Req::<UD>::fits(v) implies #[trigger] Req::<UD>::parse(
            Req::<UD>::wire(v) + rest,
        ) == Ok::<(ReqView<UD::V>, Seq<u8>), Error>((v, rest)) by {
            lemma_req_round_trip::<UD>(v, rest);
        }
    }
    assert(truncation_fails::<Req<UD>>()) by {
        reveal(truncation_fails);
        assert forall|v: ReqView<UD::V>, n: int|
            Req::<UD>::fits(v) && 0 <= n < Req::<UD>::wire(v).len()
            implies #[trigger] Req::<UD>::parse(Req::<UD>::wire(v).take(n)) == Err::<
            (ReqView<UD::V>, Seq<u8>),
            Error,
        >(Error::UnexpectedEOF) by {
            lemma_req_truncation::<UD>(v, n);
        }
    }
}

/// A transaction in front of `rest` is read back with `rest` left over.
pub proof fn lemma_trans_round_trip<UD: ToBin + FromBin>(
    v: TransView<UD::V>,
    rest: Seq<u8>,
)
    requires
        faithful::<UD>(),
        Trans::<UD>::fits(v),
    ensures
        Trans::<UD>::parse(Trans::<UD>::wire(v) + rest) == Ok::<
            (TransView<UD::V>, Seq<u8>),
            Error,
        >((v, rest)),
{
    lemma_req_faithful::<UD>();
    match v {
        TransView::Async(req) => {
            lemma_tagged_round_trip::<Req<UD>>(1, req, rest);
        },
        TransView::Sync(req) => {
            lemma_tagged_round_trip::<Req<UD>>(2, req, rest);
        },
    }
}

/// A transaction that was cut short cannot be read.
pub proof fn lemma_trans_truncation<UD: ToBin + FromBin>(v: TransView<UD::V>, n: int)
    requires
        faithful::<UD>(),
        Trans::<UD>::fits(v),
        0 <= n < Trans::<UD>::wire(v).len(),
    ensures
        Trans::<UD>::parse(Trans::<UD>::wire(v).take(n)) == Err::<
            (TransView<UD::V>, Seq<u8>),
            Error,
        >(Error::UnexpectedEOF),
{
    lemma_req_faithful::<UD>();
    match v {
        TransView::Async(req) => {
            lemma_tagged_truncation::<Req<UD>>(1, req, n);
        },
        TransView::Sync(req) => {
            lemma_tagged_truncation::<Req<UD>>(2, req, n);
        },
    }
}

/// The codec of `Trans` is faithful, where that of its payload is.
pub proof fn lemma_trans_faithful<UD: ToBin + FromBin>()
    requires
        faithful::<UD>(),
    ensures
        faithful::<Trans<UD>>(),
{
    assert(round_trips::<Trans<UD>>()) by {
        reveal(round_trips);
        assert forall|v: TransView<UD::V>, rest: Seq<u8>|
            Trans::<UD>::fits(v) implies #[trigger] Trans::<UD>::parse(
            Trans::<UD>::wire(v) + rest,
        ) == Ok::<(TransView<UD::V>, Seq<u8>), Error>((v, rest)) by {
            lemma_trans_round_trip::<UD>(v, rest);
        }
    }
    assert(truncation_fails::<Trans<UD>>()) by {
        reveal(truncation_fails);
        assert forall|v: TransView<UD::V>, n: int|
            Trans::<UD>::fits(v) && 0 <= n < Trans::<UD>::wire(v).len()
            implies #[trigger] Trans::<UD>::parse(Trans::<UD>::wire(v).take(n)) == Err::<
            (TransView<UD::V>, Seq<u8>),
            Error,
        >(Error::UnexpectedEOF) by {
            lemma_trans_truncation::<UD>(v, n);
        }
    }
}

/// A match in front of `rest` is read back with `rest` left over.
pub proof fn lemma_match_round_trip<UD: ToBin + FromBin>(
    v: MatchView<UD::V>,
    rest: Seq<u8>,
)
    requires
        faithful::<UD>(),
        Match::<UD>::fits(v),
    ensures
        Match::<UD>::parse(Match::<UD>::wire(v) + rest) == Ok::<
            (MatchView<UD::V>, Seq<u8>),
            Error,
        >((v, rest)),
{
    lemma_u64_faithful();
    lemma_double_faithful();
    let c = u64::wire(v.cluster_id);
    let s = Double::wire(v.similarity);
    let u = UD::wire(v.user_data);
    assert(Match::<UD>::wire(v) + rest =~= c + (s + (u + rest)));
    lemma_round_trip::<u64>(v.cluster_id, s + (u + rest));
    lemma_round_trip::<Double>(v.similarity, u + rest);
    lemma_round_trip::<UD>(v.user_data, rest);
}

/// A match that was cut short cannot be read.
pub proof fn lemma_match_truncation<UD: ToBin + FromBin>(v: MatchView<UD::V>, n: int)
    requires
        faithful::<UD>(),
        Match::<UD>::fits(v),
        0 <= n < Match::<UD>::wire(v).len(),
    ensures
        Match::<UD>::parse(Match::<UD>::wire(v).take(n)) == Err::<
            (MatchView<UD::V>, Seq<u8>),
            Error,
        >(Error::UnexpectedEOF),
{
    lemma_u64_faithful();
    lemma_double_faithful();
    let c = u64::wire(v.cluster_id);
    let s = Double::wire(v.similarity);
    let u = UD::wire(v.user_data);
    assert(Match::<UD>::wire(v) =~= c + (s + u));
    lemma_field_truncation::<u64>(v.cluster_id, s + u, n);
    let n1 = n - c.len();
    if n1 >= 0 {
        lemma_field_truncation::<Double>(v.similarity, u, n1);
        let n2 = n1 - s.len();
        if n2 >= 0 {
            lemma_truncation::<UD>(v.user_data, n2);
        }
    }
}

/// The codec of `Match` is faithful, where that of its payload is.
pub proof fn lemma_match_faithful<UD: ToBin + FromBin>()
    requires
        faithful::<UD>(),
    ensures
        faithful::<Match<UD>>(),
{
    assert(round_trips::<Match<UD>>()) by {
        reveal(round_trips);
        assert forall|v: MatchView<UD::V>, rest: Seq<u8>|
            Match::<UD>::fits(v) implies #[trigger] Match::<UD>::parse(
            Match::<UD>::wire(v) + rest,
        ) == Ok::<(MatchView<UD::V>, Seq<u8>), Error>((v, rest)) by {
            lemma_match_round_trip::<UD>(v, rest);
        }
    }
    assert(truncation_fails::<Match<UD>>()) by {
        reveal(truncation_fails);
        assert forall|v: MatchView<UD::V>, n: int|
            Match::<UD>::fits(v) && 0 <= n < Match::<UD>::wire(v).len()
            implies #[trigger] Match::<UD>::parse(Match::<UD>::wire(v).take(n)) == Err::<
            (MatchView<UD::V>, Seq<u8>),
            Error,
        >(Error::UnexpectedEOF) by {
            lemma_match_truncation::<UD>(v, n);
        }
    }
}

/// A lookup result in front of `rest` is read back with `rest` left over.
pub proof fn lemma_lookup_result_round_trip<UD: ToBin + FromBin>(
    v: LookupResultView<UD::V>,
    rest: Seq<u8>,
)
    requires
        faithful::<UD>(),
        LookupResult::<UD>::fits(v),
    ensures
        LookupResult::<UD>::parse(LookupResult::<UD>::wire(v) + rest) == Ok::<
            (LookupResultView<UD::V>, Seq<u8>),
            Error,
        >((v, rest)),
{
    lemma_string_faithful();
    lemma_match_faithful::<UD>();
    lemma_workload_faithful::<Match<UD>>();
    match v {
        LookupResultView::EmptySet => {
            lemma_tag(1, rest);
        },
        LookupResultView::Best(m) => {
            lemma_tagged_round_trip::<Match<UD>>(2, m, rest);
        },
        LookupResultView::Neighbours(workload) => {
            lemma_tagged_round_trip::<Workload<Match<UD>>>(3, workload, rest);
        },
        LookupResultView::Error(message) => {
            lemma_tagged_round_trip::<String>(4, message, rest);
        },
    }
}

/// A lookup result that was cut short cannot be read.
pub proof fn lemma_lookup_result_truncation<UD: ToBin + FromBin>(v: LookupResultView<UD::V>, n: int)
    requires
        faithful::<UD>(),
        LookupResult::<UD>::fits(v),
        0 <= n < LookupResult::<UD>::wire(v).len(),
    ensures
        LookupResult::<UD>::parse(LookupResult::<UD>::wire(v).take(n)) == Err::<
            (LookupResultView<UD::V>, Seq<u8>),
            Error,
        >(Error::UnexpectedEOF),
{
    lemma_string_faithful();
    lemma_match_faithful::<UD>();
    lemma_workload_faithful::<Match<UD>>();
    match v {
        LookupResultView::EmptySet => {},
        LookupResultView::Best(m) => {
            lemma_tagged_truncation::<Match<UD>>(2, m, n);
        },
        LookupResultView::Neighbours(workload) => {
            lemma_tagged_truncation::<Workload<Match<UD>>>(3, workload, n);
        },
        LookupResultView::Error(message) => {
            lemma_tagged_truncation::<String>(4, message, n);
        },
    }
}

/// The codec of `LookupResult` is faithful, where that of its payload is.
pub proof fn lemma_lookup_result_faithful<UD: ToBin + FromBin>()
    requires
        faithful::<UD>(),
    ensures
        faithful::<LookupResult<UD>>(),
{
    assert(round_trips::<LookupResult<UD>>()) by {
        reveal(round_trips);
        assert forall|v: LookupResultView<UD::V>, rest: Seq<u8>|
            LookupResult::<UD>::fits(v) implies #[trigger] LookupResult::<UD>::parse(
            LookupResult::<UD>::wire(v) + rest,
        ) == Ok::<(LookupResultView<UD::V>, Seq<u8>), Error>((v, rest)) by {
            lemma_lookup_result_round_trip::<UD>(v, rest);
        }
    }
    assert(truncation_fails::<LookupResult<UD>>()) by {
        reveal(truncation_fails);
        assert forall|v: LookupResultView<UD::V>, n: int|
            LookupResult::<UD>::fits(v) && 0 <= n < LookupResult::<UD>::wire(v).len()
            implies #[trigger] LookupResult::<UD>::parse(LookupResult::<UD>::wire(v).take(n)) == Err::<
            (LookupResultView<UD::V>, Seq<u8>),
            Error,
        >(Error::UnexpectedEOF) by {
            lemma_lookup_result_truncation::<UD>(v, n);
        }
    }
}

/// A reply in front of `rest` is read back with `rest` left over.
pub proof fn lemma_rep_round_trip<UD: ToBin + FromBin>(
    v: RepView<UD::V>,
    rest: Seq<u8>,
)
    requires
        faithful::<UD>(),
        Rep::<UD>::fits(v),
    ensures
        Rep::<UD>::parse(Rep::<UD>::wire(v) + rest) == Ok::<
            (RepView<UD::V>, Seq<u8>),
            Error,
        >((v, rest)),
{
    lemma_req_faithful::<UD>();
    lemma_lookup_result_faithful::<UD>();
    lemma_workload_faithful::<LookupResult<UD>>();
    match v {
        RepView::InitAck => {
            lemma_tag(1, rest);
        },
        RepView::Result(workload) => {
            lemma_tagged_round_trip::<Workload<LookupResult<UD>>>(2, workload, rest);
        },
        RepView::TerminateAck => {
            lemma_tag(3, rest);
        },
        RepView::Unexpected(req) => {
            lemma_tagged_round_trip::<Req<UD>>(4, req, rest);
        },
        RepView::TooBusy => {
            lemma_tag(5, rest);
        },
        RepView::WantCrash => {
            lemma_tag(6, rest);
        },
    }
}

/// A reply that was cut short cannot be read.
pub proof fn lemma_rep_truncation<UD: ToBin + FromBin>(v: RepView<UD::V>, n: int)
    requires
        faithful::<UD>(),
        Rep::<UD>::fits(v),
        0 <= n < Rep::<UD>::wire(v).len(),
    ensures
        Rep::<UD>::parse(Rep::<UD>::wire(v).take(n)) == Err::<
            (RepView<UD::V>, Seq<u8>),
            Error,
        >(Error::UnexpectedEOF),
{
    lemma_req_faithful::<UD>();
    lemma_lookup_result_faithful::<UD>();
    lemma_workload_faithful::<LookupResult<UD>>();
    match v {
        RepView::InitAck => {},
        RepView::Result(workload) => {
            lemma_tagged_truncation::<Workload<LookupResult<UD>>>(2, workload, n);
        },
        RepView::TerminateAck => {},
        RepView::Unexpected(req) => {
            lemma_tagged_truncation::<Req<UD>>(4, req, n);
        },
        RepView::TooBusy => {},
        RepView::WantCrash => {},
    }
}

/// The codec of `Rep` is faithful, where that of its payload is.
pub proof fn lemma_rep_faithful<UD: ToBin + FromBin>()
    requires
        faithful::<UD>(),
    ensures
        faithful::<Rep<UD>>(),
{
    assert(round_trips::<Rep<UD>>()) by {
        reveal(round_trips);
        assert forall|v: RepView<UD::V>, rest: Seq<u8>|
            Rep::<UD>::fits(v) implies #[trigger] Rep::<UD>::parse(
            Rep::<UD>::wire(v) + rest,
        ) == Ok::<(RepView<UD::V>, Seq<u8>), Error>((v, rest)) by {
            lemma_rep_round_trip::<UD>(v, rest);
        }
    }
    assert(truncation_fails::<Rep<UD>>()) by {
        reveal(truncation_fails);
        assert forall|v: RepView<UD::V>, n: int|
            Rep::<UD>::fits(v) && 0 <= n < Rep::<UD>::wire(v).len()
            implies #[trigger] Rep::<UD>::parse(Rep::<UD>::wire(v).take(n)) == Err::<
            (RepView<UD::V>, Seq<u8>),
            Error,
        >(Error::UnexpectedEOF) by {
            lemma_rep_truncation::<UD>(v, n);
        }
    }
}

/// The codec of a shared value is faithful where that of the value is.
pub proof fn lemma_arc_faithful<T: ToBin + FromBin>()
    requires
        faithful::<T>(),
    ensures
        faithful::<Arc<T>>(),
{
    reveal(round_trips);
    reveal(truncation_fails);
    assert forall|v: T::V, rest: Seq<u8>| T::fits(v) implies #[trigger] Arc::<T>::parse(
        Arc::<T>::wire(v) + rest,
    ) == Ok::<(T::V, Seq<u8>), Error>((v, rest)) by {
        assert(T::parse(T::wire(v) + rest) == Ok::<(T::V, Seq<u8>), Error>((v, rest)));
    }
    assert forall|v: T::V, n: int|
        T::fits(v) && 0 <= n < Arc::<T>::wire(v).len() implies #[trigger] Arc::<T>::parse(
        Arc::<T>::wire(v).take(n),
    ) == Err::<(T::V, Seq<u8>), Error>(Error::UnexpectedEOF) by {
        assert(T::parse(T::wire(v).take(n)) == Err::<(T::V, Seq<u8>), Error>(
            Error::UnexpectedEOF,
        ));
    }
}

/// Requests and replies are decoded to what was encoded, and not at all once cut short,
/// where the same holds of their payload.
pub proof fn lemma_messages_faithful<UD: ToBin + FromBin>()
    requires
        faithful::<UD>(),
    ensures
        faithful::<Trans<UD>>(),
        faithful::<Rep<UD>>(),
{
    lemma_trans_faithful::<UD>();
    lemma_rep_faithful::<UD>();
}

/// Requests and replies that carry a string are decoded to what was encoded, and not at
/// all once cut short.
pub proof fn lemma_string_messages_faithful()
    ensures
        faithful::<Trans<String>>(),
        faithful::<Rep<String>>(),
{
    lemma_string_faithful();
    lemma_messages_faithful::<String>();
}

/// Requests and replies that carry a double are decoded to what was encoded, and not at
/// all once cut short.
pub proof fn lemma_double_messages_faithful()
    ensures
        faithful::<Trans<Double>>(),
        faithful::<Rep<Double>>(),
{
    lemma_double_faithful();
    lemma_messages_faithful::<Double>();
}

/// A request whose first byte was replaced by one that names no variant of `Trans` is
/// refused, and the error holds that byte.
pub proof fn lemma_trans_unknown_tag<UD: ToBin + FromBin>(v: TransView<UD::V>, tag: u8)
    requires
        tag != 1,
        tag != 2,
    ensures
        Trans::<UD>::wire(v).len() > 0,
        Trans::<UD>::parse(Trans::<UD>::wire(v).update(0, tag)) == Err::<
            (TransView<UD::V>, Seq<u8>),
            Error,
        >(Error::InvalidTag(tag)),
{
}

/// A request body whose first byte was replaced by one that names no variant of `Req` is
/// refused, and the error holds that byte.
pub proof fn lemma_req_unknown_tag<UD: ToBin + FromBin>(v: ReqView<UD::V>, tag: u8)
    requires
        tag != 1,
        tag != 2,
        tag != 3,
    ensures
        Req::<UD>::wire(v).len() > 0,
        Req::<UD>::parse(Req::<UD>::wire(v).update(0, tag)) == Err::<
            (ReqView<UD::V>, Seq<u8>),
            Error,
        >(Error::InvalidTag(tag)),
{
}

/// A reply whose first byte was replaced by one that names no variant of `Rep` is refused,
/// and the error holds that byte.
pub proof fn lemma_rep_unknown_tag<UD: ToBin + FromBin>(v: RepView<UD::V>, tag: u8)
    requires
        tag == 0 || tag > 6,
    ensures
        Rep::<UD>::wire(v).len() > 0,
        Rep::<UD>::parse(Rep::<UD>::wire(v).update(0, tag)) == Err::<
            (RepView<UD::V>, Seq<u8>),
            Error,
        >(Error::InvalidTag(tag)),
{
}

} // verus!
