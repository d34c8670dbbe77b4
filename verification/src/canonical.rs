//! The converse of the round trip: what is decoded fits, and the bytes that were read are
//! its encoding. So no two byte strings stand for one value, and what was decoded can be
//! encoded again.
//!
//! The statements are generic in the payload type: they ask of it what they give for the
//! messages built around it.

use vstd::prelude::*;
use std::sync::Arc;
use vstd::utf8::*;
use crate::bin::{fits_all, parse_all, wire_all, FromBin, ToBin};
use crate::double::{Double, Single};
use crate::framing::{parse_u16, parse_u32, parse_u64, parse_u8};
use crate::le::{lemma_u16_le, lemma_u32_le, lemma_u64_le, u16_to_le, u32_to_le, u64_to_le};
use crate::scalars::{parse_string, wire_string};
use crate::{
    AssignCond, ClusterAssign, ClusterChoice, InsertCond, LookupResult, LookupTask, LookupType,
    Match, PostAction, Rep, Req, Trans, Workload,
};

verus! {

/// If a value is decoded from `area`, it fits, and `area` is its encoding and the rest.
pub open spec fn reads_exactly<T: ToBin + FromBin>(area: Seq<u8>) -> bool {
    T::parse(area) matches Ok((v, rest)) ==> T::fits(v) && area == T::wire(v) + rest
}

/// Whatever is decoded fits, and the bytes in front of the rest are its encoding.
#[verifier::opaque]
pub open spec fn canonical<T: ToBin + FromBin>() -> bool {
    forall|area: Seq<u8>| #[trigger] reads_exactly::<T>(area)
}

/// What was decoded from one buffer.
pub proof fn lemma_canonical<T: ToBin + FromBin>(area: Seq<u8>)
    requires
        canonical::<T>(),
    ensures
        T::parse(area) matches Ok((v, rest)) ==> T::fits(v) && area == T::wire(v) + rest,
{
    reveal(canonical);
    assert(reads_exactly::<T>(area));
}

/// What was decoded can be encoded again, into as many bytes as were read.
pub proof fn lemma_decoded_fits<T: ToBin + FromBin>(area: Seq<u8>)
    requires
        canonical::<T>(),
    ensures
        T::parse(area) matches Ok((v, rest)) ==> T::fits(v) && T::wire(v).len() + rest.len()
            == area.len(),
{
    lemma_canonical::<T>(area);
}

/// A byte that was read stood in front of the rest.
pub proof fn lemma_u8_read(area: Seq<u8>)
    ensures
        parse_u8(area) matches Ok((b, rest)) ==> area == seq![b] + rest,
{
    if let Ok((b, rest)) = parse_u8(area) {
        assert(area =~= seq![b] + rest);
    }
}

/// A 16-bit number that was read stood in front of the rest, least significant byte
/// first.
pub proof fn lemma_u16_read(area: Seq<u8>)
    ensures
        parse_u16(area) matches Ok((x, rest)) ==> area == u16_to_le(x) + rest,
{
    if let Ok((x, rest)) = parse_u16(area) {
        lemma_u16_le();
        assert(area.take(2).len() == 2);
        assert(area =~= area.take(2) + rest);
    }
}

/// A 32-bit number that was read stood in front of the rest, least significant byte
/// first.
pub proof fn lemma_u32_read(area: Seq<u8>)
    ensures
        parse_u32(area) matches Ok((x, rest)) ==> area == u32_to_le(x) + rest,
{
    if let Ok((x, rest)) = parse_u32(area) {
        lemma_u32_le();
        assert(area.take(4).len() == 4);
        assert(area =~= area.take(4) + rest);
    }
}

/// A 64-bit number that was read stood in front of the rest, least significant byte
/// first.
pub proof fn lemma_u64_read(area: Seq<u8>)
    ensures
        parse_u64(area) matches Ok((x, rest)) ==> area == u64_to_le(x) + rest,
{
    if let Ok((x, rest)) = parse_u64(area) {
        lemma_u64_le();
        assert(area.take(8).len() == 8);
        assert(area =~= area.take(8) + rest);
    }
}

/// The codec of `u8` is canonical.
pub proof fn lemma_u8_canonical()
    ensures
        canonical::<u8>(),
{
    reveal(canonical);
    assert forall|area: Seq<u8>| #[trigger] reads_exactly::<u8>(area) by {
        lemma_u8_read(area);
    }
}

/// The codec of `i8` is canonical.
pub proof fn lemma_i8_canonical()
    ensures
        canonical::<i8>(),
{
    reveal(canonical);
    assert forall|area: Seq<u8>| #[trigger] reads_exactly::<i8>(area) by {
        lemma_u8_read(area);
        if let Ok((x, rest)) = parse_u8(area) {
            assert((x as i8) as u8 == x) by (bit_vector);
        }
    }
}

/// The codec of `u16` is canonical.
pub proof fn lemma_u16_canonical()
    ensures
        canonical::<u16>(),
{
    reveal(canonical);
    assert forall|area: Seq<u8>| #[trigger] reads_exactly::<u16>(area) by {
        lemma_u16_read(area);
    }
}

/// The codec of `i16` is canonical.
pub proof fn lemma_i16_canonical()
    ensures
        canonical::<i16>(),
{
    reveal(canonical);
    assert forall|area: Seq<u8>| #[trigger] reads_exactly::<i16>(area) by {
        lemma_u16_read(area);
        if let Ok((x, rest)) = parse_u16(area) {
            assert((x as i16) as u16 == x) by (bit_vector);
        }
    }
}

/// The codec of `u32` is canonical.
pub proof fn lemma_u32_canonical()
    ensures
        canonical::<u32>(),
{
    reveal(canonical);
    assert forall|area: Seq<u8>| #[trigger] reads_exactly::<u32>(area) by {
        lemma_u32_read(area);
    }
}

/// The codec of `i32` is canonical.
pub proof fn lemma_i32_canonical()
    ensures
        canonical::<i32>(),
{
    reveal(canonical);
    assert forall|area: Seq<u8>| #[trigger] reads_exactly::<i32>(area) by {
        lemma_u32_read(area);
        if let Ok((x, rest)) = parse_u32(area) {
            assert((x as i32) as u32 == x) by (bit_vector);
        }
    }
}

/// The codec of `u64` is canonical.
pub proof fn lemma_u64_canonical()
    ensures
        canonical::<u64>(),
{
    reveal(canonical);
    assert forall|area: Seq<u8>| #[trigger] reads_exactly::<u64>(area) by {
        lemma_u64_read(area);
    }
}

/// The codec of `i64` is canonical.
pub proof fn lemma_i64_canonical()
    ensures
        canonical::<i64>(),
{
    reveal(canonical);
    assert forall|area: Seq<u8>| #[trigger] reads_exactly::<i64>(area) by {
        lemma_u64_read(area);
        if let Ok((x, rest)) = parse_u64(area) {
            assert((x as i64) as u64 == x) by (bit_vector);
        }
    }
}

/// The codec of `Single` is canonical.
pub proof fn lemma_single_canonical()
    ensures
        canonical::<Single>(),
{
    reveal(canonical);
    assert forall|area: Seq<u8>| #[trigger] reads_exactly::<Single>(area) by {
        lemma_u32_read(area);
    }
}

/// The codec of `Double` is canonical.
pub proof fn lemma_double_canonical()
    ensures
        canonical::<Double>(),
{
    reveal(canonical);
    assert forall|area: Seq<u8>| #[trigger] reads_exactly::<Double>(area) by {
        lemma_u64_read(area);
    }
}

/// A string that was read fits, and its length and bytes stood in front of the rest.
pub proof fn lemma_string_read(area: Seq<u8>)
    ensures
        parse_string(area) matches Ok((v, rest)) ==> String::fits(v) && area == wire_string(v)
            + rest,
{
    reveal(wire_string);
    reveal(parse_string);
    if let Ok((v, rest)) = parse_string(area) {
        lemma_u32_read(area);
        let (len, body) = parse_u32(area)->Ok_0;
        let text = body.take(len as int);
        decode_utf8_encode_utf8(text);
        assert(body =~= text + rest);
        assert(area =~= wire_string(v) + rest);
    }
}

/// The codec of `String` is canonical.
pub proof fn lemma_string_canonical()
    ensures
        canonical::<String>(),
{
    reveal(canonical);
    assert forall|area: Seq<u8>| #[trigger] reads_exactly::<String>(area) by {
        lemma_string_read(area);
    }
}

/// The codec of a shared value is canonical where that of the value is.
pub proof fn lemma_arc_canonical<T: ToBin + FromBin>()
    requires
        canonical::<T>(),
    ensures
        canonical::<Arc<T>>(),
{
    reveal(canonical);
    assert forall|area: Seq<u8>| #[trigger] reads_exactly::<Arc<T>>(area) by {
        assert(reads_exactly::<T>(area));
    }
}

/// A lookup type that was read fits, and its encoding stood in front of the rest.
pub proof fn lemma_lookup_type_read(area: Seq<u8>)
    ensures
        reads_exactly::<LookupType>(area),
{
    lemma_u8_read(area);
    if let Ok((tag, body)) = parse_u8(area) {
    }
}

/// The codec of `LookupType` is canonical.
pub proof fn lemma_lookup_type_canonical()
    ensures
        canonical::<LookupType>(),
{
    reveal(canonical);
    assert forall|area: Seq<u8>| #[trigger] reads_exactly::<LookupType>(area) by {
        lemma_lookup_type_read(area);
    }
}

/// An insertion gate that was read fits, and its encoding stood in front of the rest.
pub proof fn lemma_insert_cond_read(area: Seq<u8>)
    ensures
        reads_exactly::<InsertCond>(area),
{
    lemma_double_canonical();
    lemma_u8_read(area);
    if let Ok((tag, body)) = parse_u8(area) {
        if tag == 2 {
            lemma_canonical::<Double>(body);
            if let Ok((x, rest)) = Double::parse(body) {
                assert(area =~= (seq![2u8] + Double::wire(x)) + rest);
            }
        }
    }
}

/// The codec of `InsertCond` is canonical.
pub proof fn lemma_insert_cond_canonical()
    ensures
        canonical::<InsertCond>(),
{
    reveal(canonical);
    assert forall|area: Seq<u8>| #[trigger] reads_exactly::<InsertCond>(area) by {
        lemma_insert_cond_read(area);
    }
}

/// An assignment gate that was read fits, and its encoding stood in front of the rest.
pub proof fn lemma_assign_cond_read(area: Seq<u8>)
    ensures
        reads_exactly::<AssignCond>(area),
{
    lemma_double_canonical();
    lemma_u8_read(area);
    if let Ok((tag, body)) = parse_u8(area) {
        if tag == 2 {
            lemma_canonical::<Double>(body);
            if let Ok((x, rest)) = Double::parse(body) {
                assert(area =~= (seq![2u8] + Double::wire(x)) + rest);
            }
        }
    }
}

/// The codec of `AssignCond` is canonical.
pub proof fn lemma_assign_cond_canonical()
    ensures
        canonical::<AssignCond>(),
{
    reveal(canonical);
    assert forall|area: Seq<u8>| #[trigger] reads_exactly::<AssignCond>(area) by {
        lemma_assign_cond_read(area);
    }
}

/// A cluster choice that was read fits, and its encoding stood in front of the rest.
pub proof fn lemma_cluster_choice_read(area: Seq<u8>)
    ensures
        reads_exactly::<ClusterChoice>(area),
{
    lemma_u64_canonical();
    lemma_u8_read(area);
    if let Ok((tag, body)) = parse_u8(area) {
        if tag == 2 {
            lemma_canonical::<u64>(body);
            if let Ok((x, rest)) = u64::parse(body) {
                assert(area =~= (seq![2u8] + u64::wire(x)) + rest);
            }
        }
    }
}

/// The codec of `ClusterChoice` is canonical.
pub proof fn lemma_cluster_choice_canonical()
    ensures
        canonical::<ClusterChoice>(),
{
    reveal(canonical);
    assert forall|area: Seq<u8>| #[trigger] reads_exactly::<ClusterChoice>(area) by {
        lemma_cluster_choice_read(area);
    }
}

/// A cluster assignment that was read fits, and its encoding stood in front of the rest.
pub proof fn lemma_cluster_assign_read(area: Seq<u8>)
    ensures
        reads_exactly::<ClusterAssign>(area),
{
    lemma_assign_cond_canonical();
    lemma_cluster_choice_canonical();
    lemma_canonical::<AssignCond>(area);
    if let Ok((x0, r0)) = AssignCond::parse(area) {
        lemma_canonical::<ClusterChoice>(r0);
        if let Ok((x1, rest)) = ClusterChoice::parse(r0) {
            let bytes = AssignCond::wire(x0)
                + ClusterChoice::wire(x1);
            assert(area =~= bytes + rest);
        }
    }
}

/// The codec of `ClusterAssign` is canonical.
pub proof fn lemma_cluster_assign_canonical()
    ensures
        canonical::<ClusterAssign>(),
{
    reveal(canonical);
    assert forall|area: Seq<u8>| #[trigger] reads_exactly::<ClusterAssign>(area) by {
        lemma_cluster_assign_read(area);
    }
}

/// The items of a batch that were read are as many as were asked for, each fits, and
/// their encodings stood in front of the rest one after the other.
pub proof fn lemma_parse_all_read<T: ToBin + FromBin>(area: Seq<u8>, count: nat)
    requires
        canonical::<T>(),
    ensures
        parse_all::<T>(area, count) matches Ok((items, rest)) ==> items.len() == count
            && fits_all::<T>(items) && area == wire_all::<T>(items) + rest,
    decreases count,
{
    if let Ok((items, rest)) = parse_all::<T>(area, count) {
        if count == 0 {
            assert(area =~= wire_all::<T>(items) + rest);
        } else {
            lemma_canonical::<T>(area);
            let (first, r0) = T::parse(area)->Ok_0;
            lemma_parse_all_read::<T>(r0, (count - 1) as nat);
            let (others, _) = parse_all::<T>(r0, (count - 1) as nat)->Ok_0;
            assert(items.drop_first() =~= others);
            assert(area =~= wire_all::<T>(items) + rest);
        }
    }
}

/// A workload that was read fits, and its encoding stood in front of the rest.
#[verifier::rlimit(30)]
pub proof fn lemma_workload_read<T: ToBin + FromBin>(area: Seq<u8>)
    requires
        canonical::<T>(),
    ensures
        reads_exactly::<Workload<T>>(area),
{
    lemma_u8_read(area);
    if let Ok((tag, body)) = parse_u8(area) {
        lemma_canonical::<T>(body);
        lemma_u32_read(body);
        if let Ok((count, items)) = parse_u32(body) {
            lemma_parse_all_read::<T>(items, count as nat);
        }
        if let Ok((v, rest)) = Workload::<T>::parse(area) {
            assert(area =~= Workload::<T>::wire(v) + rest);
        }
    }
}

/// The codec of `Workload` is canonical, where that of its payload is.
pub proof fn lemma_workload_canonical<T: ToBin + FromBin>()
    requires
        canonical::<T>(),
    ensures
        canonical::<Workload<T>>(),
{
    reveal(canonical);
    assert forall|area: Seq<u8>| #[trigger] reads_exactly::<Workload<T>>(area) by {
        lemma_workload_read::<T>(area);
    }
}

/// A post action that was read fits, and its encoding stood in front of the rest.
#[verifier::rlimit(30)]
pub proof fn lemma_post_action_read<UD: ToBin + FromBin>(area: Seq<u8>)
    requires
        canonical::<UD>(),
    ensures
        reads_exactly::<PostAction<UD>>(area),
{
    lemma_insert_cond_canonical();
    lemma_cluster_assign_canonical();
    lemma_u8_read(area);
    if let Ok((tag, body)) = parse_u8(area) {
        if tag == 2 {
            lemma_canonical::<InsertCond>(body);
            if let Ok((x0, r0)) = InsertCond::parse(body) {
                lemma_canonical::<ClusterAssign>(r0);
                if let Ok((x1, r1)) = ClusterAssign::parse(r0) {
                    lemma_canonical::<UD>(r1);
                    if let Ok((x2, rest)) = UD::parse(r1) {
                        let bytes = seq![2u8]
                            + InsertCond::wire(x0)
                            + ClusterAssign::wire(x1)
                            + UD::wire(x2);
                        assert(area =~= bytes + rest);
                    }
                }
            }
        }
    }
}

/// The codec of `PostAction` is canonical, where that of its payload is.
pub proof fn lemma_post_action_canonical<UD: ToBin + FromBin>()
    requires
        canonical::<UD>(),
    ensures
        canonical::<PostAction<UD>>(),
{
    reveal(canonical);
    assert forall|area: Seq<u8>| #[trigger] reads_exactly::<PostAction<UD>>(area) by {
        lemma_post_action_read::<UD>(area);
    }
}

/// A lookup task that was read fits, and its encoding stood in front of the rest.
#[verifier::rlimit(30)]
pub proof fn lemma_lookup_task_read<UD: ToBin + FromBin>(area: Seq<u8>)
    requires
        canonical::<UD>(),
    ensures
        reads_exactly::<LookupTask<UD>>(area),
{
    lemma_string_canonical();
    lemma_lookup_type_canonical();
    lemma_post_action_canonical::<UD>();
    lemma_canonical::<String>(area);
    if let Ok((x0, r0)) = String::parse(area) {
        lemma_canonical::<LookupType>(r0);
        if let Ok((x1, r1)) = LookupType::parse(r0) {
            lemma_canonical::<PostAction<UD>>(r1);
            if let Ok((x2, rest)) = PostAction::<UD>::parse(r1) {
                let bytes = String::wire(x0)
                    + LookupType::wire(x1)
                    + PostAction::<UD>::wire(x2);
                assert(area =~= bytes + rest);
            }
        }
    }
}

/// The codec of `LookupTask` is canonical, where that of its payload is.
pub proof fn lemma_lookup_task_canonical<UD: ToBin + FromBin>()
    requires
        canonical::<UD>(),
    ensures
        canonical::<LookupTask<UD>>(),
{
    reveal(canonical);
    assert forall|area: Seq<u8>| #[trigger] reads_exactly::<LookupTask<UD>>(area) by {
        lemma_lookup_task_read::<UD>(area);
    }
}

/// A request that was read fits, and its encoding stood in front of the rest.
#[verifier::rlimit(30)]
pub proof fn lemma_req_read<UD: ToBin + FromBin>(area: Seq<u8>)
    requires
        canonical::<UD>(),
    ensures
        reads_exactly::<Req<UD>>(area),
{
    lemma_lookup_task_canonical::<UD>();
    lemma_workload_canonical::<LookupTask<UD>>();
    lemma_u8_read(area);
    if let Ok((tag, body)) = parse_u8(area) {
        if tag == 2 {
            lemma_canonical::<Workload<LookupTask<UD>>>(body);
            if let Ok((x, rest)) = Workload::<LookupTask<UD>>::parse(body) {
                assert(area =~= (seq![2u8] + Workload::<LookupTask<UD>>::wire(x)) + rest);
            }
        }
    }
}

/// The codec of `Req` is canonical, where that of its payload is.
pub proof fn lemma_req_canonical<UD: ToBin + FromBin>()
    requires
        canonical::<UD>(),
    ensures
        canonical::<Req<UD>>(),
{
    reveal(canonical);
    assert forall|area: Seq<u8>| #[trigger] reads_exactly::<Req<UD>>(area) by {
        lemma_req_read::<UD>(area);
    }
}

/// A transaction that was read fits, and its encoding stood in front of the rest.
#[verifier::rlimit(30)]
pub proof fn lemma_trans_read<UD: ToBin + FromBin>(area: Seq<u8>)
    requires
        canonical::<UD>(),
    ensures
        reads_exactly::<Trans<UD>>(area),
{
    lemma_req_canonical::<UD>();
    lemma_u8_read(area);
    if let Ok((tag, body)) = parse_u8(area) {
        if tag == 1 {
            lemma_canonical::<Req<UD>>(body);
            if let Ok((x, rest)) = Req::<UD>::parse(body) {
                assert(area =~= (seq![1u8] + Req::<UD>::wire(x)) + rest);
            }
        }
        if tag == 2 {
            lemma_canonical::<Req<UD>>(body);
            if let Ok((x, rest)) = Req::<UD>::parse(body) {
                assert(area =~= (seq![2u8] + Req::<UD>::wire(x)) + rest);
            }
        }
    }
}

/// The codec of `Trans` is canonical, where that of its payload is.
pub proof fn lemma_trans_canonical<UD: ToBin + FromBin>()
    requires
        canonical::<UD>(),
    ensures
        canonical::<Trans<UD>>(),
{
    reveal(canonical);
    assert forall|area: Seq<u8>| #[trigger] reads_exactly::<Trans<UD>>(area) by {
        lemma_trans_read::<UD>(area);
    }
}

/// A match that was read fits, and its encoding stood in front of the rest.
#[verifier::rlimit(30)]
pub proof fn lemma_match_read<UD: ToBin + FromBin>(area: Seq<u8>)
    requires
        canonical::<UD>(),
    ensures
        reads_exactly::<Match<UD>>(area),
{
    lemma_u64_canonical();
    lemma_double_canonical();
    lemma_canonical::<u64>(area);
    if let Ok((x0, r0)) = u64::parse(area) {
        lemma_canonical::<Double>(r0);
        if let Ok((x1, r1)) = Double::parse(r0) {
            lemma_canonical::<UD>(r1);
            if let Ok((x2, rest)) = UD::parse(r1) {
                let bytes = u64::wire(x0)
                    + Double::wire(x1)
                    + UD::wire(x2);
                assert(area =~= bytes + rest);
            }
        }
    }
}

/// The codec of `Match` is canonical, where that of its payload is.
pub proof fn lemma_match_canonical<UD: ToBin + FromBin>()
    requires
        canonical::<UD>(),
    ensures
        canonical::<Match<UD>>(),
{
    reveal(canonical);
    assert forall|area: Seq<u8>| #[trigger] reads_exactly::<Match<UD>>(area) by {
        lemma_match_read::<UD>(area);
    }
}

/// A lookup result that was read fits, and its encoding stood in front of the rest.
#[verifier::rlimit(30)]
pub proof fn lemma_lookup_result_read<UD: ToBin + FromBin>(area: Seq<u8>)
    requires
        canonical::<UD>(),
    ensures
        reads_exactly::<LookupResult<UD>>(area),
{
    lemma_string_canonical();
    lemma_match_canonical::<UD>();
    lemma_workload_canonical::<Match<UD>>();
    lemma_u8_read(area);
    if let Ok((tag, body)) = parse_u8(area) {
        if tag == 2 {
            lemma_canonical::<Match<UD>>(body);
            if let Ok((x, rest)) = Match::<UD>::parse(body) {
                assert(area =~= (seq![2u8] + Match::<UD>::wire(x)) + rest);
            }
        }
        if tag == 3 {
            lemma_canonical::<Workload<Match<UD>>>(body);
            if let Ok((x, rest)) = Workload::<Match<UD>>::parse(body) {
                assert(area =~= (seq![3u8] + Workload::<Match<UD>>::wire(x)) + rest);
            }
        }
        if tag == 4 {
            lemma_canonical::<String>(body);
            if let Ok((x, rest)) = String::parse(body) {
                assert(area =~= (seq![4u8] + String::wire(x)) + rest);
            }
        }
    }
}

/// The codec of `LookupResult` is canonical, where that of its payload is.
pub proof fn lemma_lookup_result_canonical<UD: ToBin + FromBin>()
    requires
        canonical::<UD>(),
    ensures
        canonical::<LookupResult<UD>>(),
{
    reveal(canonical);
    assert forall|area: Seq<u8>| #[trigger] reads_exactly::<LookupResult<UD>>(area) by {
        lemma_lookup_result_read::<UD>(area);
    }
}

/// A reply that was read fits, and its encoding stood in front of the rest.
#[verifier::rlimit(30)]
pub proof fn lemma_rep_read<UD: ToBin + FromBin>(area: Seq<u8>)
    requires
        canonical::<UD>(),
    ensures
        reads_exactly::<Rep<UD>>(area),
{
    lemma_req_canonical::<UD>();
    lemma_lookup_result_canonical::<UD>();
    lemma_workload_canonical::<LookupResult<UD>>();
    lemma_u8_read(area);
    if let Ok((tag, body)) = parse_u8(area) {
        if tag == 2 {
            lemma_canonical::<Workload<LookupResult<UD>>>(body);
            if let Ok((x, rest)) = Workload::<LookupResult<UD>>::parse(body) {
                assert(area =~= (seq![2u8] + Workload::<LookupResult<UD>>::wire(x)) + rest);
            }
        }
        if tag == 4 {
            lemma_canonical::<Req<UD>>(body);
            if let Ok((x, rest)) = Req::<UD>::parse(body) {
                assert(area =~= (seq![4u8] + Req::<UD>::wire(x)) + rest);
            }
        }
    }
}

/// The codec of `Rep` is canonical, where that of its payload is.
pub proof fn lemma_rep_canonical<UD: ToBin + FromBin>()
    requires
        canonical::<UD>(),
    ensures
        canonical::<Rep<UD>>(),
{
    reveal(canonical);
    assert forall|area: Seq<u8>| #[trigger] reads_exactly::<Rep<UD>>(area) by {
        lemma_rep_read::<UD>(area);
    }
}

/// Requests and replies that were decoded fit, and the bytes that were read are their
/// encodings, where the same holds of their payload.
pub proof fn lemma_messages_canonical<UD: ToBin + FromBin>()
    requires
        canonical::<UD>(),
    ensures
        canonical::<Trans<UD>>(),
        canonical::<Rep<UD>>(),
{
    lemma_trans_canonical::<UD>();
    lemma_rep_canonical::<UD>();
}

/// Requests and replies that carry a string have one encoding each.
pub proof fn lemma_string_messages_canonical()
    ensures
        canonical::<Trans<String>>(),
        canonical::<Rep<String>>(),
{
    lemma_string_canonical();
    lemma_messages_canonical::<String>();
}

/// Requests and replies that carry a double have one encoding each.
pub proof fn lemma_double_messages_canonical()
    ensures
        canonical::<Trans<Double>>(),
        canonical::<Rep<Double>>(),
{
    lemma_double_canonical();
    lemma_messages_canonical::<Double>();
}

} // verus!
