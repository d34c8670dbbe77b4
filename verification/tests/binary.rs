use cluster_proto::bin::{decimal_text, Error, FromBin, ToBin};
use std::sync::Arc;
use cluster_proto::{
    AssignCond, ClusterAssign, ClusterChoice, Double, InsertCond, LookupResult, LookupTask,
    LookupType, Match, PostAction, Rep, Req, Single, Trans, Workload,
};

fn encode<T: ToBin>(value: &T) -> Vec<u8> {
    let required = value.encode_len();
    let mut packet: Vec<u8> = (0..required).map(|_| 0).collect();
    {
        let area = value.encode(&mut packet);
        assert_eq!(area.len(), 0);
    }
    packet
}

fn encode_decode<T>(value: T) -> T
where
    T: ToBin + FromBin,
{
    let packet = encode(&value);
    let (decoded, area) = <T as FromBin>::decode(&packet).unwrap();
    assert_eq!(area.len(), 0);
    decoded
}

fn encode_decode_req(req: Trans<String>) -> Trans<String> {
    encode_decode(req)
}

fn encode_decode_rep(rep: Rep<String>) -> Rep<String> {
    encode_decode(rep)
}

fn double(x: f64) -> Double {
    Double::from_bits(x.to_bits())
}

#[test]
fn bin_req_00_async() {
    match encode_decode_req(Trans::Async(Req::Init)) {
        Trans::Async(Req::Init) => (),
        other => panic!("bad result: {:?}", other),
    }
}

#[test]
fn bin_req_00_sync() {
    match encode_decode_req(Trans::Sync(Req::Init)) {
        Trans::Sync(Req::Init) => (),
        other => panic!("bad result: {:?}", other),
    }
}

#[test]
fn bin_req_01() {
    match encode_decode_req(Trans::Async(Req::Lookup(Workload::Single(LookupTask {
        text: "hello world".to_owned(),
        result: LookupType::All,
        post_action: PostAction::NoAction,
    })))) {
        Trans::Async(Req::Lookup(Workload::Single(LookupTask {
            text: ref lookup_text,
            result: LookupType::All,
            post_action: PostAction::NoAction,
        }))) if lookup_text == "hello world" => (),
        other => panic!("bad result: {:?}", other),
    }
}

#[test]
fn bin_req_02() {
    match encode_decode_req(Trans::Sync(Req::Lookup(Workload::Single(LookupTask {
        text: "hello world".to_owned(),
        result: LookupType::BestOrMine,
        post_action: PostAction::InsertNew {
            cond: InsertCond::Always,
            assign: ClusterAssign {
                cond: AssignCond::Always,
                choice: ClusterChoice::ServerChoice,
            },
            user_data: "some data".to_owned(),
        },
    })))) {
        Trans::Sync(Req::Lookup(Workload::Single(LookupTask {
            text: ref lookup_text,
            result: LookupType::BestOrMine,
            post_action:
                PostAction::InsertNew {
                    cond: InsertCond::Always,
                    assign:
                        ClusterAssign {
                            cond: AssignCond::Always,
                            choice: ClusterChoice::ServerChoice,
                        },
                    user_data: ref lookup_user_data,
                },
        }))) if lookup_text == "hello world" && lookup_user_data == "some data" => (),
        other => panic!("bad result: {:?}", other),
    }
}

#[test]
fn bin_req_03() {
    match encode_decode_req(Trans::Async(Req::Lookup(Workload::Single(LookupTask {
        text: "hello world".to_owned(),
        result: LookupType::Best,
        post_action: PostAction::InsertNew {
            cond: InsertCond::BestSimLessThan(double(0.5)),
            assign: ClusterAssign {
                cond: AssignCond::Always,
                choice: ClusterChoice::ClientChoice(177),
            },
            user_data: "some data".to_owned(),
        },
    })))) {
        Trans::Async(Req::Lookup(Workload::Single(LookupTask {
            text: ref lookup_text,
            result: LookupType::Best,
            post_action:
                PostAction::InsertNew {
                    cond: InsertCond::BestSimLessThan(sim),
                    assign:
                        ClusterAssign {
                            cond: AssignCond::Always,
                            choice: ClusterChoice::ClientChoice(177),
                        },
                    user_data: ref lookup_user_data,
                },
        }))) if f64::from_bits(sim.to_bits()) == 0.5
            && lookup_text == "hello world"
            && lookup_user_data == "some data" => (),
        other => panic!("bad result: {:?}", other),
    }
}

#[test]
fn bin_req_04() {
    match encode_decode_req(Trans::Sync(Req::Terminate)) {
        Trans::Sync(Req::Terminate) => (),
        other => panic!("bad result: {:?}", other),
    }
}

#[test]
fn req_05() {
    match encode_decode_req(Trans::Async(Req::Lookup(Workload::Many(vec![
        LookupTask {
            text: "hello, world".to_owned(),
            result: LookupType::All,
            post_action: PostAction::NoAction,
        },
        LookupTask {
            text: "hello, cat".to_owned(),
            result: LookupType::Best,
            post_action: PostAction::NoAction,
        },
        LookupTask {
            text: "hello, dog".to_owned(),
            result: LookupType::BestOrMine,
            post_action: PostAction::NoAction,
        },
    ])))) {
        Trans::Async(Req::Lookup(Workload::Many(ref workloads))) => {
            match workloads.get(0) {
                Some(&LookupTask {
                    text: ref t,
                    result: LookupType::All,
                    post_action: PostAction::NoAction,
                }) if t == "hello, world" => (),
                other => panic!("bad workload 0: {:?}", other),
            }
            match workloads.get(1) {
                Some(&LookupTask {
                    text: ref t,
                    result: LookupType::Best,
                    post_action: PostAction::NoAction,
                }) if t == "hello, cat" => (),
                other => panic!("bad workload 1: {:?}", other),
            }
            match workloads.get(2) {
                Some(&LookupTask {
                    text: ref t,
                    result: LookupType::BestOrMine,
                    post_action: PostAction::NoAction,
                }) if t == "hello, dog" => (),
                other => panic!("bad workload 2: {:?}", other),
            }
            assert_eq!(workloads.len(), 3);
        }
        other => panic!("bad result: {:?}", other),
    }
}

#[test]
fn bin_rep_00() {
    match encode_decode_rep(Rep::InitAck) {
        Rep::InitAck => (),
        other => panic!("bad result: {:?}", other),
    }
}

#[test]
fn bin_rep_01() {
    match encode_decode_rep(Rep::TerminateAck) {
        Rep::TerminateAck => (),
        other => panic!("bad result: {:?}", other),
    }
}

#[test]
fn bin_rep_02() {
    match encode_decode_rep(Rep::TooBusy) {
        Rep::TooBusy => (),
        other => panic!("bad result: {:?}", other),
    }
}

#[test]
fn bin_rep_03() {
    match encode_decode_rep(Rep::WantCrash) {
        Rep::WantCrash => (),
        other => panic!("bad result: {:?}", other),
    }
}

#[test]
fn bin_rep_04() {
    match encode_decode_rep(Rep::Result(Workload::Single(LookupResult::EmptySet))) {
        Rep::Result(Workload::Single(LookupResult::EmptySet)) => (),
        other => panic!("bad result: {:?}", other),
    }
}

#[test]
fn bin_rep_05() {
    match encode_decode_rep(Rep::Result(Workload::Single(LookupResult::Best(Match {
        cluster_id: 177,
        similarity: double(0.5),
        user_data: "some data".to_owned(),
    })))) {
        Rep::Result(Workload::Single(LookupResult::Best(Match {
            cluster_id: 177,
            similarity,
            user_data: ref match_user_data,
        }))) if f64::from_bits(similarity.to_bits()) == 0.5 && match_user_data == "some data" => (),
        other => panic!("bad result: {:?}", other),
    }
}

#[test]
fn rep_f64() {
    match encode_decode::<Rep<Double>>(Rep::Result(Workload::Single(LookupResult::Best(Match {
        cluster_id: 177,
        similarity: double(0.5),
        user_data: double(0.1),
    })))) {
        Rep::Result(Workload::Single(LookupResult::Best(Match {
            cluster_id: 177,
            similarity,
            user_data,
        }))) if f64::from_bits(similarity.to_bits()) == 0.5
            && f64::from_bits(user_data.to_bits()) == 0.1 => (),
        other => panic!("bad result: {:?}", other),
    }
}

#[test]
fn lookup_request_has_the_documented_bytes() {
    let packet = encode(&Trans::<String>::Sync(Req::Lookup(Workload::Single(LookupTask {
        text: "hello world".to_owned(),
        result: LookupType::All,
        post_action: PostAction::NoAction,
    }))));
    let mut expected: Vec<u8> = vec![2, 2, 1, 11, 0, 0, 0];
    expected.extend_from_slice(b"hello world");
    expected.extend_from_slice(&[1, 1]);
    assert_eq!(packet, expected);
}

#[test]
fn best_match_reply_takes_32_bytes() {
    let rep: Rep<String> = Rep::Result(Workload::Single(LookupResult::Best(Match {
        cluster_id: 177,
        similarity: double(0.5),
        user_data: "some data".to_owned(),
    })));
    assert_eq!(rep.encode_len(), 32);
    let packet = encode(&rep);
    let mut expected: Vec<u8> = vec![2, 1, 2];
    expected.extend_from_slice(&177u64.to_le_bytes());
    expected.extend_from_slice(&0.5f64.to_le_bytes());
    expected.extend_from_slice(&9u32.to_le_bytes());
    expected.extend_from_slice(b"some data");
    assert_eq!(packet, expected);
}

#[test]
fn empty_batch_round_trips() {
    let packet = encode(&Workload::<u32>::Many(vec![]));
    assert_eq!(packet, vec![2, 0, 0, 0, 0]);
    match Workload::<u32>::decode(&packet) {
        Ok((Workload::Many(items), rest)) => {
            assert!(items.is_empty());
            assert!(rest.is_empty());
        }
        other => panic!("bad result: {:?}", other),
    }
}

#[test]
fn encode_returns_the_unused_tail() {
    let mut packet = vec![0xAAu8; 8];
    {
        let rest = 0x0102_0304u32.encode(&mut packet);
        assert_eq!(rest.len(), 4);
        rest[0] = 0x55;
    }
    assert_eq!(packet, vec![4, 3, 2, 1, 0x55, 0xAA, 0xAA, 0xAA]);
}

#[test]
fn decode_returns_what_follows_the_value() {
    let packet = [1u8, 1, 9, 9];
    match Trans::<String>::decode(&packet) {
        Ok((Trans::Async(Req::Init), rest)) => assert_eq!(rest, &[9u8, 9][..]),
        other => panic!("bad result: {:?}", other),
    }
}

#[test]
fn integers_are_little_endian() {
    assert_eq!(encode(&0x0102u16), vec![2, 1]);
    assert_eq!(encode(&-2i16), vec![0xFE, 0xFF]);
    assert_eq!(encode(&-1i8), vec![0xFF]);
    assert_eq!(encode(&7u8), vec![7]);
    assert_eq!(encode(&-2i32), vec![0xFE, 0xFF, 0xFF, 0xFF]);
    assert_eq!(encode(&0x0102_0304_0506_0708u64), vec![8, 7, 6, 5, 4, 3, 2, 1]);
    assert_eq!(encode(&-2i64), vec![0xFE, 0xFF, 0xFF, 0xFF, 0xFF, 0xFF, 0xFF, 0xFF]);
    assert_eq!(encode_decode(-12345i32), -12345);
    assert_eq!(encode_decode(-5i8), -5);
    assert_eq!(encode_decode(-300i16), -300);
    assert_eq!(encode_decode(-1i64 << 40), -1i64 << 40);
    assert_eq!(encode_decode(65535u16), 65535);
    assert_eq!(encode_decode(u64::MAX), u64::MAX);
    assert_eq!(u32::decode(&[4, 3, 2, 1]).unwrap().0, 0x0102_0304);
}

#[test]
fn every_strict_prefix_is_an_early_end() {
    let packet = encode(&Rep::<String>::Result(Workload::Many(vec![
        LookupResult::Best(Match {
            cluster_id: 1,
            similarity: double(0.25),
            user_data: "a".to_owned(),
        }),
        LookupResult::Neighbours(Workload::Single(Match {
            cluster_id: 2,
            similarity: double(0.75),
            user_data: "héllo".to_owned(),
        })),
        LookupResult::Error("boom".to_owned()),
        LookupResult::EmptySet,
    ])));
    for n in 0..packet.len() {
        match Rep::<String>::decode(&packet[..n]) {
            Err(Error::UnexpectedEOF) => (),
            other => panic!("prefix of {} bytes: {:?}", n, other),
        }
    }
    assert!(Rep::<String>::decode(&packet).is_ok());
}

#[test]
fn unknown_tags_are_reported_with_their_value() {
    let mut packet = encode(&Trans::<String>::Sync(Req::Terminate));
    packet[0] = 9;
    assert!(matches!(Trans::<String>::decode(&packet), Err(Error::InvalidTag(9))));
    let mut packet = encode(&Rep::<String>::TooBusy);
    packet[0] = 0;
    assert!(matches!(Rep::<String>::decode(&packet), Err(Error::InvalidTag(0))));
    packet[0] = 7;
    assert!(matches!(Rep::<String>::decode(&packet), Err(Error::InvalidTag(7))));
    assert!(matches!(Req::<String>::decode(&[4]), Err(Error::InvalidTag(4))));
    assert!(matches!(Workload::<u8>::decode(&[3, 0]), Err(Error::InvalidTag(3))));
    assert!(matches!(LookupType::decode(&[0]), Err(Error::InvalidTag(0))));
    assert!(matches!(InsertCond::decode(&[3]), Err(Error::InvalidTag(3))));
    assert!(matches!(AssignCond::decode(&[3]), Err(Error::InvalidTag(3))));
    assert!(matches!(ClusterChoice::decode(&[3]), Err(Error::InvalidTag(3))));
    assert!(matches!(PostAction::<String>::decode(&[255]), Err(Error::InvalidTag(255))));
    assert!(matches!(LookupResult::<String>::decode(&[5]), Err(Error::InvalidTag(5))));
}

#[test]
fn text_that_is_not_utf8_is_refused_with_its_place() {
    let packet = [3u8, 0, 0, 0, b'a', 0xFF, b'b'];
    match String::decode(&packet) {
        Err(Error::Utf8 { valid_up_to: 1, error_len: Some(1) }) => (),
        other => panic!("bad result: {:?}", other),
    }
    let packet = [2u8, 0, 0, 0, b'a', 0xC3];
    match String::decode(&packet) {
        Err(Error::Utf8 { valid_up_to: 1, error_len: None }) => (),
        other => panic!("bad result: {:?}", other),
    }
    let packet = [5u8, 0, 0, 0, b'a'];
    assert!(matches!(String::decode(&packet), Err(Error::UnexpectedEOF)));
}

#[test]
fn string_length_counts_bytes() {
    let packet = encode(&"héllo".to_owned());
    assert_eq!(packet.len(), 4 + 6);
    assert_eq!(&packet[..4], &[6, 0, 0, 0]);
    assert_eq!(encode_decode("héllo".to_owned()), "héllo");
}

#[test]
fn unexpected_request_is_carried_in_a_reply() {
    match encode_decode_rep(Rep::Unexpected(Req::Lookup(Workload::Many(vec![])))) {
        Rep::Unexpected(Req::Lookup(Workload::Many(ref tasks))) if tasks.is_empty() => (),
        other => panic!("bad result: {:?}", other),
    }
}

#[test]
fn double_keeps_every_bit() {
    let nan = Double::from_bits(0x7ff8_0000_0000_0001);
    assert_eq!(encode_decode(nan), nan);
    assert!(!nan.is_finite());
    assert!(double(0.5).is_finite());
    assert!(!double(f64::INFINITY).is_finite());
    assert_eq!(encode(&double(1.0)), 1.0f64.to_le_bytes().to_vec());
}

#[test]
fn errors_are_put_in_words() {
    assert_eq!(Error::UnexpectedEOF.message(), "unexpected EOF");
    assert_eq!(Error::InvalidTag(0).message(), "invalid proto tag 0");
    assert_eq!(Error::InvalidTag(255).message(), "invalid proto tag 255");
    let packet = [3u8, 0, 0, 0, b'a', 0xFF, b'b'];
    let err = String::decode(&packet).unwrap_err();
    assert_eq!(
        err.message(),
        format!("utf8 related error: {}", std::str::from_utf8(&packet[4..]).unwrap_err())
    );
    assert_eq!(
        err.message(),
        "utf8 related error: invalid utf-8 sequence of 1 bytes from index 1"
    );
    let packet = [12u8, 0, 0, 0, b'0', b'1', b'2', b'3', b'4', b'5', b'6', b'7', b'8', b'9', 0xE2, 0x82];
    let err = String::decode(&packet).unwrap_err();
    assert_eq!(
        err.message(),
        format!("utf8 related error: {}", std::str::from_utf8(&packet[4..]).unwrap_err())
    );
    assert_eq!(
        err.message(),
        "utf8 related error: incomplete utf-8 byte sequence from index 10"
    );
}

#[test]
fn numerals_have_no_leading_zeros() {
    assert_eq!(decimal_text(0), "0");
    assert_eq!(decimal_text(7), "7");
    assert_eq!(decimal_text(10), "10");
    assert_eq!(decimal_text(1234567890), "1234567890");
    assert_eq!(decimal_text(usize::MAX), usize::MAX.to_string());
}

#[test]
fn shared_values_are_encoded_as_what_they_share() {
    let shared = Arc::new("some data".to_owned());
    assert_eq!(encode(&shared), encode(&"some data".to_owned()));
    assert_eq!(*encode_decode(shared), "some data");
}

#[test]
fn single_keeps_every_bit() {
    let x = Single::from_bits(1.5f32.to_bits());
    assert_eq!(encode(&x), 1.5f32.to_le_bytes().to_vec());
    assert_eq!(encode_decode(x), x);
    assert!(matches!(Single::decode(&[0, 0, 0]), Err(Error::UnexpectedEOF)));
}

#[test]
fn values_can_be_tested_for_fit() {
    assert!("some data".to_owned().fits_wire());
    assert!(7u64.fits_wire());
    assert!(Workload::<String>::Many(vec!["a".to_owned(), "b".to_owned()]).fits_wire());
    assert!(Workload::<u8>::Many(vec![]).fits_wire());
    let rep: Rep<String> = Rep::Result(Workload::Single(LookupResult::Best(Match {
        cluster_id: 177,
        similarity: double(0.5),
        user_data: "some data".to_owned(),
    })));
    assert!(rep.fits_wire());
    let packet = encode(&rep);
    let (decoded, _) = Rep::<String>::decode(&packet).unwrap();
    assert!(decoded.fits_wire());
    assert_eq!(encode(&decoded), packet);
}
