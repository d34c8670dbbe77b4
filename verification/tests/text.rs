use cluster_proto::json::{
    json_str_to_anything, json_to_rep, json_to_req, rep_to_json, req_to_json, FromJson,
    JsonDecodeError, Object, ToJson, Tree,
};
use cluster_proto::scan::scan_bytes;
use cluster_proto::text::{
    is_parse_safe, parse_json, print_json, tree_from_rustc, tree_to_rustc, ParseError,
};
use cluster_proto::{
    AssignCond, ClusterAssign, ClusterChoice, Double, InsertCond, LookupResult, LookupTask,
    LookupType, Match, PostAction, Rep, Req, Trans, Workload,
};
use rustc_serialize::json::Json;

fn encode_decode<T>(value: T) -> T
where
    T: ToJson + FromJson,
{
    let json = value.to_json();
    <T as FromJson>::from_json(&json).unwrap()
}

fn encode_decode_req(req: Trans<String>) -> Trans<String> {
    encode_decode(req)
}

fn encode_decode_rep(rep: Rep<String>) -> Rep<String> {
    encode_decode(rep)
}

fn double(x: f64) -> Double {
    Double::from_bits(x.to_bits())
}

fn same_json(tree: &Tree, expected: &str) -> bool {
    Json::from_str(&print_json(tree)).unwrap() == Json::from_str(expected).unwrap()
}

#[test]
fn json_req_00_async() {
    match encode_decode_req(Trans::Async(Req::Init)) {
        Trans::Async(Req::Init) => (),
        other => panic!("bad result: {:?}", other),
    }
}

#[test]
fn json_req_00_sync() {
    match encode_decode_req(Trans::Sync(Req::Init)) {
        Trans::Sync(Req::Init) => (),
        other => panic!("bad result: {:?}", other),
    }
}

#[test]
fn json_req_01() {
    match encode_decode_req(Trans::Sync(Req::Lookup(Workload::Single(LookupTask {
        text: "hello world".to_owned(),
        result: LookupType::All,
        post_action: PostAction::NoAction,
    })))) {
        Trans::Sync(Req::Lookup(Workload::Single(LookupTask {
            text: ref lookup_text,
            result: LookupType::All,
            post_action: PostAction::NoAction,
        }))) if lookup_text == "hello world" => (),
        other => panic!("bad result: {:?}", other),
    }
}

#[test]
fn json_req_02() {
    match encode_decode_req(Trans::Async(Req::Lookup(Workload::Single(LookupTask {
        text: "hello world".to_owned(),
        result: LookupType::BestOrMine,
        post_action: PostAction::InsertNew {
            cond: InsertCond::Always,
            assign: ClusterAssign {
                cond: AssignCond::Always,
                choice: ClusterChoice::ServerChoice,
            },
            user_data: "some data".to_owned(),
        },
    })))) {
        Trans::Async(Req::Lookup(Workload::Single(LookupTask {
            text: ref lookup_text,
            result: LookupType::BestOrMine,
            post_action:
                PostAction::InsertNew {
                    cond: InsertCond::Always,
                    assign:
                        ClusterAssign {
                            cond: AssignCond::Always,
                            choice: ClusterChoice::ServerChoice,
                        },
                    user_data: ref lookup_user_data,
                },
        }))) if lookup_text == "hello world" && lookup_user_data == "some data" => (),
        other => panic!("bad result: {:?}", other),
    }
}

#[test]
fn json_req_03() {
    match encode_decode_req(Trans::Sync(Req::Lookup(Workload::Single(LookupTask {
        text: "hello world".to_owned(),
        result: LookupType::Best,
        post_action: PostAction::InsertNew {
            cond: InsertCond::BestSimLessThan(double(0.5)),
            assign: ClusterAssign {
                cond: AssignCond::Always,
                choice: ClusterChoice::ClientChoice(177),
            },
            user_data: "some data".to_owned(),
        },
    })))) {
        Trans::Sync(Req::Lookup(Workload::Single(LookupTask {
            text: ref lookup_text,
            result: LookupType::Best,
            post_action:
                PostAction::InsertNew {
                    cond: InsertCond::BestSimLessThan(sim),
                    assign:
                        ClusterAssign {
                            cond: AssignCond::Always,
                            choice: ClusterChoice::ClientChoice(177),
                        },
                    user_data: ref lookup_user_data,
                },
        }))) if f64::from_bits(sim.to_bits()) == 0.5
            && lookup_text == "hello world"
            && lookup_user_data == "some data" => (),
        other => panic!("bad result: {:?}", other),
    }
}

#[test]
fn json_req_04() {
    match encode_decode_req(Trans::Sync(Req::Terminate)) {
        Trans::Sync(Req::Terminate) => (),
        other => panic!("bad result: {:?}", other),
    }
}

#[test]
fn json_rep_00() {
    match encode_decode_rep(Rep::InitAck) {
        Rep::InitAck => (),
        other => panic!("bad result: {:?}", other),
    }
}

#[test]
fn json_rep_01() {
    match encode_decode_rep(Rep::TerminateAck) {
        Rep::TerminateAck => (),
        other => panic!("bad result: {:?}", other),
    }
}

#[test]
fn json_rep_02() {
    match encode_decode_rep(Rep::TooBusy) {
        Rep::TooBusy => (),
        other => panic!("bad result: {:?}", other),
    }
}

#[test]
fn json_rep_03() {
    match encode_decode_rep(Rep::WantCrash) {
        Rep::WantCrash => (),
        other => panic!("bad result: {:?}", other),
    }
}

#[test]
fn json_rep_04() {
    match encode_decode_rep(Rep::Result(Workload::Single(LookupResult::EmptySet))) {
        Rep::Result(Workload::Single(LookupResult::EmptySet)) => (),
        other => panic!("bad result: {:?}", other),
    }
}

#[test]
fn json_rep_05() {
    match encode_decode_rep(Rep::Result(Workload::Single(LookupResult::Best(Match {
        cluster_id: 177,
        similarity: double(0.5),
        user_data: "some data".to_owned(),
    })))) {
        Rep::Result(Workload::Single(LookupResult::Best(Match {
            cluster_id: 177,
            similarity,
            user_data: ref match_user_data,
        }))) if f64::from_bits(similarity.to_bits()) == 0.5 && match_user_data == "some data" => (),
        other => panic!("bad result: {:?}", other),
    }
}

#[test]
fn lookup_request_has_the_documented_text() {
    let tree = req_to_json(&Trans::<String>::Sync(Req::Lookup(Workload::Single(LookupTask {
        text: "hello world".to_owned(),
        result: LookupType::All,
        post_action: PostAction::NoAction,
    }))));
    assert!(same_json(
        &tree,
        r#"{"sync": {"lookup": {"text":"hello world","result":"all","post_action":"none"}}}"#
    ));
    assert_eq!(
        print_json(&tree),
        r#"{"sync":{"lookup":{"post_action":"none","result":"all","text":"hello world"}}}"#
    );
}

#[test]
fn best_match_reply_has_the_documented_text() {
    let tree = rep_to_json(&Rep::Result(Workload::Single(LookupResult::Best(Match {
        cluster_id: 177,
        similarity: double(0.5),
        user_data: "some data".to_owned(),
    }))));
    assert!(same_json(
        &tree,
        r#"{"result": {"best": {"cluster_id":177,"similarity":0.5,"user_data":"some data"}}}"#
    ));
}

#[test]
fn empty_batch_is_an_empty_array() {
    let tree = Workload::<Match<String>>::Many(vec![]).to_json();
    assert_eq!(print_json(&tree), "[]");
    match Workload::<Match<String>>::from_json(&tree) {
        Ok(Workload::Many(items)) => assert!(items.is_empty()),
        other => panic!("bad result: {:?}", other),
    }
}

#[test]
fn parsed_text_is_read_as_a_value() {
    let text = r#"{"sync": {"lookup": {"text":"hello world","result":"all","post_action":"none"}}}"#;
    match json_str_to_anything::<Trans<String>>(text) {
        Ok(Trans::Sync(Req::Lookup(Workload::Single(LookupTask {
            text: ref lookup_text,
            result: LookupType::All,
            post_action: PostAction::NoAction,
        })))) if lookup_text == "hello world" => (),
        other => panic!("bad result: {:?}", other),
    }
    let text = r#"{"result": {"best": {"cluster_id":177,"similarity":0.5,"user_data":"some data"}}}"#;
    match json_str_to_anything::<Rep<String>>(text) {
        Ok(Rep::Result(Workload::Single(LookupResult::Best(Match {
            cluster_id: 177,
            similarity,
            user_data: ref data,
        })))) if f64::from_bits(similarity.to_bits()) == 0.5 && data == "some data" => (),
        other => panic!("bad result: {:?}", other),
    }
}

#[test]
fn failures_are_put_in_words() {
    assert_eq!(
        json_str_to_anything::<Trans<String>>("{").unwrap_err(),
        "json parsing error: SyntaxError(\"EOF While parsing object\", 1, 2)"
    );
    assert_eq!(
        json_str_to_anything::<Trans<String>>(r#"{"async":"init","sync":"init"}"#).unwrap_err(),
        r#"malformed json object: {"async":"init","sync":"init"}"#
    );
    assert_eq!(
        json_str_to_anything::<Trans<String>>("{}").unwrap_err(),
        "malformed json object: {}"
    );
    assert_eq!(
        json_str_to_anything::<Trans<String>>(r#"{"sync":"start"}"#).unwrap_err(),
        r#"unexpected json token: "start""#
    );
    assert_eq!(
        json_str_to_anything::<Rep<String>>("[1.5,null]").unwrap_err(),
        "unexpected json token: [1.5,null]"
    );
    assert_eq!(
        json_str_to_anything::<LookupType>(r#""worst""#).unwrap_err(),
        r#"unexpected json token: "worst""#
    );
}

#[test]
fn a_string_is_never_taken_for_a_number() {
    let text = r#"{"cluster_id":"177","similarity":0.5,"user_data":"x"}"#;
    assert_eq!(
        json_str_to_anything::<Match<String>>(text).unwrap_err(),
        format!("malformed json object: {}", print_json(&parse_json(text).unwrap()))
    );
    let text = r#"{"cluster_id":177,"similarity":1,"user_data":"x"}"#;
    assert!(json_str_to_anything::<Match<String>>(text).is_err());
    let text = r#"{"cluster_id":177,"similarity":1.0,"user_data":7}"#;
    assert_eq!(
        json_str_to_anything::<Match<String>>(text).unwrap_err(),
        "unexpected json token: 7"
    );
    assert!(matches!(String::from_json(&Tree::U64(7)), Err(JsonDecodeError::UnexpectedToken(_))));
    assert!(matches!(u64::from_json(&Tree::I64(7)), Err(JsonDecodeError::UnexpectedToken(_))));
    assert!(matches!(
        Double::from_json(&Tree::U64(7)),
        Err(JsonDecodeError::UnexpectedToken(_))
    ));
}

#[test]
fn errors_hold_the_offending_node() {
    let tree = parse_json(r#"{"lookup":[{"text":"a","result":"most","post_action":"none"}]}"#)
        .unwrap();
    match json_to_req::<String>(&tree) {
        Err(JsonDecodeError::UnexpectedToken(node)) => assert_eq!(print_json(node), r#""most""#),
        other => panic!("bad result: {:?}", other),
    }
    let tree = parse_json(r#"{"result":null,"unexpected":"init"}"#).unwrap();
    match json_to_rep::<String>(&tree) {
        Err(JsonDecodeError::MalformedObject(node)) => {
            assert_eq!(print_json(node), r#"{"result":null,"unexpected":"init"}"#)
        }
        other => panic!("bad result: {:?}", other),
    }
    let tree = parse_json(r#"{"cond":"always","choice":{"client_choice":-1}}"#).unwrap();
    match ClusterAssign::from_json(&tree) {
        Err(JsonDecodeError::UnexpectedToken(node)) => {
            assert_eq!(print_json(node), r#"{"client_choice":-1}"#)
        }
        other => panic!("bad result: {:?}", other),
    }
    let tree = parse_json(r#"{"best_sim_less_than":"0.5"}"#).unwrap();
    assert!(matches!(InsertCond::from_json(&tree), Err(JsonDecodeError::MalformedObject(_))));
    assert!(matches!(AssignCond::from_json(&tree), Err(JsonDecodeError::MalformedObject(_))));
    let tree = parse_json(r#"{"cond":"always"}"#).unwrap();
    assert!(matches!(
        PostAction::<String>::from_json(&tree),
        Err(JsonDecodeError::MalformedObject(_))
    ));
    assert!(matches!(
        ClusterAssign::from_json(&Tree::Null),
        Err(JsonDecodeError::UnexpectedToken(_))
    ));
}

#[test]
fn batches_keep_their_order() {
    let rep: Rep<String> = Rep::Result(Workload::Many(vec![
        LookupResult::Error("boom".to_owned()),
        LookupResult::EmptySet,
        LookupResult::Neighbours(Workload::Many(vec![
            Match { cluster_id: 1, similarity: double(0.25), user_data: "a".to_owned() },
            Match { cluster_id: 2, similarity: double(1.0), user_data: "b".to_owned() },
        ])),
    ]));
    let tree = rep_to_json(&rep);
    assert_eq!(
        print_json(&tree),
        concat_all(&[
            r#"{"result":[{"error":"boom"},null,{"neighbours":["#,
            r#"{"cluster_id":1,"similarity":0.25,"user_data":"a"},"#,
            r#"{"cluster_id":2,"similarity":1.0,"user_data":"b"}]}]}"#,
        ])
    );
    let text = print_json(&tree);
    match json_str_to_anything::<Rep<String>>(&text) {
        Ok(Rep::Result(Workload::Many(results))) => {
            assert_eq!(results.len(), 3);
            assert!(matches!(results[0], LookupResult::Error(ref m) if m == "boom"));
            assert!(matches!(results[1], LookupResult::EmptySet));
            match results[2] {
                LookupResult::Neighbours(Workload::Many(ref matches)) => {
                    assert_eq!(matches.len(), 2);
                    assert_eq!(matches[0].cluster_id, 1);
                    assert_eq!(matches[1].cluster_id, 2);
                    assert_eq!(f64::from_bits(matches[1].similarity.to_bits()), 1.0);
                }
                ref other => panic!("bad result: {:?}", other),
            }
        }
        other => panic!("bad result: {:?}", other),
    }
}

fn concat_all(parts: &[&str]) -> String {
    let mut text = String::new();
    for part in parts {
        text.push_str(part);
    }
    text
}

#[test]
fn double_payload_round_trips() {
    match encode_decode::<Rep<Double>>(Rep::Result(Workload::Single(LookupResult::Best(Match {
        cluster_id: 177,
        similarity: double(0.5),
        user_data: double(0.1),
    })))) {
        Rep::Result(Workload::Single(LookupResult::Best(Match {
            cluster_id: 177,
            similarity,
            user_data,
        }))) if f64::from_bits(similarity.to_bits()) == 0.5
            && f64::from_bits(user_data.to_bits()) == 0.1 => (),
        other => panic!("bad result: {:?}", other),
    }
}

#[test]
fn a_double_that_is_not_finite_is_shown_as_null() {
    let tree = InsertCond::BestSimLessThan(double(f64::NAN)).to_json();
    assert_eq!(print_json(&tree), r#"{"best_sim_less_than":null}"#);
    assert!(matches!(InsertCond::from_json(&tree), Err(JsonDecodeError::MalformedObject(_))));
    assert!(matches!(double(f64::INFINITY).to_json(), Tree::Null));
    assert!(matches!(double(-0.0).to_json(), Tree::F64(_)));
}

#[test]
fn object_keeps_one_value_per_key() {
    let mut object = Object::new();
    object.insert("a".to_owned(), Tree::U64(1));
    object.insert("b".to_owned(), Tree::U64(2));
    object.insert("a".to_owned(), Tree::U64(3));
    assert!(matches!(object.get("a"), Some(Tree::U64(3))));
    assert!(matches!(object.get("b"), Some(Tree::U64(2))));
    assert!(object.get("c").is_none());
    assert_eq!(print_json(&Tree::Object(object)), r#"{"a":3,"b":2}"#);
}

#[test]
fn text_is_parsed_to_the_same_tree_that_is_printed() {
    let text = r#"{"a":[1,-2,2.5,"x",true,null],"b":{"c":{}}}"#;
    let tree = parse_json(text).unwrap();
    assert_eq!(print_json(&tree), text);
    match tree {
        Tree::Object(ref object) => match object.get("a") {
            Some(Tree::Array(items)) => {
                assert!(matches!(items[0], Tree::U64(1)));
                assert!(matches!(items[1], Tree::I64(-2)));
                assert!(matches!(items[2], Tree::F64(x) if f64::from_bits(x.to_bits()) == 2.5));
                assert!(matches!(items[3], Tree::String(ref s) if s == "x"));
                assert!(matches!(items[4], Tree::Boolean(true)));
                assert!(matches!(items[5], Tree::Null));
            }
            other => panic!("bad member: {:?}", other),
        },
        ref other => panic!("bad tree: {:?}", other),
    }
    assert!(parse_json("[1,").is_err());
}

#[test]
fn trees_hold_what_the_values_of_rustc_serialize_hold() {
    let text = r#"{"a":[1,-2,2.5,"x",true,null],"b":{"c":{}}}"#;
    let raw = Json::from_str(text).unwrap();
    let tree = tree_from_rustc(&raw);
    assert!(matches!(tree, Tree::Object(_)));
    assert_eq!(tree_to_rustc(&tree), raw);
    let built = Trans::<String>::Async(Req::Terminate).to_json();
    assert_eq!(tree_to_rustc(&built), Json::from_str(r#"{"async":"terminate"}"#).unwrap());
    match Trans::<String>::from_json(&tree_from_rustc(&tree_to_rustc(&built))) {
        Ok(Trans::Async(Req::Terminate)) => (),
        other => panic!("bad result: {:?}", other),
    }
}

#[test]
fn an_object_without_its_key_is_malformed() {
    let tree = parse_json("{}").unwrap();
    match ClusterChoice::from_json(&tree) {
        Err(JsonDecodeError::MalformedObject(node)) => assert_eq!(print_json(node), "{}"),
        other => panic!("bad result: {:?}", other),
    }
    let tree = parse_json(r#"{"server_choice":1}"#).unwrap();
    assert!(matches!(
        ClusterChoice::from_json(&tree),
        Err(JsonDecodeError::MalformedObject(_))
    ));
    let tree = parse_json(r#"{"client_choice":"7"}"#).unwrap();
    assert!(matches!(
        ClusterChoice::from_json(&tree),
        Err(JsonDecodeError::UnexpectedToken(_))
    ));
    assert!(matches!(
        ClusterChoice::from_json(&Tree::String("client_choice".to_owned())),
        Err(JsonDecodeError::UnexpectedToken(_))
    ));
    assert!(matches!(
        ClusterChoice::from_json(&Tree::Array(vec![])),
        Err(JsonDecodeError::UnexpectedToken(_))
    ));
    match ClusterChoice::from_json(&parse_json(r#"{"client_choice":7}"#).unwrap()) {
        Ok(ClusterChoice::ClientChoice(7)) => (),
        other => panic!("bad result: {:?}", other),
    }
}

fn nested(depth: usize) -> String {
    let mut text = String::new();
    for _ in 0..depth {
        text.push('[');
    }
    for _ in 0..depth {
        text.push(']');
    }
    text
}

#[test]
fn deep_nesting_is_refused() {
    assert!(is_parse_safe(&nested(128)));
    assert!(parse_json(&nested(128)).is_ok());
    assert!(!is_parse_safe(&nested(129)));
    assert!(matches!(parse_json(&nested(129)), Err(ParseError::Refused)));
    let mut open = String::new();
    for _ in 0..100000 {
        open.push('[');
    }
    assert!(matches!(parse_json(&open), Err(ParseError::Refused)));
    let mut mixed = String::new();
    for _ in 0..100000 {
        mixed.push_str("{\"a\":");
    }
    assert!(matches!(parse_json(&mixed), Err(ParseError::Refused)));
    let mut flat = String::from("[");
    for _ in 0..1000 {
        flat.push_str("[],{},");
    }
    flat.push_str("0]");
    assert!(parse_json(&flat).is_ok());
    let mut quoted = String::from("\"");
    for _ in 0..1000 {
        quoted.push_str("[{");
    }
    quoted.push('"');
    assert!(parse_json(&quoted).is_ok());
}

#[test]
fn large_exponents_are_refused() {
    assert!(matches!(parse_json("1e99999999999999999999"), Err(ParseError::Refused)));
    assert!(matches!(parse_json("[1.5E-4294967296]"), Err(ParseError::Refused)));
    assert!(matches!(parse_json("1e4294967295"), Ok(Tree::F64(_))));
    match parse_json("1e000000000000000000000000002") {
        Ok(Tree::F64(x)) => assert_eq!(f64::from_bits(x.to_bits()), 100.0),
        other => panic!("bad result: {:?}", other),
    }
    match parse_json("[25e-1, 2E+2]") {
        Ok(Tree::Array(items)) => {
            assert!(matches!(items[0], Tree::F64(x) if f64::from_bits(x.to_bits()) == 2.5));
            assert!(matches!(items[1], Tree::F64(x) if f64::from_bits(x.to_bits()) == 200.0));
        }
        other => panic!("bad result: {:?}", other),
    }
    assert!(matches!(
        parse_json(r#"{"e99999999999999999999":"1e99999999999999999999"}"#),
        Ok(Tree::Object(_))
    ));
    assert!(matches!(parse_json("true99999999999999999999"), Err(ParseError::Syntax(_))));
}

#[test]
fn a_comma_before_a_closing_brace_is_refused() {
    assert!(matches!(parse_json(r#"[{"o":{"a":1,},"p":2}]"#), Err(ParseError::Refused)));
    assert!(matches!(parse_json("{\"a\":1 , \n }"), Err(ParseError::Refused)));
    assert!(matches!(parse_json(r#"{"a":",}"}"#), Ok(Tree::Object(_))));
    assert!(matches!(parse_json("[1,]"), Err(ParseError::Syntax(_))));
}

#[test]
fn long_keys_are_refused() {
    let long = "k".repeat(512);
    let text = format!("{{\"{}\":1}}", long);
    assert!(matches!(parse_json(&text), Err(ParseError::Refused)));
    let text = format!("{{\"{}\" : 1}}", "k".repeat(511));
    match parse_json(&text) {
        Ok(Tree::Object(object)) => assert!(object.get(&"k".repeat(511)).is_some()),
        other => panic!("bad result: {:?}", other),
    }
    let text = format!("{{\"a\":\"{}\"}}", "v".repeat(100000));
    match parse_json(&text) {
        Ok(Tree::Object(object)) => {
            assert!(matches!(object.get("a"), Some(Tree::String(s)) if s.len() == 100000))
        }
        other => panic!("bad result: {:?}", other),
    }
    let text = format!("[\"{}\"]", "é".repeat(70000));
    assert!(parse_json(&text).is_ok());
}

#[test]
fn a_refused_text_is_told_as_a_parse_error() {
    assert_eq!(
        json_str_to_anything::<Trans<String>>(&nested(200)).unwrap_err(),
        "json parsing error: text too deep, key too long, exponent too large or comma before `}`"
    );
    assert_eq!(
        ParseError::Syntax("x".to_owned()).message(),
        "x"
    );
}

#[test]
fn the_scan_reads_bytes() {
    assert!(scan_bytes(b""));
    assert!(scan_bytes(b"{\"a\\\"b\":[1e5,{}]}"));
    assert!(!scan_bytes(b"{\"a\":1,}"));
    assert!(scan_bytes(b"\"\\\",}\""));
    assert!(!scan_bytes(b"\"\\\\\",}"));
    assert!(!scan_bytes(b"1e-99999999999"));
}
