//! JSON text: parsing it to a tree and printing a tree, both done by `rustc_serialize`.

use vstd::prelude::*;
use vstd::string::StringExecFns;
use vstd::utf8::*;
use byteorder::ByteOrder;
use byteorder::LittleEndian;
use rustc_serialize::json::Json as Raw;
use crate::double::Double;
use crate::json::{FromJson, JsonDecodeError, JsonFault, Object, Read, Tree, TreeView};
use crate::scan::{safe_bytes, scan_bytes};

verus! {

/// A JSON value of `rustc_serialize`.
#[verifier::external_type_specification]
#[verifier::external_body]
pub struct ExRaw(rustc_serialize::json::Json);

/// What a value of `rustc_serialize::json::Json` holds.
pub uninterp spec fn raw_tree(raw: Raw) -> TreeView;

/// Named result of `rustc_serialize::json::Json::from_str`: the tree that a text stands
/// for, or the parser's error as it prints itself.
pub uninterp spec fn parsed(text: Seq<char>) -> Result<TreeView, Seq<char>>;

/// Named result of the `Display` of `rustc_serialize::json::Json`: the compact text of a
/// tree.
pub uninterp spec fn printed(tree: TreeView) -> Seq<char>;

/// Whether the parser can be given `text`: its UTF-8 bytes are not too many, and a scan of
/// them finds no bracket opened too deep, no key too long, no exponent too large and no
/// comma before a closing brace.
pub open spec fn parse_safe(text: Seq<char>) -> bool {
    safe_bytes(encode_utf8(text))
}

/// `rustc_serialize::json::Json::from_str`: parses `text`. The error is handed on as the
/// text that its `Display` gives. Left out are the texts on which the parser may not
/// return: it recurses by the depth of the brackets, adds up an exponent without a check,
/// cuts the lengths of keys to sixteen bits and stops with a panic where an object inside
/// an array ends with a comma.
#[verifier::external_body]
fn parse(text: &str) -> (r: Result<Raw, String>)
    requires
        parse_safe(text@),
    ensures
        match r {
            Ok(raw) => parsed(text@) == Ok::<TreeView, Seq<char>>(raw_tree(raw)),
            Err(message) => parsed(text@) == Err::<TreeView, Seq<char>>(message@),
        },
{
    match Raw::from_str(text) {
        Ok(raw) => Ok(raw),
        Err(e) => Err(format!("{}", e)),
    }
}

/// The `Display` of `rustc_serialize::json::Json`: the compact text of `raw`.
#[verifier::external_body]
fn print(raw: &Raw) -> (text: String)
    ensures
        text@ == printed(raw_tree(*raw)),
{
    format!("{}", raw)
}

/// Takes a value of `rustc_serialize::json::Json` apart, variant by variant, into a tree of
/// this library that holds the same.
#[verifier::external_body]
fn from_raw(raw: &Raw) -> (json: Tree)
    ensures
        json@ == raw_tree(*raw),
{
    match raw {
        Raw::I64(n) => Tree::I64(*n),
        Raw::U64(n) => Tree::U64(*n),
        Raw::F64(x) => Tree::F64(Double { bits: x.to_bits() }),
        Raw::String(s) => Tree::String(s.clone()),
        Raw::Boolean(b) => Tree::Boolean(*b),
        Raw::Array(items) => Tree::Array(items.iter().map(from_raw).collect()),
        Raw::Object(members) => Tree::Object(
            Object { entries: members.iter().map(|(k, v)| (k.clone(), from_raw(v))).collect() },
        ),
        Raw::Null => Tree::Null,
    }
}

/// Builds the value of `rustc_serialize::json::Json` that holds what `json` holds, variant
/// by variant. The number of an `F64` is made from its bits by
/// `byteorder::LittleEndian::read_f64`.
#[verifier::external_body]
fn to_raw(json: &Tree) -> (raw: Raw)
    ensures
        raw_tree(raw) == json@,
{
    match json {
        Tree::I64(n) => Raw::I64(*n),
        Tree::U64(n) => Raw::U64(*n),
        Tree::F64(x) => Raw::F64(LittleEndian::read_f64(&x.bits.to_le_bytes())),
        Tree::String(s) => Raw::String(s.clone()),
        Tree::Boolean(b) => Raw::Boolean(*b),
        Tree::Array(items) => Raw::Array(items.iter().map(to_raw).collect()),
        Tree::Object(o) => Raw::Object(
            o.entries.iter().map(|(k, v)| (k.clone(), to_raw(v))).collect(),
        ),
        Tree::Null => Raw::Null,
    }
}

/// The tree that holds what `raw` holds.
pub fn tree_from_rustc(raw: &Raw) -> (tree: Tree)
    ensures
        tree@ == raw_tree(*raw),
{
    from_raw(raw)
}

/// The value of `rustc_serialize` that holds what `tree` holds.
pub fn tree_to_rustc(tree: &Tree) -> (raw: Raw)
    ensures
        raw_tree(raw) == tree@,
{
    to_raw(tree)
}

/// Why a text gave no tree.
#[derive(Debug)]
pub enum ParseError {
    /// The text is none that the parser can be given: see `parse_safe`.
    Refused,
    /// The text is no JSON. This is the parser's error as it prints itself.
    Syntax(String),
}

/// What is said of a text that is refused.
pub open spec fn refusal() -> Seq<char> {
    "text too deep, key too long, exponent too large or comma before `}`"@
}

impl ParseError {
    /// What `message` says.
    pub open spec fn message_text(self) -> Seq<char> {
        match self {
            ParseError::Refused => refusal(),
            ParseError::Syntax(message) => message@,
        }
    }

    /// The error in words.
    pub fn message(&self) -> (text: String)
        ensures
            text@ == self.message_text(),
    {
        match self {
            ParseError::Refused => String::from_str(
                "text too deep, key too long, exponent too large or comma before `}`",
            ),
            ParseError::Syntax(message) => message.clone(),
        }
    }
}

/// Whether the parser can be given `text`.
pub fn is_parse_safe(text: &str) -> (safe: bool)
    ensures
        safe == parse_safe(text@),
{
    scan_bytes(text.as_bytes())
}

/// The tree that `text` stands for. A text that the parser cannot be given is refused
/// without a call of the parser; for the others the parser decides.
pub fn parse_json(text: &str) -> (r: Result<Tree, ParseError>)
    ensures
        match r {
            Ok(json) => parse_safe(text@) && parsed(text@) == Ok::<TreeView, Seq<char>>(json@),
            Err(ParseError::Refused) => !parse_safe(text@),
            Err(ParseError::Syntax(message)) => parse_safe(text@) && parsed(text@) == Err::<
                TreeView,
                Seq<char>,
            >(message@),
        },
{
    if !is_parse_safe(text) {
        return Err(ParseError::Refused);
    }
    match parse(text) {
        Ok(raw) => Ok(from_raw(&raw)),
        Err(message) => Err(ParseError::Syntax(message)),
    }
}

/// What parsing gives as a tree or a message: the parser's outcome for a text that it can
/// be given, the refusal for another.
pub open spec fn parse_outcome(text: Seq<char>) -> Result<TreeView, Seq<char>> {
    if parse_safe(text) {
        parsed(text)
    } else {
        Err(refusal())
    }
}

/// The compact text of `json`.
pub fn print_json(json: &Tree) -> (text: String)
    ensures
        text@ == printed(json@),
{
    let raw = to_raw(json);
    print(&raw)
}

/// What `json_str_to_anything` gives for the outcome `p` of parsing: the value, or a
/// message that says what went wrong and shows the parser's error or the offending node.
pub open spec fn anything<V>(p: Result<Read<V>, Seq<char>>) -> Result<V, Seq<char>> {
    match p {
        Ok(Ok(v)) => Ok(v),
        Ok(Err(JsonFault::MalformedObject(node))) => Err(
            "malformed json object: "@ + printed(node),
        ),
        Ok(Err(JsonFault::UnexpectedToken(node))) => Err(
            "unexpected json token: "@ + printed(node),
        ),
        Err(message) => Err("json parsing error: "@ + message),
    }
}

/// The outcome of reading a value from what parsing gave.
pub open spec fn read_parsed<T: FromJson>(p: Result<TreeView, Seq<char>>) -> Result<
    Read<T::V>,
    Seq<char>,
> {
    match p {
        Ok(tree) => Ok(T::read(tree)),
        Err(message) => Err(message),
    }
}

/// `r` is the outcome `p`: a value with the view that `p` has, or the same message.
pub open spec fn told<T: View>(r: Result<T, String>, p: Result<T::V, Seq<char>>) -> bool {
    match p {
        Ok(v) => r matches Ok(value) && value@ == v,
        Err(message) => r matches Err(m) && m@ == message,
    }
}

/// Reads a value from the outcome of parsing a text, and puts any failure in words.
pub fn anything_from_parsed<T: FromJson>(parsed: Result<&Tree, String>) -> (r: Result<T, String>)
    ensures
        told(
            r,
            anything(
                read_parsed::<T>(
                    match parsed {
                        Ok(json) => Ok(json@),
                        Err(message) => Err(message@),
                    },
                ),
            ),
        ),
{
    match parsed {
        Ok(json) => match T::from_json(json) {
            Ok(value) => Ok(value),
            Err(JsonDecodeError::MalformedObject(node)) => Err(
                String::from_str("malformed json object: ").concat(print_json(node).as_str()),
            ),
            Err(JsonDecodeError::UnexpectedToken(node)) => Err(
                String::from_str("unexpected json token: ").concat(print_json(node).as_str()),
            ),
        },
        Err(message) => Err(String::from_str("json parsing error: ").concat(message.as_str())),
    }
}

/// Parses `json_str` and reads a value from the tree. A text that is refused or is no
/// JSON, a node of an unexpected shape and an object with the wrong members each give a
/// message of their own.
pub fn json_str_to_anything<T: FromJson>(json_str: &str) -> (r: Result<T, String>)
    ensures
        told(r, anything(read_parsed::<T>(parse_outcome(json_str@)))),
{
    match parse_json(json_str) {
        Ok(json) => anything_from_parsed(Ok(&json)),
        Err(e) => anything_from_parsed(Err(e.message())),
    }
}

} // verus!
