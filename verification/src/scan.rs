//! Which texts can be handed to the JSON parser.
//!
//! The parser of `rustc_serialize` recurses once for every open bracket, adds up the
//! digits of an exponent in a machine word, keeps the keys of all open objects in a buffer
//! that it addresses with sixteen bits, and loses its place when a comma stands before a
//! closing brace. One pass over the bytes of a text tells whether any of that can happen.

use vstd::prelude::*;

verus! {

/// The most brackets that may be open at once.
pub const MAX_DEPTH: usize = 128;

/// The most bytes between the quotes of a key. With `MAX_DEPTH` keys in the parser's
/// buffer, one for each open object, they take less than sixty-four kibibytes.
pub const MAX_KEY: usize = 511;

/// The largest exponent of a number.
pub const MAX_EXPONENT: u64 = 0xffff_ffff;

/// The most bytes of a text. An array in a text of that length has fewer elements than a
/// 32-bit index counts.
pub const MAX_TEXT: usize = 0xffff_ffff;

/// Where in a number the scan stands.
#[derive(Debug, Clone, Copy, PartialEq, Eq, Structural)]
pub enum Number {
    /// Not behind a digit.
    Outside,
    /// Behind a digit of the integer or the fraction.
    Digit,
    /// Behind the `e` of an exponent.
    Mark,
    /// Behind the sign of an exponent.
    Sign,
    /// Behind a digit of an exponent.
    Exponent,
}

/// What one pass has seen of a text so far.
#[derive(Debug, Clone, Copy, PartialEq, Eq, Structural)]
pub struct Scan {
    /// Nothing that the parser cannot take has been seen.
    pub ok: bool,
    /// The number of brackets that are open.
    pub depth: usize,
    /// The scan stands inside a string.
    pub in_string: bool,
    /// The scan stands behind a backslash inside a string.
    pub escaped: bool,
    /// The number of bytes between the quotes of the string that was opened last, counted
    /// up to `MAX_KEY + 1`.
    pub string_len: usize,
    /// Only white space has followed the last string.
    pub after_string: bool,
    /// Only white space has followed the last comma.
    pub after_comma: bool,
    /// Where in a number the scan stands.
    pub number: Number,
    /// The exponent read so far.
    pub exponent: u64,
}

/// Whether `b` is white space to the parser.
pub open spec fn is_space(b: u8) -> bool {
    b == 0x20 || b == 0x0a || b == 0x09 || b == 0x0d
}

/// Whether `b` is a decimal digit.
pub open spec fn is_digit(b: u8) -> bool {
    0x30 <= b <= 0x39
}

/// The scan before the first byte.
pub open spec fn start() -> Scan {
    Scan {
        ok: true,
        depth: 0,
        in_string: false,
        escaped: false,
        string_len: 0,
        after_string: false,
        after_comma: false,
        number: Number::Outside,
        exponent: 0,
    }
}

/// The scan `s` behind a byte that is neither white space nor part of a string or number.
pub open spec fn plain(s: Scan) -> Scan {
    Scan { after_string: false, after_comma: false, number: Number::Outside, ..s }
}

/// The scan `s` behind one more byte of a string.
pub open spec fn inside(s: Scan, b: u8) -> Scan {
    if s.escaped {
        Scan { escaped: false, string_len: grown(s.string_len), ..s }
    } else if b == 0x5c {
        Scan { escaped: true, string_len: grown(s.string_len), ..s }
    } else if b == 0x22 {
        Scan { in_string: false, after_string: true, ..s }
    } else {
        Scan { string_len: grown(s.string_len), ..s }
    }
}

/// A length with one more byte, counted up to `MAX_KEY + 1`.
pub open spec fn grown(len: usize) -> usize {
    if len <= MAX_KEY {
        (len + 1) as usize
    } else {
        len
    }
}

/// The scan `s` behind one more digit outside a string.
pub open spec fn digit(s: Scan, b: u8) -> Scan {
    match s.number {
        Number::Mark | Number::Sign | Number::Exponent => {
            if s.exponent * 10 + (b - 0x30) <= MAX_EXPONENT {
                Scan {
                    number: Number::Exponent,
                    exponent: (s.exponent * 10 + (b - 0x30)) as u64,
                    ..plain(s)
                }
            } else {
                Scan { ok: false, ..s }
            }
        },
        _ => Scan { number: Number::Digit, ..plain(s) },
    }
}

/// The scan `s` behind one more byte: what the byte opens, closes or adds to, and
/// whether the parser can still take the text.
///
/// A text is refused for good at a bracket that is opened with `MAX_DEPTH` brackets
/// open, at a colon behind a string of more than `MAX_KEY` bytes, at a closing brace
/// behind a comma, and at an exponent digit that makes the exponent more than
/// `MAX_EXPONENT`.
pub open spec fn step(s: Scan, b: u8) -> Scan {
    if !s.ok {
        s
    } else if s.in_string {
        inside(s, b)
    } else if is_space(b) {
        Scan { number: Number::Outside, ..s }
    } else if b == 0x22 {
        Scan { in_string: true, escaped: false, string_len: 0, ..plain(s) }
    } else if b == 0x3a {
        Scan { ok: !(s.after_string && s.string_len > MAX_KEY), ..plain(s) }
    } else if b == 0x2c {
        Scan { after_comma: true, ..plain(s) }
    } else if b == 0x5b || b == 0x7b {
        if s.depth < MAX_DEPTH {
            Scan { depth: (s.depth + 1) as usize, ..plain(s) }
        } else {
            Scan { ok: false, ..s }
        }
    } else if b == 0x7d {
        Scan { ok: !s.after_comma, depth: shrunk(s.depth), ..plain(s) }
    } else if b == 0x5d {
        Scan { depth: shrunk(s.depth), ..plain(s) }
    } else if is_digit(b) {
        digit(s, b)
    } else if (b == 0x65 || b == 0x45) && s.number == Number::Digit {
        Scan { number: Number::Mark, exponent: 0, ..plain(s) }
    } else if (b == 0x2b || b == 0x2d) && s.number == Number::Mark {
        Scan { number: Number::Sign, ..plain(s) }
    } else {
        plain(s)
    }
}

/// A depth with one bracket closed.
pub open spec fn shrunk(depth: usize) -> usize {
    if depth > 0 {
        (depth - 1) as usize
    } else {
        depth
    }
}

/// The scan behind all of `bytes`.
pub open spec fn scan(bytes: Seq<u8>) -> Scan
    decreases bytes.len(),
{
    if bytes.len() == 0 {
        start()
    } else {
        step(scan(bytes.drop_last()), bytes.last())
    }
}

/// Whether the parser can take a text with these bytes: it is not longer than `MAX_TEXT`
/// and the scan behind it has refused nothing.
pub open spec fn safe_bytes(bytes: Seq<u8>) -> bool {
    bytes.len() <= MAX_TEXT && scan(bytes).ok
}

/// The counts of a scan stay within their limits.
pub proof fn lemma_scan_bounds(bytes: Seq<u8>)
    ensures
        scan(bytes).depth <= MAX_DEPTH,
        scan(bytes).string_len <= MAX_KEY + 1,
        scan(bytes).exponent <= MAX_EXPONENT,
    decreases bytes.len(),
{
    if bytes.len() > 0 {
        lemma_scan_bounds(bytes.drop_last());
    }
}

/// The scan `s` behind one more byte.
pub fn advance(s: Scan, b: u8) -> (r: Scan)
    requires
        s.depth <= MAX_DEPTH,
        s.string_len <= MAX_KEY + 1,
        s.exponent <= MAX_EXPONENT,
    ensures
        r == step(s, b),
{
    let rest = Scan { after_string: false, after_comma: false, number: Number::Outside, ..s };
    if !s.ok {
        s
    } else if s.in_string {
        let len = if s.string_len <= MAX_KEY {
            s.string_len + 1
        } else {
            s.string_len
        };
        if s.escaped {
            Scan { escaped: false, string_len: len, ..s }
        } else if b == 0x5c {
            Scan { escaped: true, string_len: len, ..s }
        } else if b == 0x22 {
            Scan { in_string: false, after_string: true, ..s }
        } else {
            Scan { string_len: len, ..s }
        }
    } else if b == 0x20 || b == 0x0a || b == 0x09 || b == 0x0d {
        Scan { number: Number::Outside, ..s }
    } else if b == 0x22 {
        Scan { in_string: true, escaped: false, string_len: 0, ..rest }
    } else if b == 0x3a {
        Scan { ok: !(s.after_string && s.string_len > MAX_KEY), ..rest }
    } else if b == 0x2c {
        Scan { after_comma: true, ..rest }
    } else if b == 0x5b || b == 0x7b {
        if s.depth < MAX_DEPTH {
            Scan { depth: s.depth + 1, ..rest }
        } else {
            Scan { ok: false, ..s }
        }
    } else if b == 0x7d {
        let depth = if s.depth > 0 {
            s.depth - 1
        } else {
            s.depth
        };
        Scan { ok: !s.after_comma, depth, ..rest }
    } else if b == 0x5d {
        let depth = if s.depth > 0 {
            s.depth - 1
        } else {
            s.depth
        };
        Scan { depth, ..rest }
    } else if 0x30 <= b && b <= 0x39 {
        match s.number {
            Number::Mark | Number::Sign | Number::Exponent => {
                let exponent = s.exponent * 10 + (b - 0x30) as u64;
                if exponent <= MAX_EXPONENT {
                    Scan { number: Number::Exponent, exponent, ..rest }
                } else {
                    Scan { ok: false, ..s }
                }
            },
            _ => Scan { number: Number::Digit, ..rest },
        }
    } else if (b == 0x65 || b == 0x45) && s.number == Number::Digit {
        Scan { number: Number::Mark, exponent: 0, ..rest }
    } else if (b == 0x2b || b == 0x2d) && s.number == Number::Mark {
        Scan { number: Number::Sign, ..rest }
    } else {
        rest
    }
}

/// Whether the parser can take a text with these bytes.
pub fn scan_bytes(bytes: &[u8]) -> (safe: bool)
    ensures
        safe == safe_bytes(bytes@),
{
    if bytes.len() > MAX_TEXT {
        return false;
    }
    let mut s = Scan {
        ok: true,
        depth: 0,
        in_string: false,
        escaped: false,
        string_len: 0,
        after_string: false,
        after_comma: false,
        number: Number::Outside,
        exponent: 0,
    };
    let mut i: usize = 0;
    proof {
        assert(bytes@.take(0) =~= Seq::<u8>::empty());
    }
    while i < bytes.len()
        invariant
            i <= bytes@.len(),
            s == scan(bytes@.take(i as int)),
        decreases bytes@.len() - i,
    {
        proof {
            lemma_scan_bounds(bytes@.take(i as int));
            assert(bytes@.take(i + 1).drop_last() =~= bytes@.take(i as int));
        }
        s = advance(s, bytes[i]);
        i += 1;
    }
    proof {
        assert(bytes@.take(i as int) =~= bytes@);
    }
    s.ok
}

} // verus!
