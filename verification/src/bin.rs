//! The binary framing: fixed-width little-endian integers, length-prefixed strings,
//! one tag byte in front of every tagged union and a count in front of every batch.

use vstd::prelude::*;
use vstd::string::StringExecFns;
use crate::framing::{get_u32, get_u8, parse_u32, parse_u8, put_u32, put_u8};
use crate::le::{lemma_u32_le, u32_to_le};
use crate::{views_of, Workload, WorkloadView};

verus! {

/// Why a buffer could not be decoded.
#[derive(Debug, Clone, Copy, PartialEq, Eq)]
pub enum Error {
    /// The bytes of a string are not UTF-8: `valid_up_to` bytes of it are, and the
    /// sequence that follows is invalid over `error_len` bytes, or cut off by the end of
    /// the string where `error_len` is `None`.
    Utf8 { valid_up_to: usize, error_len: Option<usize> },
    /// The buffer ends before the value does.
    UnexpectedEOF,
    /// A tagged union starts with a byte that names none of its variants.
    InvalidTag(u8),
}

/// The decimal digit `d`.
pub open spec fn digit(d: nat) -> char
    recommends
        d < 10,
{
    if d == 0 {
        '0'
    } else if d == 1 {
        '1'
    } else if d == 2 {
        '2'
    } else if d == 3 {
        '3'
    } else if d == 4 {
        '4'
    } else if d == 5 {
        '5'
    } else if d == 6 {
        '6'
    } else if d == 7 {
        '7'
    } else if d == 8 {
        '8'
    } else {
        '9'
    }
}

/// The decimal numeral of `n`, without leading zeros.
pub open spec fn decimal(n: nat) -> Seq<char>
    decreases n,
{
    if n < 10 {
        seq![digit(n)]
    } else {
        decimal(n / 10).push(digit(n % 10))
    }
}

/// The numeral of one digit.
fn digit_text(d: usize) -> (text: &'static str)
    requires
        d < 10,
    ensures
        text@ == seq![digit(d as nat)],
{
    proof {
        reveal_strlit("0");
        reveal_strlit("1");
        reveal_strlit("2");
        reveal_strlit("3");
        reveal_strlit("4");
        reveal_strlit("5");
        reveal_strlit("6");
        reveal_strlit("7");
        reveal_strlit("8");
        reveal_strlit("9");
    }
    let text = if d == 0 {
        "0"
    } else if d == 1 {
        "1"
    } else if d == 2 {
        "2"
    } else if d == 3 {
        "3"
    } else if d == 4 {
        "4"
    } else if d == 5 {
        "5"
    } else if d == 6 {
        "6"
    } else if d == 7 {
        "7"
    } else if d == 8 {
        "8"
    } else {
        "9"
    };
    assert(text@ =~= seq![digit(d as nat)]);
    text
}

/// The decimal numeral of `n`.
pub fn decimal_text(n: usize) -> (text: String)
    ensures
        text@ == decimal(n as nat),
    decreases n,
{
    if n < 10 {
        String::from_str(digit_text(n))
    } else {
        let text = decimal_text(n / 10).concat(digit_text(n % 10));
        assert(text@ =~= decimal(n as nat));
        text
    }
}

impl Error {
    /// What `message` says.
    pub open spec fn message_text(self) -> Seq<char> {
        match self {
            Error::Utf8 { valid_up_to, error_len: Some(len) } => "utf8 related error: "@
                + "invalid utf-8 sequence of "@ + decimal(len as nat) + " bytes from index "@
                + decimal(valid_up_to as nat),
            Error::Utf8 { valid_up_to, error_len: None } => "utf8 related error: "@
                + "incomplete utf-8 byte sequence from index "@ + decimal(valid_up_to as nat),
            Error::UnexpectedEOF => "unexpected EOF"@,
            Error::InvalidTag(tag) => "invalid proto tag "@ + decimal(tag as nat),
        }
    }

    /// The error in words.
    pub fn message(&self) -> (text: String)
        ensures
            text@ == self.message_text(),
    {
        match self {
            Error::Utf8 { valid_up_to, error_len: Some(len) } => String::from_str(
                "utf8 related error: ",
            ).concat("invalid utf-8 sequence of ").concat(decimal_text(*len).as_str()).concat(
                " bytes from index ",
            ).concat(decimal_text(*valid_up_to).as_str()),
            Error::Utf8 { valid_up_to, error_len: None } => String::from_str(
                "utf8 related error: ",
            ).concat("incomplete utf-8 byte sequence from index ").concat(
                decimal_text(*valid_up_to).as_str(),
            ),
            Error::UnexpectedEOF => String::from_str("unexpected EOF"),
            Error::InvalidTag(tag) => String::from_str("invalid proto tag ").concat(
                decimal_text(*tag as usize).as_str(),
            ),
        }
    }
}

/// What `decode` computes: the view of the first value in `area` and the bytes behind it,
/// or the error.
pub type Parsed<V> = Result<(V, Seq<u8>), Error>;

/// A value that can be written to a byte buffer.
pub trait ToBin: View {
    /// The bytes that stand for a value.
    spec fn wire(v: Self::V) -> Seq<u8>;

    /// Whether every string length and every batch count in the value fits the four-byte
    /// prefix that carries it.
    spec fn fits(v: Self::V) -> bool;

    /// Whether the value fits: what `encode` asks for, as a test.
    fn fits_wire(&self) -> (b: bool)
        ensures
            b == Self::fits(self@),
    ;

    /// The number of bytes that `encode` writes.
    fn encode_len(&self) -> (n: usize)
        requires
            Self::wire(self@).len() <= usize::MAX,
        ensures
            n == Self::wire(self@).len(),
    ;

    /// Writes the value at the front of `area` and returns what is left of `area` behind it.
    fn encode<'a>(&self, area: &'a mut [u8]) -> (rest: &'a mut [u8])
        requires
            Self::fits(self@),
            Self::wire(self@).len() <= old(area)@.len(),
        ensures
            rest@ == old(area)@.skip(Self::wire(self@).len() as int),
            final(area)@ == Self::wire(self@) + final(rest)@,
    ;
}

/// A value that can be read from a byte buffer.
pub trait FromBin: Sized + View {
    /// The value at the front of `area` and the bytes behind it, or why there is none.
    spec fn parse(area: Seq<u8>) -> Parsed<Self::V>;

    /// Reads one value from the front of `area` and returns it with the rest of `area`.
    fn decode<'a>(area: &'a [u8]) -> (r: Result<(Self, &'a [u8]), Error>)
        ensures
            decoded(r, Self::parse(area@)),
    ;
}

/// `r` is the outcome `p`: the same error, or a value with the view and the rest that `p` has.
pub open spec fn decoded<T: View>(r: Result<(T, &[u8]), Error>, p: Parsed<T::V>) -> bool {
    match p {
        Ok((v, rest)) => r matches Ok((value, tail)) && value@ == v && tail@ == rest,
        Err(e) => r == Err::<(T, &[u8]), Error>(e),
    }
}

/// The bytes of the items of a batch, one after the other.
pub open spec fn wire_all<T: ToBin>(items: Seq<T::V>) -> Seq<u8>
    decreases items.len(),
{
    if items.len() == 0 {
        Seq::empty()
    } else {
        T::wire(items[0]) + wire_all::<T>(items.drop_first())
    }
}

/// Whether every item of a batch fits.
pub open spec fn fits_all<T: ToBin>(items: Seq<T::V>) -> bool {
    forall|i: int| 0 <= i < items.len() ==> T::fits(#[trigger] items[i])
}

/// What reading `count` items one after the other gives: the items and the bytes behind
/// the last one, or the error of the first item that cannot be read.
pub open spec fn parse_all<T: FromBin>(area: Seq<u8>, count: nat) -> Parsed<Seq<T::V>>
    decreases count,
{
    if count == 0 {
        Ok((Seq::empty(), area))
    } else {
        match T::parse(area) {
            Err(e) => Err(e),
            Ok((first, rest)) => match parse_all::<T>(rest, (count - 1) as nat) {
                Err(e) => Err(e),
                Ok((others, rest)) => Ok((seq![first] + others, rest)),
            },
        }
    }
}

/// The outcome `p` with `front` put before the items that it holds.
pub open spec fn after<V>(front: Seq<V>, p: Parsed<Seq<V>>) -> Parsed<Seq<V>> {
    match p {
        Ok((items, rest)) => Ok((front + items, rest)),
        Err(e) => Err(e),
    }
}

/// The bytes of the first `n` items are the bytes of the first `n - 1` and those of item
/// `n - 1`.
pub proof fn lemma_wire_all_take<T: ToBin>(items: Seq<T::V>, n: int)
    requires
        0 < n <= items.len(),
    ensures
        wire_all::<T>(items.take(n)) == wire_all::<T>(items.take(n - 1)) + T::wire(items[n - 1]),
    decreases n,
{
    let front = items.take(n);
    if n == 1 {
        assert(front.drop_first() =~= Seq::<T::V>::empty());
        assert(items.take(0) =~= Seq::<T::V>::empty());
        assert(wire_all::<T>(Seq::<T::V>::empty()) =~= Seq::<u8>::empty());
        assert(wire_all::<T>(front) =~= T::wire(items[0]));
    } else {
        lemma_wire_all_take::<T>(items.drop_first(), n - 1);
        assert(front.drop_first() =~= items.drop_first().take(n - 1));
        assert(items.take(n - 1).drop_first() =~= items.drop_first().take(n - 2));
        assert(wire_all::<T>(front) =~= wire_all::<T>(items.take(n - 1)) + T::wire(
            items[n - 1],
        ));
    }
}

/// The bytes of a prefix of a batch are no more than the bytes of the batch.
pub proof fn lemma_wire_all_len<T: ToBin>(items: Seq<T::V>, n: int)
    requires
        0 <= n <= items.len(),
    ensures
        wire_all::<T>(items.take(n)).len() <= wire_all::<T>(items).len(),
    decreases items.len() - n,
{
    if n == items.len() {
        assert(items.take(n) =~= items);
    } else {
        lemma_wire_all_len::<T>(items, n + 1);
        lemma_wire_all_take::<T>(items, n + 1);
    }
}

impl<T: ToBin> ToBin for Workload<T> {
    open spec fn wire(v: WorkloadView<T::V>) -> Seq<u8> {
        match v {
            WorkloadView::Single(item) => seq![1u8] + T::wire(item),
            WorkloadView::Many(items) => seq![2u8] + u32_to_le(items.len() as u32)
                + wire_all::<T>(items),
        }
    }

    open spec fn fits(v: WorkloadView<T::V>) -> bool {
        match v {
            WorkloadView::Single(item) => T::fits(item),
            WorkloadView::Many(items) => items.len() <= u32::MAX && fits_all::<T>(items),
        }
    }

    fn fits_wire(&self) -> (b: bool) {
        match self {
            Workload::Single(value) => value.fits_wire(),
            Workload::Many(values) => {
                if values.len() > 0xffff_ffff {
                    return false;
                }
                let mut i: usize = 0;
                while i < values.len()
                    invariant
                        i <= values.len() <= u32::MAX,
                        self@ == WorkloadView::Many(views_of(values@)),
                        forall|j: int| 0 <= j < i ==> T::fits(#[trigger] views_of(values@)[j]),
                    decreases values.len() - i,
                {
                    if !values[i].fits_wire() {
                        assert(!T::fits(views_of(values@)[i as int]));
                        return false;
                    }
                    i += 1;
                }
                true
            },
        }
    }

    fn encode_len(&self) -> (n: usize) {
        proof {
            lemma_u32_le();
        }
        match self {
            Workload::Single(value) => 1 + value.encode_len(),
            Workload::Many(values) => {
                let ghost items = views_of(values@);
                let mut total: usize = 5;
                let mut i: usize = 0;
                while i < values.len()
                    invariant
                        i <= values.len(),
                        items == views_of(values@),
                        total == 5 + wire_all::<T>(items.take(i as int)).len(),
                        5 + wire_all::<T>(items).len() <= usize::MAX,
                    decreases values.len() - i,
                {
                    proof {
                        lemma_wire_all_take::<T>(items, i + 1);
                        lemma_wire_all_len::<T>(items, i + 1);
                    }
                    total = total + values[i].encode_len();
                    i += 1;
                }
                proof {
                    assert(items.take(i as int) =~= items);
                }
                total
            },
        }
    }

    fn encode<'a>(&self, area: &'a mut [u8]) -> (rest: &'a mut [u8]) {
        proof {
            lemma_u32_le();
        }
        match self {
            Workload::Single(value) => {
                let area = put_u8(area, 1);
                value.encode(area)
            },
            Workload::Many(values) => {
                let ghost items = views_of(values@);
                let ghost whole = old(area)@;
                let ghost written = final(area)@;
                let ghost head = seq![2u8] + u32_to_le(items.len() as u32);
                let area1 = put_u8(area, 2);
                let mut cur = put_u32(area1, values.len() as u32);
                let mut i: usize = 0;
                while i < values.len()
                    invariant
                        i <= values.len(),
                        items == views_of(values@),
                        fits_all::<T>(items),
                        head.len() == 5,
                        5 + wire_all::<T>(items).len() <= whole.len(),
                        cur@ == whole.skip(5 + wire_all::<T>(items.take(i as int)).len() as int),
                        written == head + wire_all::<T>(items.take(i as int)) + final(cur)@,
                    decreases values.len() - i,
                {
                    proof {
                        lemma_wire_all_take::<T>(items, i + 1);
                        lemma_wire_all_len::<T>(items, i + 1);
                    }
                    cur = values[i].encode(cur);
                    i += 1;
                }
                proof {
                    assert(items.take(i as int) =~= items);
                }
                cur
            },
        }
    }
}

/// A batch read as `items`, with the outcome `p` of reading them.
pub open spec fn many<V>(p: Parsed<Seq<V>>) -> Parsed<WorkloadView<V>> {
    match p {
        Ok((items, rest)) => Ok((WorkloadView::Many(items), rest)),
        Err(e) => Err(e),
    }
}

impl<T: FromBin> FromBin for Workload<T> {
    open spec fn parse(area: Seq<u8>) -> Parsed<WorkloadView<T::V>> {
        match parse_u8(area) {
            Err(e) => Err(e),
            Ok((tag, rest)) => {
                if tag == 1 {
                    match T::parse(rest) {
                        Ok((item, rest)) => Ok((WorkloadView::Single(item), rest)),
                        Err(e) => Err(e),
                    }
                } else if tag == 2 {
                    match parse_u32(rest) {
                        Ok((count, rest)) => many(parse_all::<T>(rest, count as nat)),
                        Err(e) => Err(e),
                    }
                } else {
                    Err(Error::InvalidTag(tag))
                }
            },
        }
    }

    fn decode<'a>(area: &'a [u8]) -> (r: Result<(Workload<T>, &'a [u8]), Error>) {
        let (tag, body) = get_u8(area)?;
        if tag == 1 {
            let (value, rest) = T::decode(body)?;
            Ok((Workload::Single(value), rest))
        } else if tag == 2 {
            let (count, start) = get_u32(body)?;
            let mut cur = start;
            let mut values: Vec<T> = Vec::new();
            let mut i: u32 = 0;
            proof {
                assert(views_of(values@) =~= Seq::<T::V>::empty());
                if let Ok((items, _)) = parse_all::<T>(start@, count as nat) {
                    assert(Seq::<T::V>::empty() + items =~= items);
                }
            }
            while i < count
                invariant
                    i <= count,
                    Self::parse(area@) == many(parse_all::<T>(start@, count as nat)),
                    parse_all::<T>(start@, count as nat) == after(
                        views_of(values@),
                        parse_all::<T>(cur@, (count - i) as nat),
                    ),
                decreases count - i,
            {
                let ghost before = views_of(values@);
                match T::decode(cur) {
                    Ok((value, next)) => {
                        values.push(value);
                        proof {
                            let tail = parse_all::<T>(next@, (count - i - 1) as nat);
                            assert(views_of(values@) =~= before.push(value@));
                            if let Ok((others, rest)) = tail {
                                assert(before + (seq![value@] + others) =~= before.push(value@)
                                    + others);
                            }
                        }
                        cur = next;
                    },
                    Err(e) => {
                        return Err(e);
                    },
                }
                i += 1;
            }
            proof {
                assert(views_of(values@) + Seq::<T::V>::empty() =~= views_of(values@));
            }
            Ok((Workload::Many(values), cur))
        } else {
            Err(Error::InvalidTag(tag))
        }
    }
}

} // verus!
