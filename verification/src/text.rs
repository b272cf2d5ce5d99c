//! Text as sequences of characters: substring search and decimal numerals.
//!
//! Contracts in this crate speak of a string through its view, the sequence of
//! its characters. The functions here are the few text operations the gateway
//! needs, each proved against a statement over such sequences.

use vstd::prelude::*;
use vstd::string::{StringExecFns, StrSliceExecFns};

verus! {

/// `needle` stands in `hay` at offset `at`.
pub open spec fn occurs_at(hay: Seq<char>, needle: Seq<char>, at: int) -> bool {
    &&& 0 <= at
    &&& at + needle.len() <= hay.len()
    &&& hay.subrange(at, at + needle.len()) == needle
}

/// `needle` stands somewhere in `hay` as a contiguous run of characters.
pub open spec fn contains_text(hay: Seq<char>, needle: Seq<char>) -> bool {
    exists|at: int| occurs_at(hay, needle, at)
}

/// Whether two texts hold the same characters.
pub fn str_eq(a: &str, b: &str) -> (same: bool)
    ensures
        same == (a@ == b@),
{
    let a_owned = String::from_str(a);
    let b_owned = String::from_str(b);
    a_owned == b_owned
}

/// The characters of `s`, in order.
pub fn chars_of(s: &str) -> (v: Vec<char>)
    ensures
        v@ == s@,
{
    let mut v: Vec<char> = Vec::new();
    for c in it: s.chars()
        invariant
            v@ == it.seq().take(it.index() as int),
            it.seq() == s@,
    {
        v.push(c);
    }
    v
}

/// Whether `needle` stands in `hay` at offset `at`.
pub fn matches_at(hay: &Vec<char>, needle: &Vec<char>, at: usize) -> (found: bool)
    requires
        at + needle.len() <= hay.len(),
    ensures
        found == occurs_at(hay@, needle@, at as int),
{
    let mut k: usize = 0;
    while k < needle.len()
        invariant
            k <= needle.len(),
            at + needle.len() <= hay.len(),
            forall|j: int| 0 <= j < k ==> hay@[at + j] == needle@[j],
        decreases needle.len() - k,
    {
        if hay[at + k] != needle[k] {
            proof {
                let window = hay@.subrange(at as int, at + needle.len());
                assert(window[k as int] == hay@[at + k]);
            }
            return false;
        }
        k += 1;
    }
    proof {
        let window = hay@.subrange(at as int, at + needle.len());
        assert(window =~= needle@);
    }
    true
}

/// Whether `needle` stands somewhere in `hay`.
pub fn contains_chars(hay: &Vec<char>, needle: &Vec<char>) -> (found: bool)
    ensures
        found == contains_text(hay@, needle@),
{
    if needle.len() > hay.len() {
        return false;
    }
    let last: usize = hay.len() - needle.len();
    let mut at: usize = 0;
    while at < last
        invariant
            last == hay.len() - needle.len(),
            needle.len() <= hay.len(),
            at <= last,
            forall|j: int| 0 <= j < at ==> !occurs_at(hay@, needle@, j),
        decreases last - at,
    {
        if matches_at(hay, needle, at) {
            return true;
        }
        at += 1;
    }
    matches_at(hay, needle, last)
}

/// Whether the text `needle` stands somewhere in the text `hay`.
///
/// The empty text stands in every text.
pub fn text_contains(hay: &str, needle: &str) -> (found: bool)
    ensures
        found == contains_text(hay@, needle@),
{
    let hay_chars = chars_of(hay);
    let needle_chars = chars_of(needle);
    contains_chars(&hay_chars, &needle_chars)
}

/// The character that writes the digit `d`.
pub open spec fn digit_char(d: nat) -> char {
    if d == 0 {
        '0'
    } else if d == 1 {
        '1'
    } else if d == 2 {
        '2'
    } else if d == 3 {
        '3'
    } else if d == 4 {
        '4'
    } else if d == 5 {
        '5'
    } else if d == 6 {
        '6'
    } else if d == 7 {
        '7'
    } else if d == 8 {
        '8'
    } else {
        '9'
    }
}

/// The decimal numeral of `n`: no sign, no leading zero but for zero itself.
pub open spec fn decimal(n: nat) -> Seq<char>
    decreases n,
{
    if n < 10 {
        seq![digit_char(n)]
    } else {
        decimal(n / 10).push(digit_char(n % 10))
    }
}

/// The decimal numeral of a signed number: a minus sign before the numeral of
/// its magnitude when it is negative.
pub open spec fn signed_decimal(n: int) -> Seq<char> {
    if n < 0 {
        seq!['-'] + decimal((-n) as nat)
    } else {
        decimal(n as nat)
    }
}

fn digit_text(d: u64) -> (s: &'static str)
    requires
        d < 10,
    ensures
        s@ == seq![digit_char(d as nat)],
{
    proof {
        reveal_strlit("0");
        reveal_strlit("1");
        reveal_strlit("2");
        reveal_strlit("3");
        reveal_strlit("4");
        reveal_strlit("5");
        reveal_strlit("6");
        reveal_strlit("7");
        reveal_strlit("8");
        reveal_strlit("9");
    }
    let s = if d == 0 {
        "0"
    } else if d == 1 {
        "1"
    } else if d == 2 {
        "2"
    } else if d == 3 {
        "3"
    } else if d == 4 {
        "4"
    } else if d == 5 {
        "5"
    } else if d == 6 {
        "6"
    } else if d == 7 {
        "7"
    } else if d == 8 {
        "8"
    } else {
        "9"
    };
    assert(s@ =~= seq![digit_char(d as nat)]);
    s
}

/// Writes `n` as a decimal numeral.
pub fn u64_to_decimal(n: u64) -> (s: String)
    ensures
        s@ == decimal(n as nat),
    decreases n,
{
    if n < 10 {
        String::from_str(digit_text(n))
    } else {
        let mut s = u64_to_decimal(n / 10);
        s.append(digit_text(n % 10));
        assert(s@ =~= decimal((n / 10) as nat).push(digit_char((n % 10) as nat)));
        s
    }
}

/// Writes `n` as a decimal numeral, with a leading minus sign when negative.
pub fn i32_to_decimal(n: i32) -> (s: String)
    ensures
        s@ == signed_decimal(n as int),
{
    if n < 0 {
        let magnitude: u64 = (-(n as i64)) as u64;
        let digits = u64_to_decimal(magnitude);
        let mut s = String::from_str("-");
        s.append(digits.as_str());
        proof {
            reveal_strlit("-");
            assert("-"@ =~= seq!['-']);
        }
        s
    } else {
        u64_to_decimal(n as u64)
    }
}

/// The character that writes the hex digit `d`, in lower case.
pub open spec fn hex_char(d: nat) -> char {
    if d < 10 {
        digit_char(d)
    } else if d == 10 {
        'a'
    } else if d == 11 {
        'b'
    } else if d == 12 {
        'c'
    } else if d == 13 {
        'd'
    } else if d == 14 {
        'e'
    } else {
        'f'
    }
}

/// The hex text of `bytes`: two digits for each byte, the high one first, in
/// lower case.
pub open spec fn hex_of(bytes: Seq<u8>) -> Seq<char>
    decreases bytes.len(),
{
    if bytes.len() == 0 {
        Seq::empty()
    } else {
        hex_of(bytes.drop_last()).push(hex_char((bytes.last() / 16) as nat)).push(
            hex_char((bytes.last() % 16) as nat),
        )
    }
}

fn hex_text(d: u8) -> (s: &'static str)
    requires
        d < 16,
    ensures
        s@ == seq![hex_char(d as nat)],
{
    if d < 10 {
        digit_text(d as u64)
    } else {
        proof {
            reveal_strlit("a");
            reveal_strlit("b");
            reveal_strlit("c");
            reveal_strlit("d");
            reveal_strlit("e");
            reveal_strlit("f");
        }
        let s = if d == 10 {
            "a"
        } else if d == 11 {
            "b"
        } else if d == 12 {
            "c"
        } else if d == 13 {
            "d"
        } else if d == 14 {
            "e"
        } else {
            "f"
        };
        assert(s@ =~= seq![hex_char(d as nat)]);
        s
    }
}

/// Writes `bytes` as hex text after `prefix`.
pub fn hex_with_prefix(prefix: &str, bytes: &[u8]) -> (text: String)
    ensures
        text@ == prefix@ + hex_of(bytes@),
{
    let mut text = String::from_str(prefix);
    let mut i: usize = 0;
    assert(bytes@.take(0) =~= Seq::empty());
    assert(text@ =~= prefix@ + hex_of(bytes@.take(0)));
    while i < bytes.len()
        invariant
            i <= bytes.len(),
            text@ == prefix@ + hex_of(bytes@.take(i as int)),
        decreases bytes.len() - i,
    {
        let byte = bytes[i];
        let ghost before = text@;
        text.append(hex_text(byte / 16));
        text.append(hex_text(byte % 16));
        proof {
            let next = bytes@.take(i + 1);
            assert(next.drop_last() =~= bytes@.take(i as int));
            assert(next.last() == byte);
            assert(text@ =~= prefix@ + hex_of(next));
        }
        i += 1;
    }
    assert(bytes@.take(bytes.len() as int) =~= bytes@);
    text
}

/// Whether `c` is white space, as Unicode defines it.
pub open spec fn is_space(c: char) -> bool {
    let code = c as u32;
    ||| 0x09 <= code <= 0x0d
    ||| code == 0x20
    ||| code == 0x85
    ||| code == 0xa0
    ||| code == 0x1680
    ||| 0x2000 <= code <= 0x200a
    ||| code == 0x2028
    ||| code == 0x2029
    ||| code == 0x202f
    ||| code == 0x205f
    ||| code == 0x3000
}

/// Whether `c` is white space.
pub fn char_is_space(c: char) -> (space: bool)
    ensures
        space == is_space(c),
{
    let code: u32 = c as u32;
    (0x09 <= code && code <= 0x0d) || code == 0x20 || code == 0x85 || code == 0xa0 || code
        == 0x1680 || (0x2000 <= code && code <= 0x200a) || code == 0x2028 || code == 0x2029
        || code == 0x202f || code == 0x205f || code == 0x3000
}

/// `trimmed` is `text` without the white space at its start and at its end.
pub open spec fn is_trimmed(trimmed: Seq<char>, text: Seq<char>) -> bool {
    exists|from: int, to: int|
        {
            &&& 0 <= from <= to <= text.len()
            &&& #[trigger] text.subrange(from, to) == trimmed
            &&& forall|i: int| 0 <= i < from ==> is_space(#[trigger] text[i])
            &&& forall|i: int| to <= i < text.len() ==> is_space(#[trigger] text[i])
            &&& from < to ==> !is_space(text[from]) && !is_space(text[to - 1])
        }
}

/// The pieces of `text` from `start` on that commas part, given that no comma
/// stands between `start` and `at`.
pub open spec fn pieces_from(text: Seq<char>, start: int, at: int) -> Seq<Seq<char>>
    decreases text.len() - at,
{
    if at >= text.len() {
        seq![text.subrange(start, text.len() as int)]
    } else if text[at] == ',' {
        seq![text.subrange(start, at)] + pieces_from(text, at + 1, at + 1)
    } else {
        pieces_from(text, start, at + 1)
    }
}

/// The pieces of `text` that commas part, in order. A text without comma is
/// one piece; between two commas that touch lies an empty piece.
pub open spec fn pieces(text: Seq<char>) -> Seq<Seq<char>> {
    pieces_from(text, 0, 0)
}

/// `items` holds the pieces of `text` that commas part, each without the white
/// space at its start and at its end.
pub open spec fn is_comma_separated(items: Seq<String>, text: Seq<char>) -> bool {
    &&& items.len() == pieces(text).len()
    &&& forall|i: int| 0 <= i < items.len() ==> is_trimmed((#[trigger] items[i])@, pieces(text)[i])
}

fn trimmed_piece(text: &str, chars: &Vec<char>, start: usize, end: usize) -> (piece: String)
    requires
        chars@ == text@,
        start <= end <= chars.len(),
    ensures
        is_trimmed(piece@, text@.subrange(start as int, end as int)),
{
    let ghost whole = text@.subrange(start as int, end as int);
    let mut from: usize = start;
    while from < end && char_is_space(chars[from])
        invariant
            start <= from <= end <= chars.len(),
            chars@ == text@,
            forall|i: int| start <= i < from ==> is_space(#[trigger] text@[i]),
        decreases end - from,
    {
        from += 1;
    }
    let mut to: usize = end;
    while to > from && char_is_space(chars[to - 1])
        invariant
            start <= from <= to <= end <= chars.len(),
            chars@ == text@,
            forall|i: int| to <= i < end ==> is_space(#[trigger] text@[i]),
        decreases to - from,
    {
        to -= 1;
    }
    let piece = String::from_str(text.substring_char(from, to));
    proof {
        let a = from - start;
        let b = to - start;
        assert(whole.subrange(a, b) =~= text@.subrange(from as int, to as int));
        assert forall|i: int| 0 <= i < a implies is_space(#[trigger] whole[i]) by {
            assert(whole[i] == text@[start + i]);
        }
        assert forall|i: int| b <= i < whole.len() implies is_space(#[trigger] whole[i]) by {
            assert(whole[i] == text@[start + i]);
        }
        if a < b {
            assert(whole[a] == text@[from as int]);
            assert(whole[b - 1] == text@[to - 1]);
        }
    }
    piece
}

/// Reads a list that is written with commas between its items: the pieces of
/// `text` that commas part, each without the white space around it.
pub fn comma_separated(text: &str) -> (items: Vec<String>)
    ensures
        is_comma_separated(items@, text@),
{
    let chars = chars_of(text);
    let mut items: Vec<String> = Vec::new();
    let mut start: usize = 0;
    let mut at: usize = 0;
    while at < chars.len()
        invariant
            start <= at <= chars.len(),
            chars@ == text@,
            pieces(text@).len() == items@.len() + pieces_from(text@, start as int, at as int).len(),
            forall|i: int|
                0 <= i < items@.len() ==> is_trimmed((#[trigger] items@[i])@, pieces(text@)[i]),
            forall|i: int|
                0 <= i < pieces_from(text@, start as int, at as int).len() ==> pieces(text@)[items@.len()
                    + i] == #[trigger] pieces_from(text@, start as int, at as int)[i],
        decreases chars.len() - at,
    {
        if chars[at] == ',' {
            let ghost rest = pieces_from(text@, at + 1, at + 1);
            let ghost before = items@;
            let piece = trimmed_piece(text, &chars, start, at);
            proof {
                assert(pieces_from(text@, start as int, at as int)[0] == text@.subrange(
                    start as int,
                    at as int,
                ));
                assert(pieces(text@)[before.len() as int + 0] == text@.subrange(start as int, at as int));
            }
            items.push(piece);
            proof {
                assert forall|i: int| 0 <= i < rest.len() implies pieces(text@)[items@.len() + i]
                    == #[trigger] rest[i] by {
                    assert(pieces_from(text@, start as int, at as int)[i + 1] == rest[i]);
                    assert(pieces(text@)[before.len() + (i + 1)] == pieces_from(
                        text@,
                        start as int,
                        at as int,
                    )[i + 1]);
                }
                assert forall|i: int| 0 <= i < items@.len() implies is_trimmed(
                    (#[trigger] items@[i])@,
                    pieces(text@)[i],
                ) by {
                    if i < before.len() {
                        assert(items@[i] == before[i]);
                    }
                }
            }
            start = at + 1;
        }
        at += 1;
    }
    let ghost before = items@;
    let piece = trimmed_piece(text, &chars, start, chars.len());
    proof {
        assert(pieces_from(text@, start as int, at as int)[0] == text@.subrange(
            start as int,
            text@.len() as int,
        ));
        assert(pieces(text@)[before.len() as int + 0] == text@.subrange(start as int, text@.len() as int));
    }
    items.push(piece);
    proof {
        assert forall|i: int| 0 <= i < items@.len() implies is_trimmed(
            (#[trigger] items@[i])@,
            pieces(text@)[i],
        ) by {
            if i < before.len() {
                assert(items@[i] == before[i]);
            }
        }
    }
    items
}

} // verus!
