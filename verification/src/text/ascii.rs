//! Character classes and per-character mappings.

use vstd::prelude::*;

use super::to_chars;

verus! {

/// The Unicode `White_Space` property.
pub open spec fn white_space(c: char) -> bool {
    ||| '\u{9}' <= c <= '\u{d}'
    ||| c == '\u{20}'
    ||| c == '\u{85}'
    ||| c == '\u{a0}'
    ||| c == '\u{1680}'
    ||| '\u{2000}' <= c <= '\u{200a}'
    ||| '\u{2028}' <= c <= '\u{2029}'
    ||| c == '\u{202f}'
    ||| c == '\u{205f}'
    ||| c == '\u{3000}'
}

/// Whether a character is white space.
pub fn is_white_space(c: char) -> (white: bool)
    ensures
        white == white_space(c),
{
    ('\u{9}' <= c && c <= '\u{d}') || c == '\u{20}' || c == '\u{85}' || c == '\u{a0}' || c
        == '\u{1680}' || ('\u{2000}' <= c && c <= '\u{200a}') || ('\u{2028}' <= c && c
        <= '\u{2029}') || c == '\u{202f}' || c == '\u{205f}' || c == '\u{3000}'
}

/// An ASCII decimal digit.
pub open spec fn ascii_digit(c: char) -> bool {
    '0' <= c <= '9'
}

/// The lower-case form of an ASCII letter; any other character unchanged.
pub open spec fn lower_char(c: char) -> char {
    if 'A' <= c <= 'Z' {
        (c as u32 + 32) as char
    } else {
        c
    }
}

/// A text with every ASCII letter in lower case.
pub open spec fn lowered(text: Seq<char>) -> Seq<char> {
    text.map_values(|c: char| lower_char(c))
}

/// The lower-case form of an ASCII letter; any other character unchanged.
pub fn to_lower_char(c: char) -> (lower: char)
    ensures
        lower == lower_char(c),
{
    if 'A' <= c && c <= 'Z' {
        ((c as u8) + 32) as char
    } else {
        c
    }
}

/// A copy of the text with every ASCII letter in lower case.
pub fn to_ascii_lowercase(text: &str) -> (lower: String)
    ensures
        lower@ == lowered(text@),
{
    let mut lower = String::new();
    for c in it: text.chars()
        invariant
            it.seq() == text@,
            lower@ == lowered(text@.take(it.index() as int)),
    {
        lower.push(to_lower_char(c));
    }
    assert(text@.take(text@.len() as int) =~= text@);
    lower
}

/// A text with every `from` replaced by `to`.
pub open spec fn with_replaced(text: Seq<char>, from: char, to: char) -> Seq<char> {
    text.map_values(|c: char| if c == from { to } else { c })
}

/// A copy of the text with every `from` replaced by `to`.
pub fn replace_char(text: &str, from: char, to: char) -> (replaced: String)
    ensures
        replaced@ == with_replaced(text@, from, to),
{
    let mut replaced = String::new();
    for c in it: text.chars()
        invariant
            it.seq() == text@,
            replaced@ == with_replaced(text@.take(it.index() as int), from, to),
    {
        replaced.push(if c == from { to } else { c });
    }
    assert(text@.take(text@.len() as int) =~= text@);
    replaced
}

/// Whether every character from `start` on is an ASCII digit.
pub fn all_digits_from(text: &str, start: usize) -> (all: bool)
    requires
        start <= text@.len(),
    ensures
        all == (forall|i: int| start <= i < text@.len() ==> ascii_digit(#[trigger] text@[i])),
{
    let chars = to_chars(text);
    for i in start..chars.len()
        invariant
            chars@ == text@,
            forall|j: int| start <= j < i ==> ascii_digit(#[trigger] text@[j]),
    {
        let c = chars[i];
        if !('0' <= c && c <= '9') {
            assert(!ascii_digit(text@[i as int]));
            return false;
        }
    }
    true
}

/// Lower-casing twice changes nothing more than lower-casing once.
pub proof fn lowered_is_idempotent(text: Seq<char>)
    ensures
        lowered(lowered(text)) == lowered(text),
{
    assert forall|c: char| #[trigger] lower_char(lower_char(c)) == lower_char(c) by {
        if 'A' <= c <= 'Z' {
            assert((c as u32 + 32) as u32 <= 122);
        }
    }
    assert(lowered(lowered(text)) =~= lowered(text));
}

/// Lower-casing maps the capital letters to the small ones in order, and leaves every other
/// character alone.
pub proof fn capitals_become_small(c: char, lower: char)
    requires
        call_ensures(to_lower_char, (c,), lower),
    ensures
        65 <= c as u32 <= 90 ==> lower as u32 == c as u32 + 32,
        !(65 <= c as u32 <= 90) ==> lower == c,
{
}

/// A lower-cased text has the length of the text, and at each place the small form of what stands
/// there.
pub proof fn texts_are_lowered_in_place(text: &str, lower: String)
    requires
        call_ensures(to_ascii_lowercase, (text,), lower),
    ensures
        lower@.len() == text@.len(),
        forall|i: int|
            0 <= i < text@.len() ==> (#[trigger] lower@[i]) as u32 == if 65 <= text@[i] as u32
                <= 90 {
                text@[i] as u32 + 32
            } else {
                text@[i] as int
            },
{
}

/// Exactly the characters with these numbers are white space.
pub proof fn blanks_are_known_by_number(c: char, white: bool)
    requires
        call_ensures(is_white_space, (c,), white),
    ensures
        white <==> {
            let number = c as u32;
            ||| 9 <= number <= 13
            ||| number == 32
            ||| number == 133
            ||| number == 160
            ||| number == 5760
            ||| 8192 <= number <= 8202
            ||| number == 8232
            ||| number == 8233
            ||| number == 8239
            ||| number == 8287
            ||| number == 12288
        },
{
}

/// Replacing a character changes it wherever it stands, and nothing else.
pub proof fn characters_are_replaced_in_place(text: &str, from: char, to: char, replaced: String)
    requires
        call_ensures(replace_char, (text, from, to), replaced),
    ensures
        replaced@.len() == text@.len(),
        forall|i: int|
            0 <= i < text@.len() ==> {
                &&& text@[i] == from ==> #[trigger] replaced@[i] == to
                &&& text@[i] != from ==> replaced@[i] == text@[i]
            },
{
}

}
