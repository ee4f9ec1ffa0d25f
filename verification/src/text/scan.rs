//! Trimming, splitting and searching.

use vstd::prelude::*;

use super::joined;
use super::ascii::is_white_space;
use super::ascii::white_space;
use super::from_chars;
use super::to_chars;

verus! {

/// A text without its leading white space.
pub open spec fn trimmed_start(text: Seq<char>) -> Seq<char>
    decreases text.len(),
{
    if text.len() > 0 && white_space(text[0]) {
        trimmed_start(text.drop_first())
    } else {
        text
    }
}

/// A text without its trailing white space.
pub open spec fn trimmed_end(text: Seq<char>) -> Seq<char>
    decreases text.len(),
{
    if text.len() > 0 && white_space(text.last()) {
        trimmed_end(text.drop_last())
    } else {
        text
    }
}

/// A text without its leading and trailing white space.
pub open spec fn trimmed(text: Seq<char>) -> Seq<char> {
    trimmed_end(trimmed_start(text))
}

/// A copy of the text without its leading and trailing white space.
pub fn trim(text: &str) -> (core: String)
    ensures
        core@ == trimmed(text@),
{
    let chars = to_chars(text);
    let mut start: usize = 0;
    assert(text@.skip(0) =~= text@);
    while start < chars.len() && is_white_space(chars[start])
        invariant
            start <= chars.len(),
            chars@ == text@,
            trimmed_start(text@) == trimmed_start(text@.skip(start as int)),
        decreases chars.len() - start,
    {
        assert(text@.skip(start as int).drop_first() =~= text@.skip(start + 1));
        start = start + 1;
    }
    let ghost front = text@.skip(start as int);
    assert(trimmed_start(text@) == front);
    let mut end: usize = chars.len();
    assert(front.take(end - start) =~= front);
    while end > start && is_white_space(chars[end - 1])
        invariant
            start <= end <= chars.len(),
            chars@ == text@,
            front == text@.skip(start as int),
            trimmed_end(front) == trimmed_end(front.take(end - start)),
        decreases end,
    {
        assert(front.take(end - start).drop_last() =~= front.take(end - start - 1));
        assert(front.take(end - start).last() == text@[end - 1]);
        end = end - 1;
    }
    proof {
        if end > start {
            assert(front.take(end - start).last() == text@[end - 1]);
        }
        assert(chars@.subrange(start as int, end as int) =~= front.take(end - start));
    }
    from_chars(&chars, start, end)
}

/// The pieces of a text between the occurrences of `separator`.
pub open spec fn pieces(text: Seq<char>, separator: char) -> Seq<Seq<char>>
    decreases text.len(),
{
    if text.len() == 0 {
        seq![Seq::empty()]
    } else {
        let before = pieces(text.drop_last(), separator);
        if text.last() == separator {
            before.push(Seq::empty())
        } else {
            before.update(before.len() - 1, before.last().push(text.last()))
        }
    }
}

/// There is always at least one piece.
pub proof fn pieces_are_not_empty(text: Seq<char>, separator: char)
    ensures
        pieces(text, separator).len() > 0,
    decreases text.len(),
{
    if text.len() > 0 {
        pieces_are_not_empty(text.drop_last(), separator);
    }
}

/// Cuts the text at every occurrence of `separator`.
pub fn split(text: &str, separator: char) -> (parts: Vec<String>)
    ensures
        super::texts(parts@) == pieces(text@, separator),
        parts.len() > 0,
{
    let chars = to_chars(text);
    let mut parts: Vec<String> = Vec::new();
    let mut current = String::new();
    proof {
        assert(text@.take(0) =~= Seq::<char>::empty());
        assert(super::texts(parts@).push(current@) =~= pieces(text@.take(0), separator));
    }
    for i in 0..chars.len()
        invariant
            chars@ == text@,
            super::texts(parts@).push(current@) == pieces(text@.take(i as int), separator),
    {
        let ghost before = super::texts(parts@).push(current@);
        let ghost old_parts = parts@;
        let ghost old_current = current@;
        assert(text@.take(i + 1).drop_last() =~= text@.take(i as int));
        if chars[i] == separator {
            parts.push(current);
            current = String::new();
            assert(super::texts(parts@) =~= before);
        } else {
            current.push(chars[i]);
            assert(super::texts(parts@).push(current@) =~= before.update(
                before.len() - 1,
                before.last().push(text@[i as int]),
            ));
        }
    }
    assert(text@.take(text@.len() as int) =~= text@);
    let ghost done = super::texts(parts@).push(current@);
    parts.push(current);
    assert(super::texts(parts@) =~= done);
    parts
}

/// `at` is the first position of `wanted` in the text.
pub open spec fn first_at(text: Seq<char>, wanted: char, at: int) -> bool {
    &&& 0 <= at < text.len()
    &&& text[at] == wanted
    &&& forall|i: int| 0 <= i < at ==> text[i] != wanted
}

/// The text before and after the first `separator`, if there is one.
pub open spec fn cut_once(text: Seq<char>, separator: char) -> Option<(Seq<char>, Seq<char>)> {
    if text.contains(separator) {
        let at = choose|at: int| first_at(text, separator, at);
        Some((text.take(at), text.skip(at + 1)))
    } else {
        None
    }
}

/// What [`cut_once`] gives where the first `separator` stands at `at`.
pub proof fn cut_once_at(text: Seq<char>, separator: char, at: int)
    requires
        first_at(text, separator, at),
    ensures
        cut_once(text, separator) == Some((text.take(at), text.skip(at + 1))),
{
    assert(text.contains(separator)) by {
        assert(text[at] == separator);
    }
    let chosen = choose|i: int| first_at(text, separator, i);
    assert(first_at(text, separator, chosen));
    assert(chosen == at);
}

/// The text before and after the first `separator`, if there is one.
pub fn split_once(text: &str, separator: char) -> (halves: Option<(String, String)>)
    ensures
        match halves {
            Some((before, after)) => cut_once(text@, separator) == Some((before@, after@)),
            None => cut_once(text@, separator) is None,
        },
{
    let chars = to_chars(text);
    for i in 0..chars.len()
        invariant
            chars@ == text@,
            forall|j: int| 0 <= j < i ==> text@[j] != separator,
    {
        if chars[i] == separator {
            proof {
                cut_once_at(text@, separator, i as int);
                assert(text@.subrange(0, i as int) =~= text@.take(i as int));
                assert(text@.subrange(i + 1, text@.len() as int) =~= text@.skip(i + 1));
            }
            return Some((from_chars(&chars, 0, i), from_chars(&chars, i + 1, chars.len())));
        }
    }
    None
}

/// `needle` stands at position `at` of the text.
pub open spec fn occurs_at(text: Seq<char>, needle: Seq<char>, at: int) -> bool {
    0 <= at && at + needle.len() <= text.len() && text.subrange(at, at + needle.len()) == needle
}

/// `needle` stands somewhere in the text.
pub open spec fn occurs(text: Seq<char>, needle: Seq<char>) -> bool {
    exists|at: int| occurs_at(text, needle, at)
}

fn matches_at(text: &Vec<char>, needle: &Vec<char>, at: usize) -> (found: bool)
    requires
        at + needle.len() <= text.len(),
    ensures
        found == occurs_at(text@, needle@, at as int),
{
    for i in 0..needle.len()
        invariant
            at + needle.len() <= text.len(),
            forall|j: int| 0 <= j < i ==> text@[at + j] == needle@[j],
    {
        if text[at + i] != needle[i] {
            assert(text@.subrange(at as int, at + needle@.len())[i as int] != needle@[i as int]);
            return false;
        }
    }
    assert(text@.subrange(at as int, at + needle@.len()) =~= needle@);
    true
}

/// Whether `needle` stands somewhere in the text.
pub fn contains(text: &str, needle: &str) -> (found: bool)
    ensures
        found == occurs(text@, needle@),
{
    let text_chars = to_chars(text);
    let needle_chars = to_chars(needle);
    if needle_chars.len() > text_chars.len() {
        return false;
    }
    let last: usize = text_chars.len() - needle_chars.len();
    let mut at: usize = 0;
    while at <= last
        invariant
            at <= last + 1,
            last + needle_chars.len() == text_chars.len(),
            text_chars@ == text@,
            needle_chars@ == needle@,
            forall|j: int| 0 <= j < at ==> !occurs_at(text@, needle@, j),
        decreases last + 1 - at,
    {
        if matches_at(&text_chars, &needle_chars, at) {
            return true;
        }
        if at == last {
            assert forall|j: int| !occurs_at(text@, needle@, j) by {
                if occurs_at(text@, needle@, j) {
                    assert(j <= last);
                }
            }
            return false;
        }
        at = at + 1;
    }
    false
}

/// Whether the text begins with `prefix`.
pub fn starts_with(text: &str, prefix: &str) -> (found: bool)
    ensures
        found == occurs_at(text@, prefix@, 0),
{
    let text_chars = to_chars(text);
    let prefix_chars = to_chars(prefix);
    prefix_chars.len() <= text_chars.len() && matches_at(&text_chars, &prefix_chars, 0)
}

/// The text after `prefix`, if the text begins with it.
pub open spec fn after_prefix(text: Seq<char>, prefix: Seq<char>) -> Option<Seq<char>> {
    if occurs_at(text, prefix, 0) {
        Some(text.skip(prefix.len() as int))
    } else {
        None
    }
}

/// The text after `prefix`, if the text begins with it.
pub fn strip_prefix(text: &str, prefix: &str) -> (rest: Option<String>)
    ensures
        super::opt_string(rest) == after_prefix(text@, prefix@),
{
    let text_chars = to_chars(text);
    let prefix_chars = to_chars(prefix);
    if prefix_chars.len() <= text_chars.len() && matches_at(&text_chars, &prefix_chars, 0) {
        assert(text@.subrange(prefix@.len() as int, text@.len() as int) =~= text@.skip(
            prefix@.len() as int,
        ));
        Some(from_chars(&text_chars, prefix_chars.len(), text_chars.len()))
    } else {
        None
    }
}

/// The text from position `start` on.
pub fn skip_chars(text: &str, start: usize) -> (rest: String)
    requires
        start <= text@.len(),
    ensures
        rest@ == text@.skip(start as int),
{
    let chars = to_chars(text);
    assert(text@.subrange(start as int, text@.len() as int) =~= text@.skip(start as int));
    from_chars(&chars, start, chars.len())
}

/// A line without the carriage return that may end it.
pub open spec fn without_return(line: Seq<char>) -> Seq<char> {
    if line.len() > 0 && line.last() == '\r' {
        line.drop_last()
    } else {
        line
    }
}

/// The lines of a text. A line ends at a line feed, and a carriage return before that line feed
/// belongs to the ending. A line feed at the very end starts no further line.
pub open spec fn lines_of(text: Seq<char>) -> Seq<Seq<char>> {
    let raw = pieces(text, '\n');
    let ended = raw.drop_last().map_values(|line: Seq<char>| without_return(line));
    if raw.last().len() == 0 {
        ended
    } else {
        ended.push(raw.last())
    }
}

fn drop_return(line: &str) -> (short: String)
    ensures
        short@ == without_return(line@),
{
    let chars = to_chars(line);
    let n = chars.len();
    if n > 0 && chars[n - 1] == '\r' {
        assert(line@.subrange(0, n - 1) =~= line@.drop_last());
        from_chars(&chars, 0, n - 1)
    } else {
        assert(line@.subrange(0, n as int) =~= line@);
        from_chars(&chars, 0, n)
    }
}

/// The lines of the text.
pub fn lines(text: &str) -> (list: Vec<String>)
    ensures
        super::texts(list@) == lines_of(text@),
{
    let raw = split(text, '\n');
    let ghost raw_texts = super::texts(raw@);
    let ghost ended = raw_texts.drop_last().map_values(|line: Seq<char>| without_return(line));
    let last: usize = raw.len() - 1;
    let mut list: Vec<String> = Vec::new();
    for i in 0..last
        invariant
            last == raw.len() - 1,
            raw_texts == super::texts(raw@),
            ended == raw_texts.drop_last().map_values(|line: Seq<char>| without_return(line)),
            super::texts(list@) == ended.take(i as int),
    {
        let ghost before = super::texts(list@);
        list.push(drop_return(raw[i].as_str()));
        assert(raw_texts.drop_last()[i as int] == raw@[i as int]@);
        assert(ended[i as int] == without_return(raw@[i as int]@));
        assert(super::texts(list@) =~= before.push(ended[i as int]));
        assert(super::texts(list@) =~= ended.take(i + 1));
    }
    assert(ended.take(last as int) =~= ended);
    if raw[last].as_str().is_empty() {
        assert(raw_texts.last().len() == 0);
    } else {
        list.push(raw[last].clone());
        assert(super::texts(list@) =~= ended.push(raw_texts.last()));
    }
    list
}

proof fn start_is_trimmed(text: Seq<char>)
    ensures
        ({
            let rest = trimmed_start(text);
            let cut = text.len() - rest.len();
            &&& 0 <= cut
            &&& text.skip(cut) == rest
            &&& forall|i: int| 0 <= i < cut ==> white_space(#[trigger] text[i])
            &&& rest.len() > 0 ==> !white_space(rest[0])
        }),
    decreases text.len(),
{
    if text.len() > 0 && white_space(text[0]) {
        let fewer = text.drop_first();
        start_is_trimmed(fewer);
        let rest = trimmed_start(text);
        let cut = text.len() - rest.len();
        assert(text.skip(cut) =~= fewer.skip(cut - 1));
        assert forall|i: int| 0 <= i < cut implies white_space(#[trigger] text[i]) by {
            if i > 0 {
                assert(text[i] == fewer[i - 1]);
            }
        }
    } else {
        assert(text.skip(0) =~= text);
    }
}

proof fn end_is_trimmed(text: Seq<char>)
    ensures
        ({
            let rest = trimmed_end(text);
            &&& rest.len() <= text.len()
            &&& text.take(rest.len() as int) == rest
            &&& forall|i: int| rest.len() <= i < text.len() ==> white_space(#[trigger] text[i])
            &&& rest.len() > 0 ==> !white_space(rest[rest.len() - 1])
        }),
    decreases text.len(),
{
    if text.len() > 0 && white_space(text.last()) {
        let fewer = text.drop_last();
        end_is_trimmed(fewer);
        let rest = trimmed_end(text);
        assert(text.take(rest.len() as int) =~= fewer.take(rest.len() as int));
        assert forall|i: int| rest.len() <= i < text.len() implies white_space(#[trigger] text[i])
            by {
            if i < fewer.len() {
                assert(text[i] == fewer[i]);
            }
        }
    } else {
        assert(text.take(text.len() as int) =~= text);
    }
}

/// Trimming cuts white space off both ends and nothing else: what is left is a part of the text,
/// with white space alone before and after it, and neither begins nor ends with any.
pub proof fn only_blanks_are_trimmed(text: &str, core: String) -> (start: int)
    requires
        call_ensures(trim, (text,), core),
    ensures
        0 <= start,
        start + core@.len() <= text@.len(),
        core@ == text@.subrange(start, start + core@.len()),
        forall|i: int| 0 <= i < start ==> white_space(#[trigger] text@[i]),
        forall|i: int| start + core@.len() <= i < text@.len() ==> white_space(#[trigger] text@[i]),
        core@.len() > 0 ==> !white_space(core@[0]) && !white_space(core@[core@.len() - 1]),
{
    let rest = trimmed_start(text@);
    let start = text@.len() - rest.len();
    start_is_trimmed(text@);
    end_is_trimmed(rest);
    assert(core@ =~= text@.subrange(start, start + core@.len()));
    assert forall|i: int| start + core@.len() <= i < text@.len() implies white_space(
        #[trigger] text@[i],
    ) by {
        assert(text@[i] == rest[i - start]);
    }
    if core@.len() > 0 {
        assert(core@[0] == rest[0]);
    }
    start
}

proof fn pieces_make_up_the_text(text: Seq<char>, separator: char)
    ensures
        ({
            let parts = pieces(text, separator);
            &&& parts.len() > 0
            &&& joined(parts, seq![separator]) == text
            &&& forall|i: int, j: int|
                0 <= i < parts.len() && 0 <= j < parts[i].len() ==> #[trigger] parts[i][j]
                    != separator
        }),
    decreases text.len(),
{
    reveal_with_fuel(joined, 2);
    if text.len() > 0 {
        let fewer = text.drop_last();
        let before = pieces(fewer, separator);
        let now = pieces(text, separator);
        pieces_make_up_the_text(fewer, separator);
        if text.last() == separator {
            assert(now.drop_last() =~= before);
            assert(joined(now, seq![separator]) =~= text);
        } else {
            let last = before.len() - 1;
            assert(now.drop_last() =~= before.drop_last());
            assert(now.last() == before.last().push(text.last()));
            let between = seq![separator];
            if before.len() == 1 {
                assert(joined(before, between) == before[0]);
                assert(joined(now, between) == now[0]);
            } else {
                let first = joined(before.drop_last(), between) + between;
                assert(joined(before, between) == first + before.last());
                assert(joined(now, between) == first + now.last());
                assert((first + before.last()).push(text.last()) =~= first + now.last());
            }
            assert(fewer.push(text.last()) =~= text);
            assert forall|i: int, j: int|
                0 <= i < now.len() && 0 <= j < now[i].len() implies #[trigger] now[i][j]
                != separator by {
                if i < last {
                    assert(now[i] == before[i]);
                    assert(before[i][j] != separator);
                } else if j < before[last].len() {
                    assert(now[i][j] == before[last][j]);
                }
            }
        }
    } else {
        assert(joined(pieces(text, separator), seq![separator]) =~= text);
    }
}

/// The pieces of a text, put together with the separator between neighbours, are the text again, and
/// no piece holds the separator.
pub proof fn splitting_loses_nothing(text: &str, separator: char, parts: Vec<String>)
    requires
        call_ensures(split, (text, separator), parts),
    ensures
        joined(super::texts(parts@), seq![separator]) == text@,
        forall|i: int| 0 <= i < parts.len() ==> !(#[trigger] parts@[i])@.contains(separator),
{
    pieces_make_up_the_text(text@, separator);
    let found = super::texts(parts@);
    assert forall|i: int| 0 <= i < parts.len() implies !(#[trigger] parts@[i])@.contains(
        separator,
    ) by {
        assert(found[i] == parts@[i]@);
        if parts@[i]@.contains(separator) {
            let j = choose|j: int| 0 <= j < parts@[i]@.len() && parts@[i]@[j] == separator;
            assert(found[i][j] != separator);
        }
    }
}

/// A text is cut exactly where it holds the separator, and at the first one: the halves and the
/// separator make up the text, and the first half does not hold it.
pub proof fn texts_are_cut_at_the_first(
    text: &str,
    separator: char,
    halves: Option<(String, String)>,
)
    requires
        call_ensures(split_once, (text, separator), halves),
    ensures
        halves is None <==> !text@.contains(separator),
        halves matches Some((before, after)) ==> {
            &&& before@ + seq![separator] + after@ == text@
            &&& !before@.contains(separator)
        },
{
    if text@.contains(separator) {
        let some = choose|i: int| 0 <= i < text@.len() && text@[i] == separator;
        first_one(text@, separator, some);
        let at = choose|at: int| first_at(text@, separator, at);
        cut_once_at(text@, separator, at);
        let before = text@.take(at);
        assert(before + seq![separator] + text@.skip(at + 1) =~= text@);
        if before.contains(separator) {
            let i = choose|i: int| 0 <= i < before.len() && before[i] == separator;
            assert(text@[i] == separator);
        }
    }
}

proof fn first_one(text: Seq<char>, wanted: char, some: int)
    requires
        0 <= some < text.len(),
        text[some] == wanted,
    ensures
        exists|at: int| first_at(text, wanted, at),
    decreases some,
{
    if exists|i: int| 0 <= i < some && text[i] == wanted {
        let i = choose|i: int| 0 <= i < some && text[i] == wanted;
        first_one(text, wanted, i);
    } else {
        assert(first_at(text, wanted, some));
    }
}

/// What is left of a text after a prefix makes up the text together with the prefix; there is
/// nothing left to speak of exactly where the text does not begin with it.
pub proof fn prefixes_are_cut_off(text: &str, prefix: &str, rest: Option<String>, starts: bool)
    requires
        call_ensures(strip_prefix, (text, prefix), rest),
        call_ensures(starts_with, (text, prefix), starts),
    ensures
        starts <==> rest is Some,
        rest matches Some(tail) ==> prefix@ + tail@ == text@,
        forall|tail: Seq<char>| (#[trigger] (prefix@ + tail)) == text@ ==> rest is Some,
{
    if rest is Some {
        assert(text@.subrange(0, prefix@.len() as int) == prefix@);
        assert(prefix@ + text@.skip(prefix@.len() as int) =~= text@);
    }
    assert forall|tail: Seq<char>| (#[trigger] (prefix@ + tail)) == text@ implies rest is Some by {
        assert(text@.subrange(0, prefix@.len() as int) =~= prefix@);
        assert(occurs_at(text@, prefix@, 0));
    }
}

/// A text holds another exactly where that stands between some beginning and some end of it.
pub proof fn found_texts_are_parts(text: &str, needle: &str, found: bool)
    requires
        call_ensures(contains, (text, needle), found),
    ensures
        found ==> exists|before: Seq<char>, after: Seq<char>| #[trigger]
            (before + needle@ + after) == text@,
        forall|before: Seq<char>, after: Seq<char>| #[trigger]
            (before + needle@ + after) == text@ ==> found,
{
    if found {
        let at = choose|at: int| occurs_at(text@, needle@, at);
        let before = text@.take(at);
        let after = text@.skip(at + needle@.len());
        assert(before + needle@ + after =~= text@);
    }
    assert forall|before: Seq<char>, after: Seq<char>| #[trigger]
        (before + needle@ + after) == text@ implies found by {
        assert(text@.subrange(before.len() as int, before.len() as int + needle@.len()) =~= needle@);
        assert(occurs_at(text@, needle@, before.len() as int));
    }
}

/// No line holds a line feed, and a text without one is a single line, unless it is empty.
pub proof fn lines_are_single(text: &str, list: Vec<String>)
    requires
        call_ensures(lines, (text,), list),
    ensures
        forall|i: int| 0 <= i < list.len() ==> !(#[trigger] list@[i])@.contains('\n'),
        !text@.contains('\n') && text@.len() > 0 ==> list.len() == 1 && list@[0]@ == text@,
        text@.len() == 0 ==> list.len() == 0,
{
    let raw = pieces(text@, '\n');
    pieces_make_up_the_text(text@, '\n');
    let found = super::texts(list@);
    assert(found.len() == list.len());
    assert forall|i: int| 0 <= i < list.len() implies !(#[trigger] list@[i])@.contains('\n') by {
        assert(found[i] == list@[i]@);
        assert(i < raw.len() - 1 ==> found[i] == without_return(raw[i]));
        assert(i == raw.len() - 1 ==> found[i] == raw[i]);
        if list@[i]@.contains('\n') {
            let j = choose|j: int| 0 <= j < found[i].len() && found[i][j] == '\n';
            assert(raw[i][j] == '\n');
        }
    }
    if !text@.contains('\n') && text@.len() > 0 {
        unbroken_text_is_one_piece(text@, '\n');
        assert(found[0] == list@[0]@);
    }
}

/// A text without the separator is a single piece.
pub proof fn unbroken_text_is_one_piece(text: Seq<char>, separator: char)
    requires
        !text.contains(separator),
    ensures
        pieces(text, separator) == seq![text],
    decreases text.len(),
{
    if text.len() > 0 {
        let fewer = text.drop_last();
        assert forall|i: int| 0 <= i < fewer.len() implies fewer[i] != separator by {
            assert(text[i] == fewer[i]);
        }
        unbroken_text_is_one_piece(fewer, separator);
        assert(text[text.len() - 1] != separator);
        assert(fewer.push(text.last()) =~= text);
        assert(pieces(text, separator) =~= seq![text]);
    } else {
        assert(text =~= Seq::<char>::empty());
    }
}

/// Trimming a text again takes nothing more off.
pub proof fn trimmed_texts_stay(text: Seq<char>)
    ensures
        trimmed(trimmed(text)) == trimmed(text),
{
    let rest = trimmed_start(text);
    let core = trimmed(text);
    start_is_trimmed(text);
    end_is_trimmed(rest);
    if core.len() > 0 {
        assert(core[0] == rest[0]);
    }
}

}
