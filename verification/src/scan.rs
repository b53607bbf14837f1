//! Taking texts apart.

use vstd::prelude::*;

use crate::text::{joined, law_separators_stand_between};

verus! {

/// A character that counts as white space: one with Unicode's property `White_Space`.
pub open spec fn whitespace(c: char) -> bool {
    let code = c as int;
    ||| 0x09 <= code <= 0x0d
    ||| code == 0x20
    ||| code == 0x85
    ||| code == 0xa0
    ||| code == 0x1680
    ||| 0x2000 <= code <= 0x200a
    ||| 0x2028 <= code <= 0x2029
    ||| code == 0x202f
    ||| code == 0x205f
    ||| code == 0x3000
}

fn is_whitespace(c: char) -> (result: bool)
    ensures
        result == whitespace(c),
{
    let code: u32 = c as u32;
    (0x09 <= code && code <= 0x0d) || code == 0x20 || code == 0x85 || code == 0xa0 || code == 0x1680
        || (0x2000 <= code && code <= 0x200a) || code == 0x2028 || code == 0x2029 || code == 0x202f
        || code == 0x205f || code == 0x3000
}

/// The first position from `from` on that holds white space, or the end.
pub open spec fn next_space(text: Seq<char>, from: int) -> int
    decreases text.len() - from,
{
    if from >= text.len() {
        text.len() as int
    } else if whitespace(text[from]) {
        from
    } else {
        next_space(text, from + 1)
    }
}

/// The first position from `from` on that does not hold white space, or the end.
pub open spec fn next_solid(text: Seq<char>, from: int) -> int
    decreases text.len() - from,
{
    if from >= text.len() {
        text.len() as int
    } else if !whitespace(text[from]) {
        from
    } else {
        next_solid(text, from + 1)
    }
}

/// The position behind the last character in front of `to` that is not white space.
pub open spec fn solid_end(text: Seq<char>, to: int) -> int
    decreases to,
{
    if to <= 0 {
        0
    } else if !whitespace(text[to - 1]) {
        to
    } else {
        solid_end(text, to - 1)
    }
}

/// The text without the white space at both ends.
pub open spec fn trimmed(text: Seq<char>) -> Seq<char> {
    let start = next_solid(text, 0);
    let end = solid_end(text, text.len() as int);
    if start < end {
        text.subrange(start, end)
    } else {
        Seq::empty()
    }
}

/// The second word of a text, where it has two.
pub open spec fn second_word(text: Seq<char>) -> Option<Seq<char>> {
    let start = next_solid(text, next_space(text, next_solid(text, 0)));
    if start < text.len() {
        Some(text.subrange(start, next_space(text, start)))
    } else {
        None
    }
}

/// The first position from `from` on that holds the character, or the end.
pub open spec fn position(text: Seq<char>, wanted: char, from: int) -> int
    decreases text.len() - from,
{
    if from >= text.len() {
        text.len() as int
    } else if text[from] == wanted {
        from
    } else {
        position(text, wanted, from + 1)
    }
}

/// The parts of a text between the separators.
pub open spec fn split_from(text: Seq<char>, separator: char, from: int) -> Seq<Seq<char>>
    decreases text.len() - from,
{
    let at = position(text, separator, from);
    if from < 0 || from > text.len() {
        Seq::empty()
    } else if at >= text.len() || at < from {
        seq![text.skip(from)]
    } else {
        seq![text.subrange(from, at)] + split_from(text, separator, at + 1)
    }
}

/// A character stands where it is found, and not before.
pub proof fn lemma_position(text: Seq<char>, wanted: char, from: int)
    requires
        0 <= from <= text.len(),
    ensures
        from <= position(text, wanted, from) <= text.len(),
        position(text, wanted, from) < text.len() ==> text[position(text, wanted, from)] == wanted,
        forall|i: int| from <= i < position(text, wanted, from) ==> text[i] != wanted,
    decreases text.len() - from,
{
    if from < text.len() && text[from] != wanted {
        lemma_position(text, wanted, from + 1);
    }
}

fn find_space(text: &str, from: usize) -> (at: usize)
    requires
        from <= text@.len(),
    ensures
        at == next_space(text@, from as int),
        from <= at <= text@.len(),
{
    let length: usize = text.unicode_len();
    let mut at: usize = from;
    while at < length && !is_whitespace(text.get_char(at))
        invariant
            length == text@.len(),
            from <= at <= length,
            next_space(text@, at as int) == next_space(text@, from as int),
        decreases length - at,
    {
        at = at + 1;
    }
    at
}

fn find_solid(text: &str, from: usize) -> (at: usize)
    requires
        from <= text@.len(),
    ensures
        at == next_solid(text@, from as int),
        from <= at <= text@.len(),
{
    let length: usize = text.unicode_len();
    let mut at: usize = from;
    while at < length && is_whitespace(text.get_char(at))
        invariant
            length == text@.len(),
            from <= at <= length,
            next_solid(text@, at as int) == next_solid(text@, from as int),
        decreases length - at,
    {
        at = at + 1;
    }
    at
}

fn find_solid_end(text: &str) -> (at: usize)
    ensures
        at == solid_end(text@, text@.len() as int),
        at <= text@.len(),
{
    let mut at: usize = text.unicode_len();
    while at > 0 && is_whitespace(text.get_char(at - 1))
        invariant
            at <= text@.len(),
            solid_end(text@, at as int) == solid_end(text@, text@.len() as int),
        decreases at,
    {
        at = at - 1;
    }
    at
}

/// Takes the white space from both ends.
pub fn trim(text: &str) -> (result: &str)
    ensures
        result@ == trimmed(text@),
{
    let start: usize = find_solid(text, 0);
    let end: usize = find_solid_end(text);
    if start < end {
        text.substring_char(start, end)
    } else {
        let result: &str = text.substring_char(0, 0);
        assert(result@ =~= Seq::empty());
        result
    }
}

/// The second word of a text, where it has two.
pub fn find_second_word(text: &str) -> (word: Option<&str>)
    ensures
        match word {
            Some(word) => second_word(text@) == Some(word@),
            None => second_word(text@) is None,
        },
{
    let start: usize = find_solid(text, find_space(text, find_solid(text, 0)));
    if start < text.unicode_len() {
        Some(text.substring_char(start, find_space(text, start)))
    } else {
        None
    }
}

/// Finds a character.
pub fn find_char(text: &str, wanted: char, from: usize) -> (at: usize)
    requires
        from <= text@.len(),
    ensures
        at == position(text@, wanted, from as int),
        from <= at <= text@.len(),
{
    let length: usize = text.unicode_len();
    let mut at: usize = from;
    while at < length && text.get_char(at) != wanted
        invariant
            length == text@.len(),
            from <= at <= length,
            position(text@, wanted, at as int) == position(text@, wanted, from as int),
        decreases length - at,
    {
        at = at + 1;
    }
    at
}

/// Takes a text apart at the separators.
pub fn split_text(text: &str, separator: char) -> (parts: Vec<&str>)
    ensures
        parts@.map_values(|part: &str| part@) == split_from(text@, separator, 0),
{
    let length: usize = text.unicode_len();
    let mut parts: Vec<&str> = Vec::new();
    let mut from: usize = 0;
    let ghost view = |part: &str| part@;
    assert(parts@.map_values(view) =~= Seq::empty());
    assert(Seq::<Seq<char>>::empty() + split_from(text@, separator, 0) =~= split_from(
        text@,
        separator,
        0,
    ));
    loop
        invariant
            length == text@.len(),
            from <= length,
            view == (|part: &str| part@),
            parts@.map_values(view) + split_from(text@, separator, from as int) == split_from(
                text@,
                separator,
                0,
            ),
        decreases length - from,
    {
        let at: usize = find_char(text, separator, from);
        let ghost before = parts@;
        if at >= length {
            let part: &str = text.substring_char(from, length);
            parts.push(part);
            proof {
                assert(text@.subrange(from as int, length as int) =~= text@.skip(from as int));
                assert(parts@.map_values(view) =~= before.map_values(view).push(part@));
                assert(parts@.map_values(view) =~= split_from(text@, separator, 0));
            }
            return parts;
        }
        let part: &str = text.substring_char(from, at);
        parts.push(part);
        proof {
            assert(parts@.map_values(view) =~= before.map_values(view).push(part@));
            assert(parts@.map_values(view) + split_from(text@, separator, at + 1)
                =~= before.map_values(view) + (seq![part@] + split_from(
                text@,
                separator,
                at + 1,
            )));
        }
        from = at + 1;
    }
}

/// The text behind a prefix, where it begins with it.
pub open spec fn behind_prefix(text: Seq<char>, prefix: Seq<char>) -> Option<Seq<char>> {
    if prefix.len() <= text.len() && text.take(prefix.len() as int) == prefix {
        Some(text.skip(prefix.len() as int))
    } else {
        None
    }
}

/// Takes a prefix from a text, where it begins with it.
pub fn strip_prefix<'a>(text: &'a str, prefix: &str) -> (rest: Option<&'a str>)
    ensures
        match rest {
            Some(rest) => behind_prefix(text@, prefix@) == Some(rest@),
            None => behind_prefix(text@, prefix@) is None,
        },
{
    let length: usize = text.unicode_len();
    let prefix_length: usize = prefix.unicode_len();
    if prefix_length > length {
        return None;
    }
    let head: &str = text.substring_char(0, prefix_length);
    assert(head@ =~= text@.take(prefix_length as int));
    if crate::decoder::same_text(head, prefix) {
        let rest: &str = text.substring_char(prefix_length, length);
        assert(rest@ =~= text@.skip(prefix_length as int));
        Some(rest)
    } else {
        None
    }
}

/// The parts of a text hold no separator.
pub proof fn law_parts_hold_no_separator(text: Seq<char>, separator: char, from: int, part: int)
    requires
        0 <= from <= text.len(),
        0 <= part < split_from(text, separator, from).len(),
    ensures
        forall|i: int|
            0 <= i < split_from(text, separator, from)[part].len() ==> #[trigger] split_from(
                text,
                separator,
                from,
            )[part][i] != separator,
    decreases text.len() - from,
{
    lemma_position(text, separator, from);
    let at = position(text, separator, from);
    if at < text.len() && part > 0 {
        law_parts_hold_no_separator(text, separator, at + 1, part - 1);
        assert(split_from(text, separator, from)[part] == split_from(text, separator, at + 1)[part
            - 1]);
    }
}

proof fn lemma_next_solid(text: Seq<char>, from: int)
    requires
        0 <= from <= text.len(),
    ensures
        from <= next_solid(text, from) <= text.len(),
        next_solid(text, from) < text.len() ==> !whitespace(text[next_solid(text, from)]),
        forall|i: int| from <= i < next_solid(text, from) ==> whitespace(#[trigger] text[i]),
    decreases text.len() - from,
{
    if from < text.len() && whitespace(text[from]) {
        lemma_next_solid(text, from + 1);
    }
}

proof fn lemma_next_space(text: Seq<char>, from: int)
    requires
        0 <= from <= text.len(),
    ensures
        from <= next_space(text, from) <= text.len(),
        next_space(text, from) < text.len() ==> whitespace(text[next_space(text, from)]),
        forall|i: int| from <= i < next_space(text, from) ==> !whitespace(#[trigger] text[i]),
    decreases text.len() - from,
{
    if from < text.len() && !whitespace(text[from]) {
        lemma_next_space(text, from + 1);
    }
}

proof fn lemma_solid_end(text: Seq<char>, to: int)
    requires
        0 <= to <= text.len(),
    ensures
        0 <= solid_end(text, to) <= to,
        solid_end(text, to) > 0 ==> !whitespace(text[solid_end(text, to) - 1]),
        forall|i: int| solid_end(text, to) <= i < to ==> whitespace(#[trigger] text[i]),
    decreases to,
{
    if to > 0 && whitespace(text[to - 1]) {
        lemma_solid_end(text, to - 1);
    }
}

/// Trimming takes white space from both ends and nothing else: what is left starts and ends with
/// other characters, or is empty where there are none.
pub proof fn law_trimming_takes_white_space_only(
    before: Seq<char>,
    inner: Seq<char>,
    after: Seq<char>,
)
    requires
        forall|i: int| 0 <= i < before.len() ==> whitespace(#[trigger] before[i]),
        forall|i: int| 0 <= i < after.len() ==> whitespace(#[trigger] after[i]),
        inner.len() > 0 ==> !whitespace(inner[0]) && !whitespace(inner.last()),
    ensures
        trimmed(before + inner + after) == inner,
{
    let text = before + inner + after;
    let start = next_solid(text, 0);
    let end = solid_end(text, text.len() as int);
    lemma_next_solid(text, 0);
    lemma_solid_end(text, text.len() as int);
    let first = before.len() as int;
    let last = first + inner.len();
    assert forall|i: int| 0 <= i < first implies whitespace(#[trigger] text[i]) by {
        assert(text[i] == before[i]);
    }
    assert forall|i: int| last <= i < text.len() implies whitespace(#[trigger] text[i]) by {
        assert(text[i] == after[i - last]);
    }
    if inner.len() > 0 {
        assert(text[first] == inner[0]);
        assert(text[last - 1] == inner.last());
        assert(start == first);
        assert(end == last);
        assert(text.subrange(first, last) =~= inner);
    } else {
        assert(start == text.len()) by {
            if start < text.len() {
                assert(whitespace(text[start]));
            }
        }
    }
}

/// The second of two words is found, whatever white space is around them, and a text of one word
/// has none.
pub proof fn law_second_words_are_found(first: Seq<char>, gap: Seq<char>, second: Seq<char>)
    requires
        first.len() > 0,
        gap.len() > 0,
        second.len() > 0,
        forall|i: int| 0 <= i < first.len() ==> !whitespace(#[trigger] first[i]),
        forall|i: int| 0 <= i < gap.len() ==> whitespace(#[trigger] gap[i]),
        forall|i: int| 0 <= i < second.len() ==> !whitespace(#[trigger] second[i]),
    ensures
        second_word(first + gap + second) == Some(second),
        second_word(first + gap + second + gap + first) == Some(second),
        second_word(first) is None,
        second_word(gap + first) is None,
{
    lemma_second_word(Seq::empty(), first, gap, second, Seq::empty());
    assert(Seq::<char>::empty() + first + gap + second + Seq::<char>::empty() =~= first + gap
        + second);
    lemma_second_word(Seq::empty(), first, gap, second, gap + first);
    assert(Seq::<char>::empty() + first + gap + second + (gap + first) =~= first + gap + second
        + gap + first);
    lemma_only_word(Seq::empty(), first);
    assert(Seq::<char>::empty() + first =~= first);
    lemma_only_word(gap, first);
}

proof fn lemma_only_word(before: Seq<char>, word: Seq<char>)
    requires
        word.len() > 0,
        forall|i: int| 0 <= i < before.len() ==> whitespace(#[trigger] before[i]),
        forall|i: int| 0 <= i < word.len() ==> !whitespace(#[trigger] word[i]),
    ensures
        second_word(before + word) is None,
{
    let text = before + word;
    let start = next_solid(text, 0);
    lemma_next_solid(text, 0);
    assert(text[before.len() as int] == word[0]);
    assert forall|i: int| 0 <= i < before.len() implies whitespace(#[trigger] text[i]) by {
        assert(text[i] == before[i]);
    }
    assert(start == before.len());
    let end = next_space(text, start);
    lemma_next_space(text, start);
    assert(end == text.len()) by {
        if end < text.len() {
            assert(text[end] == word[end - start]);
        }
    }
    lemma_next_solid(text, end);
}

proof fn lemma_second_word(
    before: Seq<char>,
    first: Seq<char>,
    gap: Seq<char>,
    second: Seq<char>,
    after: Seq<char>,
)
    requires
        first.len() > 0,
        gap.len() > 0,
        second.len() > 0,
        forall|i: int| 0 <= i < before.len() ==> whitespace(#[trigger] before[i]),
        forall|i: int| 0 <= i < first.len() ==> !whitespace(#[trigger] first[i]),
        forall|i: int| 0 <= i < gap.len() ==> whitespace(#[trigger] gap[i]),
        forall|i: int| 0 <= i < second.len() ==> !whitespace(#[trigger] second[i]),
        after.len() > 0 ==> whitespace(after[0]),
    ensures
        second_word(before + first + gap + second + after) == Some(second),
{
    let text = before + first + gap + second + after;
    let a = before.len() as int;
    let b = a + first.len();
    let c = b + gap.len();
    let d = c + second.len();
    assert forall|i: int| 0 <= i < a implies whitespace(#[trigger] text[i]) by {
        assert(text[i] == before[i]);
    }
    assert forall|i: int| a <= i < b implies !whitespace(#[trigger] text[i]) by {
        assert(text[i] == first[i - a]);
    }
    assert forall|i: int| b <= i < c implies whitespace(#[trigger] text[i]) by {
        assert(text[i] == gap[i - b]);
    }
    assert forall|i: int| c <= i < d implies !whitespace(#[trigger] text[i]) by {
        assert(text[i] == second[i - c]);
    }
    assert(d < text.len() ==> text[d] == after[0]);
    lemma_next_solid(text, 0);
    assert(!whitespace(text[a]));
    assert(next_solid(text, 0) == a);
    lemma_next_space(text, a);
    assert(whitespace(text[b]));
    assert(next_space(text, a) == b);
    lemma_next_solid(text, b);
    assert(!whitespace(text[c]));
    assert(next_solid(text, b) == c);
    lemma_next_space(text, c);
    assert(next_space(text, c) == d);
    assert(text.subrange(c, d) =~= second);
}

/// The parts of a text, joined by the separator, are the text.
pub proof fn law_parts_make_up_the_text(text: Seq<char>, separator: char)
    ensures
        joined(split_from(text, separator, 0), seq![separator]) == text,
{
    lemma_parts_from(text, separator, 0);
    assert(text.skip(0) =~= text);
}

proof fn lemma_parts_from(text: Seq<char>, separator: char, from: int)
    requires
        0 <= from <= text.len(),
    ensures
        split_from(text, separator, from).len() > 0,
        joined(split_from(text, separator, from), seq![separator]) == text.skip(from),
    decreases text.len() - from,
{
    lemma_position(text, separator, from);
    let at = position(text, separator, from);
    if at < text.len() {
        let first = seq![text.subrange(from, at)];
        let rest = split_from(text, separator, at + 1);
        lemma_parts_from(text, separator, at + 1);
        law_separators_stand_between(first, rest, seq![separator]);
        assert(joined(first, seq![separator]) == first[0]);
        assert(text.subrange(from, at) + seq![separator] + text.skip(at + 1) =~= text.skip(from));
    }
}

/// A prefix and what is behind it make up the text, and a text that starts otherwise has nothing
/// behind the prefix.
pub proof fn law_prefixes_are_taken_off(text: Seq<char>, prefix: Seq<char>, rest: Seq<char>)
    ensures
        behind_prefix(prefix + rest, prefix) == Some(rest),
        behind_prefix(text, prefix) == Some(rest) ==> text == prefix + rest,
{
    assert((prefix + rest).take(prefix.len() as int) =~= prefix);
    assert((prefix + rest).skip(prefix.len() as int) =~= rest);
    if behind_prefix(text, prefix) == Some(rest) {
        assert(text =~= text.take(prefix.len() as int) + text.skip(prefix.len() as int));
    }
}

/// Spaces, tabs and line ends are white space; letters, digits and signs are not.
pub proof fn law_white_space_is_invisible(c: char)
    ensures
        c == ' ' || c == '\t' || c == '\n' || c == '\r' ==> whitespace(c),
        '!' <= c <= '~' ==> !whitespace(c),
{
}

} // verus!
