//! Text built from numbers: decimal and hexadecimal digits as character sequences.

use vstd::prelude::*;

verus! {

/// The character of the hexadecimal digit `d` (lower case).
pub open spec fn digit_char(d: nat) -> char {
    if d < 10 {
        (('0' as u32) + d) as char
    } else {
        (('a' as u32) + (d - 10)) as char
    }
}

/// The digits of `n` in base `base`, most significant first, without leading zeros.
pub open spec fn digits(n: nat, base: nat) -> Seq<char>
    decreases n,
{
    if base < 2 || n < base {
        seq![digit_char(n)]
    } else {
        proof {
            assert(n / base < n) by (nonlinear_arith)
                requires
                    2 <= base,
                    base <= n,
            ;
        }
        digits(n / base, base).push(digit_char(n % base))
    }
}

/// `n` in decimal.
pub open spec fn decimal(n: nat) -> Seq<char> {
    digits(n, 10)
}

/// `n` in decimal, with a leading minus sign where it is negative.
pub open spec fn signed_decimal(n: int) -> Seq<char> {
    if n < 0 {
        seq!['-'] + decimal((-n) as nat)
    } else {
        decimal(n as nat)
    }
}

/// `count` zeros.
pub open spec fn zeros(count: nat) -> Seq<char> {
    Seq::new(count, |i: int| '0')
}

/// `n` in lower-case hexadecimal, padded with zeros on the left to at least `width` digits.
pub open spec fn hex_padded(n: nat, width: nat) -> Seq<char> {
    let plain = digits(n, 16);
    if plain.len() < width {
        zeros((width - plain.len()) as nat) + plain
    } else {
        plain
    }
}

/// `parts` joined by `separator`.
pub open spec fn joined(parts: Seq<Seq<char>>, separator: Seq<char>) -> Seq<char>
    decreases parts.len(),
{
    if parts.len() == 0 {
        Seq::empty()
    } else if parts.len() == 1 {
        parts[0]
    } else {
        joined(parts.drop_last(), separator) + separator + parts.last()
    }
}

/// The character sequences of a sequence of strings.
pub open spec fn views(parts: Seq<String>) -> Seq<Seq<char>> {
    parts.map_values(|part: String| part@)
}

/// `true` and `false` as text.
pub open spec fn bool_text(value: bool) -> Seq<char> {
    if value {
        "true"@
    } else {
        "false"@
    }
}

fn digit_text(d: u128) -> (text: &'static str)
    requires
        d < 16,
    ensures
        text@ == seq![digit_char(d as nat)],
{
    proof {
        reveal_strlit("0");
        reveal_strlit("1");
        reveal_strlit("2");
        reveal_strlit("3");
        reveal_strlit("4");
        reveal_strlit("5");
        reveal_strlit("6");
        reveal_strlit("7");
        reveal_strlit("8");
        reveal_strlit("9");
        reveal_strlit("a");
        reveal_strlit("b");
        reveal_strlit("c");
        reveal_strlit("d");
        reveal_strlit("e");
        reveal_strlit("f");
    }
    match d {
        0 => "0",
        1 => "1",
        2 => "2",
        3 => "3",
        4 => "4",
        5 => "5",
        6 => "6",
        7 => "7",
        8 => "8",
        9 => "9",
        10 => "a",
        11 => "b",
        12 => "c",
        13 => "d",
        14 => "e",
        _ => "f",
    }
}

/// The digits of `n` in base `base`.
fn digits_text(n: u128, base: u128) -> (text: String)
    requires
        2 <= base <= 16,
    ensures
        text@ == digits(n as nat, base as nat),
    decreases n,
{
    if n < base {
        digit_text(n).to_owned()
    } else {
        assert(n / base < n) by (nonlinear_arith)
            requires
                2 <= base,
                base <= n,
        ;
        let mut text: String = digits_text(n / base, base);
        text.append(digit_text(n % base));
        assert(text@ =~= digits(n as nat, base as nat));
        text
    }
}

/// Formats `n` in decimal.
pub fn format_decimal(n: u128) -> (text: String)
    ensures
        text@ == decimal(n as nat),
{
    digits_text(n, 10)
}

/// Formats `n` in decimal, with a minus sign where it is negative.
pub fn format_signed_decimal(n: i32) -> (text: String)
    ensures
        text@ == signed_decimal(n as int),
{
    if n < 0 {
        proof {
            reveal_strlit("-");
        }
        let mut text: String = "-".to_owned();
        let magnitude: u128 = (-(n as i64)) as u128;
        let plain: String = digits_text(magnitude, 10);
        text.append(plain.as_str());
        assert(text@ =~= signed_decimal(n as int));
        text
    } else {
        digits_text(n as u128, 10)
    }
}

/// Formats `n` in lower-case hexadecimal with at least `width` digits.
pub fn format_hex_padded(n: u64, width: usize) -> (text: String)
    ensures
        text@ == hex_padded(n as nat, width as nat),
{
    let plain: String = digits_text(n as u128, 16);
    let length: usize = plain.as_str().unicode_len();
    if length < width {
        let mut text: String = String::new();
        let mut count: usize = 0;
        while count < width - length
            invariant
                count <= width - length,
                text@ == zeros(count as nat),
            decreases width - length - count,
        {
            proof {
                reveal_strlit("0");
            }
            text.append("0");
            count = count + 1;
            assert(text@ =~= zeros(count as nat));
        }
        text.append(plain.as_str());
        assert(text@ =~= hex_padded(n as nat, width as nat));
        text
    } else {
        plain
    }
}

/// Joins `parts` with `separator` between neighbours.
pub fn join_text(parts: &Vec<String>, separator: &str) -> (text: String)
    ensures
        text@ == joined(views(parts@), separator@),
{
    let mut text: String = String::new();
    let mut index: usize = 0;
    while index < parts.len()
        invariant
            index <= parts.len(),
            text@ == joined(views(parts@.take(index as int)), separator@),
        decreases parts.len() - index,
    {
        let ghost before = views(parts@.take(index as int));
        let ghost after = views(parts@.take(index + 1));
        proof {
            assert(after.drop_last() =~= before);
            assert(after.last() == parts@[index as int]@);
        }
        if index > 0 {
            text.append(separator);
        }
        text.append(parts[index].as_str());
        assert(text@ =~= joined(after, separator@));
        index = index + 1;
    }
    assert(parts@.take(parts@.len() as int) =~= parts@);
    text
}

/// Formats a flag as `true` or `false`.
pub fn format_bool(value: bool) -> (text: String)
    ensures
        text@ == bool_text(value),
{
    if value {
        "true".to_owned()
    } else {
        "false".to_owned()
    }
}

/// The text that `{:?}` prints for a string: quoted, with its escapes.
pub uninterp spec fn debug_text(text: Seq<char>) -> Seq<char>;

/// Calls std's `Debug` formatting of `str`. Which characters it escapes, and
/// how, rests on std's tables; the contract claims only that the output is a
/// function of the text.
#[verifier::external_body]
pub(crate) fn format_debug(text: &str) -> (formatted: String)
    ensures
        formatted@ == debug_text(text@),
{
    format!("{text:?}")
}

/// The text that `{:?}` prints for an optional string.
pub open spec fn debug_option_text(value: Option<Seq<char>>) -> Seq<char> {
    match value {
        Some(text) => "Some("@ + debug_text(text) + ")"@,
        None => "None"@,
    }
}

/// The text that `{:?}` prints for an optional number.
pub open spec fn debug_option_number(value: Option<i32>) -> Seq<char> {
    match value {
        Some(number) => "Some("@ + signed_decimal(number as int) + ")"@,
        None => "None"@,
    }
}

/// The character sequence of an optional string.
pub open spec fn option_view(value: Option<String>) -> Option<Seq<char>> {
    match value {
        Some(text) => Some(text@),
        None => None,
    }
}

/// Formats an optional string the way `{:?}` does.
pub fn format_debug_option(value: &Option<String>) -> (text: String)
    ensures
        text@ == debug_option_text(option_view(*value)),
{
    match value {
        Some(inner) => {
            let mut text: String = "Some(".to_owned();
            let quoted: String = format_debug(inner.as_str());
            text.append(quoted.as_str());
            text.append(")");
            text
        },
        None => "None".to_owned(),
    }
}

/// Formats an optional number the way `{:?}` does.
pub fn format_debug_option_number(value: Option<i32>) -> (text: String)
    ensures
        text@ == debug_option_number(value),
{
    match value {
        Some(number) => {
            let mut text: String = "Some(".to_owned();
            let digits: String = format_signed_decimal(number);
            text.append(digits.as_str());
            text.append(")");
            text
        },
        None => "None".to_owned(),
    }
}

/// Appends a label and a number in decimal.
pub fn push_labelled(text: &mut String, label: &str, value: u64)
    ensures
        final(text)@ == old(text)@ + label@ + decimal(value as nat),
{
    text.append(label);
    let digits: String = format_decimal(value as u128);
    text.append(digits.as_str());
}

// ---------------------------------------------------------------------------
// Laws
// ---------------------------------------------------------------------------

/// The number that a digit stands for.
pub open spec fn digit_value(c: char) -> int {
    if '0' <= c <= '9' {
        c as int - '0' as int
    } else {
        c as int - 'a' as int + 10
    }
}

/// The number that digits stand for in a base.
pub open spec fn value_in(text: Seq<char>, base: int) -> int
    decreases text.len(),
{
    if text.len() == 0 {
        0
    } else {
        base * value_in(text.drop_last(), base) + digit_value(text.last())
    }
}

/// Digits stand for the number that they were written for, and begin with no zero but for zero
/// itself.
pub proof fn law_digits_are_read_back(n: nat, base: nat)
    requires
        2 <= base <= 16,
    ensures
        value_in(digits(n, base), base as int) == n,
        n > 0 ==> digits(n, base)[0] != '0',
        digits(n, base).len() > 0,
        forall|i: int|
            0 <= i < digits(n, base).len() ==> {
                let c = #[trigger] digits(n, base)[i];
                ('0' <= c <= '9' || 'a' <= c <= 'f') && digit_value(c) < base
            },
    decreases n,
{
    let text = digits(n, base);
    if n < base {
        assert(text.drop_last() =~= Seq::empty());
        assert(text.last() == digit_char(n));
        assert(value_in(Seq::<char>::empty(), base as int) == 0);
        assert(base * 0 == 0) by (nonlinear_arith);
    } else {
        assert(n / base < n && n / base > 0) by (nonlinear_arith)
            requires
                2 <= base <= n,
        ;
        assert(n % base < base) by (nonlinear_arith)
            requires
                2 <= base,
        ;
        law_digits_are_read_back(n / base, base);
        assert(text.drop_last() =~= digits(n / base, base));
        assert(text.last() == digit_char(n % base));
        assert(n == base * (n / base) + n % base) by (nonlinear_arith)
            requires
                2 <= base,
        ;
    }
}

/// Padding changes the width and not the number.
pub proof fn law_padding_keeps_the_number(n: nat, width: nat)
    ensures
        value_in(hex_padded(n, width), 16) == n,
        hex_padded(n, width).len() >= width,
        hex_padded(n, width).len() > width ==> hex_padded(n, width)[0] != '0' || n == 0,
{
    law_digits_are_read_back(n, 16);
    let plain = digits(n, 16);
    if plain.len() < width {
        lemma_leading_zeros((width - plain.len()) as nat, plain);
    }
}

proof fn lemma_leading_zeros(count: nat, text: Seq<char>)
    ensures
        value_in(zeros(count) + text, 16) == value_in(text, 16),
    decreases text.len(), count,
{
    let all = zeros(count) + text;
    if text.len() > 0 {
        lemma_leading_zeros(count, text.drop_last());
        assert(all.drop_last() =~= zeros(count) + text.drop_last());
        assert(all.last() == text.last());
    } else if count > 0 {
        lemma_leading_zeros((count - 1) as nat, text);
        assert(all.drop_last() =~= zeros((count - 1) as nat) + text);
        assert(all.last() == '0');
    } else {
        assert(all =~= text);
    }
}

/// Text that is joined in two steps is the same as text that is joined at once: the separator
/// stands between every two neighbours, and nowhere else.
pub proof fn law_separators_stand_between(
    left: Seq<Seq<char>>,
    right: Seq<Seq<char>>,
    separator: Seq<char>,
)
    requires
        left.len() > 0,
        right.len() > 0,
    ensures
        joined(left + right, separator) == joined(left, separator) + separator + joined(
            right,
            separator,
        ),
        joined(seq![left[0]], separator) == left[0],
    decreases right.len(),
{
    let all = left + right;
    assert(all.drop_last() =~= left + right.drop_last());
    assert(all.last() == right.last());
    if right.len() == 1 {
        assert(all.drop_last() =~= left);
        assert(joined(right, separator) == right[0]);
    } else {
        law_separators_stand_between(left, right.drop_last(), separator);
        assert(joined(all, separator) == joined(all.drop_last(), separator) + separator
            + all.last());
        assert(joined(all, separator) =~= joined(left, separator) + separator + joined(
            right,
            separator,
        ));
    }
}

/// Negative numbers are written with a minus sign before the digits of the positive number.
pub proof fn law_minus_comes_first(n: int)
    requires
        n > 0,
    ensures
        signed_decimal(-n)[0] == '-',
        signed_decimal(-n).skip(1) == signed_decimal(n),
        value_in(signed_decimal(n), 10) == n,
        bool_text(true) == "true"@,
        bool_text(false) == "false"@,
{
    law_digits_are_read_back(n as nat, 10);
    assert(signed_decimal(-n).skip(1) =~= signed_decimal(n));
}

/// `part` stands somewhere in `text`.
pub open spec fn mentions(text: Seq<char>, part: Seq<char>) -> bool {
    exists|at: int|
        0 <= at <= at + part.len() <= text.len() && #[trigger] text.subrange(at, at + part.len())
            == part
}

/// What stands in a part of a text stands in the text.
pub proof fn lemma_mentions_within(
    before: Seq<char>,
    inner: Seq<char>,
    after: Seq<char>,
    part: Seq<char>,
)
    requires
        mentions(inner, part),
    ensures
        mentions(before + inner + after, part),
{
    let text = before + inner + after;
    let at = choose|at: int|
        0 <= at <= at + part.len() <= inner.len() && #[trigger] inner.subrange(
            at,
            at + part.len(),
        ) == part;
    let shifted = before.len() + at;
    assert(text.subrange(shifted, shifted + part.len()) =~= inner.subrange(at, at + part.len()));
}

/// A text mentions itself.
pub proof fn lemma_mentions_itself(text: Seq<char>)
    ensures
        mentions(text, text),
{
    assert(text.subrange(0int, 0int + text.len()) =~= text);
}

/// A number that is written down can be read back from its digits.
pub proof fn law_written_numbers_hold_their_value(
    n: u128,
    text: String,
    parts: Vec<String>,
    separator: &str,
    list: String,
)
    requires
        call_ensures(format_decimal, (n,), text),
        call_ensures(join_text, (&parts, separator), list),
    ensures
        value_in(text@, 10) == n,
        text@.len() > 0,
        parts@.len() == 0 ==> list@.len() == 0,
        parts@.len() == 1 ==> list@ == parts@[0]@,
        parts@.len() == 2 ==> list@ == parts@[0]@ + separator@ + parts@[1]@,
{
    law_digits_are_read_back(n as nat, 10);
    let all = views(parts@);
    if parts@.len() == 1 {
        assert(all =~= seq![parts@[0]@]);
        law_separators_stand_between(all, all, separator@);
    }
    if parts@.len() == 2 {
        assert(all =~= seq![parts@[0]@] + seq![parts@[1]@]);
        law_separators_stand_between(seq![parts@[0]@], seq![parts@[1]@], separator@);
        law_separators_stand_between(seq![parts@[1]@], seq![parts@[0]@], separator@);
    }
}

} // verus!
