//! What interval literals stand for, from the characters that they are made of.

use vstd::prelude::*;

use super::interval::{
    clock_of, day_time_interval, fraction_micros, interval_parts, number, seconds_of,
    small_number, word_end, words_from, year_month_interval, IntervalField, IntervalFieldRange,
};
use super::scalar_laws::{lemma_digits, lemma_index_absent, lemma_index_at};
use super::scalars::pow10;
use super::sql::lexeme_laws::{law_small_letters_are_the_same_but_for_case, same_but_case};
use crate::number::{all_digits, digits_value, is_digit, unsigned_value};
use crate::text::{
    digits, index_from, is_white, lower, lowercase, split_at_first, trimmed, white_end, white_start,
};

verus! {

// ---------------------------------------------------------------------------------------------
// Units
// ---------------------------------------------------------------------------------------------

/// Whether a word names a unit, in any case.
pub open spec fn names(word: Seq<char>, field: IntervalField) -> bool {
    match field {
        IntervalField::Year => same_but_case(word, "year"@),
        IntervalField::Month => same_but_case(word, "month"@),
        IntervalField::Day => same_but_case(word, "day"@),
        IntervalField::Hour => same_but_case(word, "hour"@),
        IntervalField::Minute => same_but_case(word, "minute"@),
        IntervalField::Second => same_but_case(word, "second"@),
    }
}

/// Whether a text is white space, or empty.
pub open spec fn is_gap(gap: Seq<char>) -> bool {
    forall|i: int| 0 <= i < gap.len() ==> is_white(#[trigger] gap[i])
}

/// An interval literal: a keyword, the quoted part, and the words for its units.
pub open spec fn literal(
    keyword: Seq<char>,
    gap: Seq<char>,
    body: Seq<char>,
    units: Seq<char>,
) -> Seq<char> {
    keyword + gap + seq!['\''] + body + seq!['\''] + units
}

proof fn lemma_names(word: Seq<char>, field: IntervalField)
    requires
        names(word, field),
    ensures
        super::interval::field_named(lowercase(word)) == Some(field),
        word.len() > 2,
        forall|i: int| 0 <= i < word.len() ==> !is_white(#[trigger] word[i]),
        lowercase(word) != "to"@,
{
    reveal_strlit("year");
    reveal_strlit("month");
    reveal_strlit("day");
    reveal_strlit("hour");
    reveal_strlit("minute");
    reveal_strlit("second");
    reveal_strlit("to");
    law_small_letters_are_the_same_but_for_case(word, "year"@);
    law_small_letters_are_the_same_but_for_case(word, "month"@);
    law_small_letters_are_the_same_but_for_case(word, "day"@);
    law_small_letters_are_the_same_but_for_case(word, "hour"@);
    law_small_letters_are_the_same_but_for_case(word, "minute"@);
    law_small_letters_are_the_same_but_for_case(word, "second"@);
    let small = lowercase(word);
    assert(small.len() == word.len());
    assert(small[0] == 'y' || small[0] == 'm' || small[0] == 'd' || small[0] == 'h' || small[0]
        == 's');
    assert(small[1] == 'e' || small[1] == 'o' || small[1] == 'a' || small[1] == 'i');
    assert forall|i: int| 0 <= i < word.len() implies !is_white(#[trigger] word[i]) by {
        assert(small[i] == lower(word[i]));
        assert('a' <= small[i] <= 'z');
    }
}

proof fn lemma_white_end(s: Seq<char>, from: int, to: int)
    requires
        0 <= from <= to <= s.len(),
        forall|i: int| from <= i < to ==> is_white(#[trigger] s[i]),
        to < s.len() ==> !is_white(s[to]),
    ensures
        white_end(s, from) == to,
    decreases to - from,
{
    if from < to {
        assert(is_white(s[from]));
        lemma_white_end(s, from + 1, to);
    }
}

proof fn lemma_word_end(s: Seq<char>, from: int, to: int)
    requires
        0 <= from <= to <= s.len(),
        forall|i: int| from <= i < to ==> !is_white(#[trigger] s[i]),
        to < s.len() ==> is_white(s[to]),
    ensures
        word_end(s, from) == to,
    decreases to - from,
{
    if from < to {
        assert(!is_white(s[from]));
        lemma_word_end(s, from + 1, to);
    }
}

proof fn lemma_word(s: Seq<char>, from: int, start: int, end: int)
    requires
        0 <= from <= start < end <= s.len(),
        forall|i: int| from <= i < start ==> is_white(#[trigger] s[i]),
        forall|i: int| start <= i < end ==> !is_white(#[trigger] s[i]),
        end < s.len() ==> is_white(s[end]),
    ensures
        words_from(s, from) == seq![lowercase(s.subrange(start, end))] + words_from(s, end),
{
    assert(!is_white(s[start]));
    lemma_white_end(s, from, start);
    lemma_word_end(s, start, end);
}

proof fn lemma_no_words(s: Seq<char>)
    ensures
        words_from(s, s.len() as int) == Seq::<Seq<char>>::empty(),
{
}

proof fn lemma_one_word(gap: Seq<char>, word: Seq<char>)
    requires
        is_gap(gap),
        word.len() > 0,
        forall|i: int| 0 <= i < word.len() ==> !is_white(#[trigger] word[i]),
    ensures
        words_from(gap + word, 0) == seq![lowercase(word)],
{
    let s = gap + word;
    let n = gap.len() as int;
    assert forall|i: int| 0 <= i < n implies is_white(#[trigger] s[i]) by {
        assert(s[i] == gap[i]);
    }
    assert forall|i: int| n <= i < s.len() implies !is_white(#[trigger] s[i]) by {
        assert(s[i] == word[i - n]);
    }
    lemma_word(s, 0, n, s.len() as int);
    lemma_no_words(s);
    assert(s.subrange(n, s.len() as int) =~= word);
    assert(seq![lowercase(word)] + Seq::<Seq<char>>::empty() =~= seq![lowercase(word)]);
}

proof fn lemma_trimmed(s: Seq<char>)
    requires
        s.len() > 0,
        !is_white(s[0]),
        !is_white(s[s.len() - 1]),
    ensures
        trimmed(s) == s,
{
    lemma_white_end(s, 0, 0);
    assert(s.skip(0) =~= s);
    assert(white_start(s, s.len() as int) == s.len());
    assert(s.take(s.len() as int) =~= s);
}

/// The quoted part of a literal is what stands between the quotes, and its units are those that the
/// words after it name.
proof fn lemma_literal(
    keyword: Seq<char>,
    gap: Seq<char>,
    body: Seq<char>,
    units: Seq<char>,
    words: Seq<Seq<char>>,
    range: IntervalFieldRange,
)
    requires
        same_but_case(keyword, "interval"@),
        is_gap(gap),
        forall|i: int| 0 <= i < body.len() ==> #[trigger] body[i] != '\'',
        units.len() > 0,
        !is_white(units[units.len() - 1]),
        words_from(units, 0) == words,
        super::interval::range_named(words) == Some(range),
    ensures
        interval_parts(literal(keyword, gap, body, units)) == Some((body, range)),
{
    let raw = literal(keyword, gap, body, units);
    reveal_strlit("interval");
    law_small_letters_are_the_same_but_for_case(keyword, "interval"@);
    assert(keyword.len() == 8);
    assert(lowercase(keyword)[0] == 'i');
    assert(lowercase(keyword)[0] == lower(keyword[0]));
    assert(raw[0] == keyword[0]);
    assert(raw[raw.len() - 1] == units[units.len() - 1]);
    lemma_trimmed(raw);
    assert(raw.take(8) =~= keyword);
    let rest = raw.skip(8);
    assert(rest =~= gap + seq!['\''] + body + seq!['\''] + units);
    let quote = gap.len() as int;
    assert forall|i: int| 0 <= i < quote implies is_white(#[trigger] rest[i]) by {
        assert(rest[i] == gap[i]);
    }
    assert(rest[quote] == '\'');
    lemma_white_end(rest, 0, quote);
    let inner = rest.skip(quote + 1);
    assert(inner =~= body + seq!['\''] + units);
    lemma_split(body, '\'', units);
}

proof fn lemma_split(before: Seq<char>, c: char, after: Seq<char>)
    requires
        forall|i: int| 0 <= i < before.len() ==> #[trigger] before[i] != c,
    ensures
        split_at_first(before + seq![c] + after, c) == Some((before, after)),
{
    let s = before + seq![c] + after;
    let n = before.len() as int;
    assert forall|i: int| 0 <= i < n implies s[i] != c by {
        assert(s[i] == before[i]);
    }
    assert(s[n] == c);
    lemma_index_at(s, c, 0, n);
    assert(s.take(n) =~= before);
    assert(s.skip(n + 1) =~= after);
}

proof fn lemma_no_split(s: Seq<char>, c: char)
    requires
        forall|i: int| 0 <= i < s.len() ==> #[trigger] s[i] != c,
    ensures
        split_at_first(s, c) is None,
        index_from(s, c, 0) is None,
{
    lemma_index_absent(s, c, 0);
}

/// A literal with one unit is that of the quoted part and the unit, whatever white space and case it
/// is written with.
pub proof fn law_literal_names_one_unit(
    keyword: Seq<char>,
    gap: Seq<char>,
    body: Seq<char>,
    before: Seq<char>,
    word: Seq<char>,
    field: IntervalField,
)
    requires
        same_but_case(keyword, "interval"@),
        is_gap(gap),
        is_gap(before),
        forall|i: int| 0 <= i < body.len() ==> #[trigger] body[i] != '\'',
        names(word, field),
    ensures
        interval_parts(literal(keyword, gap, body, before + word)) == Some(
            (body, IntervalFieldRange { start: field, end: field }),
        ),
{
    lemma_names(word, field);
    lemma_one_word(before, word);
    let units = before + word;
    assert(units[units.len() - 1] == word[word.len() - 1]);
    lemma_literal(
        keyword,
        gap,
        body,
        units,
        seq![lowercase(word)],
        IntervalFieldRange { start: field, end: field },
    );
}

/// A literal with two different units is that of the quoted part, from the first unit to the second.
pub proof fn law_literal_names_two_units(
    keyword: Seq<char>,
    gap: Seq<char>,
    body: Seq<char>,
    before: Seq<char>,
    word: Seq<char>,
    field: IntervalField,
    middle: Seq<char>,
    to: Seq<char>,
    after: Seq<char>,
    other: Seq<char>,
    last: IntervalField,
)
    requires
        same_but_case(keyword, "interval"@),
        same_but_case(to, "to"@),
        is_gap(gap),
        is_gap(before),
        is_gap(middle),
        is_gap(after),
        middle.len() > 0,
        after.len() > 0,
        forall|i: int| 0 <= i < body.len() ==> #[trigger] body[i] != '\'',
        names(word, field),
        names(other, last),
        field != last,
    ensures
        interval_parts(literal(keyword, gap, body, before + word + middle + to + after + other))
            == Some((body, IntervalFieldRange { start: field, end: last })),
{
    lemma_names(word, field);
    lemma_names(other, last);
    reveal_strlit("to");
    law_small_letters_are_the_same_but_for_case(to, "to"@);
    let units = before + word + middle + to + after + other;
    let a = before.len() as int;
    let b = a + word.len();
    let c = b + middle.len();
    let d = c + to.len();
    let e = d + after.len();
    let f = e + other.len();
    assert(f == units.len());
    assert forall|i: int| 0 <= i < a implies is_white(#[trigger] units[i]) by {
        assert(units[i] == before[i]);
    }
    assert forall|i: int| a <= i < b implies !is_white(#[trigger] units[i]) by {
        assert(units[i] == word[i - a]);
    }
    assert forall|i: int| b <= i < c implies is_white(#[trigger] units[i]) by {
        assert(units[i] == middle[i - b]);
    }
    assert forall|i: int| c <= i < d implies !is_white(#[trigger] units[i]) by {
        assert(units[i] == to[i - c]);
        assert(lowercase(to)[i - c] == lower(to[i - c]));
        assert(lowercase(to)[i - c] == 't' || lowercase(to)[i - c] == 'o');
    }
    assert forall|i: int| d <= i < e implies is_white(#[trigger] units[i]) by {
        assert(units[i] == after[i - d]);
    }
    assert forall|i: int| e <= i < f implies !is_white(#[trigger] units[i]) by {
        assert(units[i] == other[i - e]);
    }
    assert(is_white(units[b]));
    assert(is_white(units[d]));
    lemma_word(units, 0, a, b);
    lemma_word(units, b, c, d);
    lemma_word(units, d, e, f);
    lemma_no_words(units);
    assert(units.subrange(a, b) =~= word);
    assert(units.subrange(c, d) =~= to);
    assert(units.subrange(e, f) =~= other);
    let words = seq![lowercase(word), "to"@, lowercase(other)];
    assert(words_from(units, 0) =~= words);
    assert(!is_white(units[f - 1]));
    lemma_literal(
        keyword,
        gap,
        body,
        units,
        words,
        IntervalFieldRange { start: field, end: last },
    );
}

proof fn lemma_white_start(s: Seq<char>, from: int, to: int)
    requires
        0 < from <= to <= s.len(),
        !is_white(s[from - 1]),
        forall|i: int| from <= i < to ==> is_white(#[trigger] s[i]),
    ensures
        white_start(s, to) == from,
    decreases to - from,
{
    if from < to {
        assert(is_white(s[to - 1]));
        lemma_white_start(s, from, to - 1);
    }
}

/// White space around a literal makes no difference.
pub proof fn law_white_space_around_a_literal(before: Seq<char>, s: Seq<char>, after: Seq<char>)
    requires
        is_gap(before),
        is_gap(after),
        s.len() > 0,
        !is_white(s[0]),
        !is_white(s[s.len() - 1]),
    ensures
        interval_parts(before + s + after) == interval_parts(s),
{
    let raw = before + s + after;
    let start = before.len() as int;
    lemma_trimmed(s);
    assert forall|i: int| 0 <= i < start implies is_white(#[trigger] raw[i]) by {
        assert(raw[i] == before[i]);
    }
    assert(raw[start] == s[0]);
    lemma_white_end(raw, 0, start);
    let rest = raw.skip(start);
    assert(rest =~= s + after);
    assert(rest[s.len() - 1] == s[s.len() - 1]);
    assert forall|i: int| s.len() <= i < rest.len() implies is_white(#[trigger] rest[i]) by {
        assert(rest[i] == after[i - s.len()]);
    }
    lemma_white_start(rest, s.len() as int, rest.len() as int);
    assert(rest.take(s.len() as int) =~= s);
}

// ---------------------------------------------------------------------------------------------
// Magnitudes
// ---------------------------------------------------------------------------------------------

/// A magnitude with its sign before it.
pub open spec fn with_sign(negative: bool, magnitude: Seq<char>) -> Seq<char> {
    if negative {
        seq!['-'] + magnitude
    } else {
        magnitude
    }
}

/// A number with its sign, where it fits the bounds of a type.
pub open spec fn fitting(negative: bool, n: int, min: int, max: int) -> Option<int> {
    let value = if negative {
        -n
    } else {
        n
    };
    if min <= value <= max {
        Some(value)
    } else {
        None
    }
}

proof fn lemma_no_signs(body: Seq<char>, negative: bool, magnitude: Seq<char>)
    requires
        body == with_sign(negative, magnitude),
        magnitude.len() > 0,
        magnitude[0] != '-',
        forall|i: int| 0 <= i < magnitude.len() ==> #[trigger] magnitude[i] != '+',
    ensures
        super::interval::signed_parts(body) == Some((negative, magnitude)),
{
    lemma_no_split(magnitude, '+');
    if negative {
        assert(body[0] == '-');
        assert(body.skip(1) =~= magnitude);
    } else {
        assert(body[0] == magnitude[0]);
    }
}

proof fn lemma_number(n: nat)
    ensures
        unsigned_value(digits(n)) == Some(n as int),
        digits(n).len() > 0,
        forall|i: int| 0 <= i < digits(n).len() ==> is_digit(#[trigger] digits(n)[i]),
        n <= u64::MAX ==> number(digits(n)) == Some(n as int),
        n <= u32::MAX ==> small_number(digits(n)) == Some(n as int),
{
    lemma_digits(n);
    assert(is_digit(digits(n)[0]));
}

/// Years count twelve months each, and a sign before them counts for the whole; so many that they do
/// not fit 32 bits are refused.
pub proof fn law_years_and_months_count_months(
    raw: Seq<char>,
    negative: bool,
    years: nat,
    months: nat,
)
    requires
        years * 12 + months <= u32::MAX,
    ensures
        interval_parts(raw) == Some(
            (
                with_sign(negative, digits(years)),
                IntervalFieldRange { start: IntervalField::Year, end: IntervalField::Year },
            ),
        ) ==> year_month_interval(raw) == fitting(
            negative,
            (years * 12) as int,
            i32::MIN as int,
            i32::MAX as int,
        ),
        interval_parts(raw) == Some(
            (
                with_sign(negative, digits(months)),
                IntervalFieldRange { start: IntervalField::Month, end: IntervalField::Month },
            ),
        ) ==> year_month_interval(raw) == fitting(
            negative,
            months as int,
            i32::MIN as int,
            i32::MAX as int,
        ),
        interval_parts(raw) == Some(
            (
                with_sign(negative, digits(years) + seq!['-'] + digits(months)),
                IntervalFieldRange { start: IntervalField::Year, end: IntervalField::Month },
            ),
        ) ==> year_month_interval(raw) == if months < 12 {
            fitting(negative, (years * 12 + months) as int, i32::MIN as int, i32::MAX as int)
        } else {
            None
        },
{
    lemma_number(years);
    lemma_number(months);
    lemma_no_signs(with_sign(negative, digits(years)), negative, digits(years));
    lemma_no_signs(with_sign(negative, digits(months)), negative, digits(months));
    let both = digits(years) + seq!['-'] + digits(months);
    assert forall|i: int| 0 <= i < both.len() implies #[trigger] both[i] != '+' by {
        if i < digits(years).len() {
            assert(both[i] == digits(years)[i]);
        } else if i > digits(years).len() {
            assert(both[i] == digits(months)[i - digits(years).len() - 1]);
        }
    }
    assert(both[0] == digits(years)[0]);
    lemma_no_signs(with_sign(negative, both), negative, both);
    lemma_split(digits(years), '-', digits(months));
}

/// Whether a text is a number of seconds, with or without digits after a point: the first six of
/// those count, as microseconds.
pub open spec fn is_seconds(text: Seq<char>, seconds: nat, micros: int) -> bool {
    ||| text == digits(seconds) && micros == 0
    ||| exists|fraction: Seq<char>|
        {
            &&& #[trigger] fraction.len() > 0
            &&& all_digits(fraction)
            &&& text == digits(seconds) + seq!['.'] + fraction
            &&& micros == if fraction.len() > 6 {
                digits_value(fraction.take(6))
            } else {
                digits_value(fraction) * pow10((6 - fraction.len()) as nat)
            }
        }
}

proof fn lemma_fraction(fraction: Seq<char>)
    requires
        fraction.len() > 0,
    ensures
        fraction_micros(fraction) == if fraction.len() > 6 {
            digits_value(fraction.take(6))
        } else {
            digits_value(fraction) * pow10((6 - fraction.len()) as nat)
        },
{
    reveal_with_fuel(pow10, 7);
    assert(pow10(0) == 1);
    assert(pow10(1) == 10);
    assert(pow10(2) == 100);
    assert(pow10(3) == 1000);
    assert(pow10(4) == 10000);
    assert(pow10(5) == 100000);
    let value = digits_value(fraction);
    let rest = (6 - fraction.len()) as nat;
    if fraction.len() == 6 {
        assert(fraction.take(6) =~= fraction);
        assert(rest == 0);
    } else if fraction.len() == 5 {
        assert(rest == 1);
    } else if fraction.len() == 4 {
        assert(rest == 2);
    } else if fraction.len() == 3 {
        assert(rest == 3);
    } else if fraction.len() == 2 {
        assert(rest == 4);
    } else if fraction.len() == 1 {
        assert(rest == 5);
    }
    let scale = pow10(rest);
    assert(scale == 1 ==> value * scale == value) by (nonlinear_arith);
    assert(scale == 10 ==> value * scale == value * 10) by (nonlinear_arith);
    assert(scale == 100 ==> value * scale == value * 100) by (nonlinear_arith);
    assert(scale == 1000 ==> value * scale == value * 1000) by (nonlinear_arith);
    assert(scale == 10000 ==> value * scale == value * 10000) by (nonlinear_arith);
    assert(scale == 100000 ==> value * scale == value * 100000) by (nonlinear_arith);
}

proof fn lemma_seconds(text: Seq<char>, seconds: nat, micros: int)
    requires
        is_seconds(text, seconds, micros),
        seconds <= u64::MAX,
    ensures
        seconds_of(text) == Some((seconds as int, micros)),
        text.len() > 0,
        is_digit(text[0]),
        forall|i: int| 0 <= i < text.len() ==> is_digit(#[trigger] text[i]) || text[i] == '.',
{
    lemma_number(seconds);
    let whole = digits(seconds);
    if text == whole && micros == 0 {
        lemma_no_split(text, '.');
    } else {
        let fraction = choose|fraction: Seq<char>|
            {
                &&& #[trigger] fraction.len() > 0
                &&& all_digits(fraction)
                &&& text == whole + seq!['.'] + fraction
                &&& micros == if fraction.len() > 6 {
                    digits_value(fraction.take(6))
                } else {
                    digits_value(fraction) * pow10((6 - fraction.len()) as nat)
                }
            };
        lemma_split(whole, '.', fraction);
        lemma_fraction(fraction);
        assert(text[0] == whole[0]);
        assert forall|i: int| 0 <= i < text.len() implies is_digit(#[trigger] text[i]) || text[i]
            == '.' by {
            if i < whole.len() {
                assert(text[i] == whole[i]);
            } else if i > whole.len() {
                assert(text[i] == fraction[i - whole.len() - 1]);
            }
        }
    }
}

/// A point needs digits after it, and nothing but digits.
pub proof fn law_point_needs_digits_after_it(seconds: nat, fraction: Seq<char>, i: int)
    ensures
        fraction.len() == 0 ==> seconds_of(digits(seconds) + seq!['.'] + fraction) is None,
        0 <= i < fraction.len() && !('0' <= fraction[i] <= '9') ==> seconds_of(
            digits(seconds) + seq!['.'] + fraction,
        ) is None,
{
    lemma_number(seconds);
    lemma_split(digits(seconds), '.', fraction);
    if 0 <= i < fraction.len() && !('0' <= fraction[i] <= '9') {
        assert(!is_digit(fraction[i]));
    }
}

/// How many microseconds some days, hours, minutes, seconds and microseconds are.
pub open spec fn total_micros(
    days: int,
    hours: int,
    minutes: int,
    seconds: int,
    micros: int,
) -> int {
    days * 86_400_000_000 + hours * 3_600_000_000 + minutes * 60_000_000 + seconds * 1_000_000
        + micros
}

/// An interval of time, where it fits 64 bits.
pub open spec fn time_interval(negative: bool, total: int) -> Option<int> {
    fitting(negative, total, i64::MIN as int, i64::MAX as int)
}

/// The units from one to another.
pub open spec fn units(start: IntervalField, end: IntervalField) -> IntervalFieldRange {
    IntervalFieldRange { start, end }
}

proof fn lemma_signed_micros(
    raw: Seq<char>,
    negative: bool,
    magnitude: Seq<char>,
    range: IntervalFieldRange,
    parts: (int, int, int, int, int),
)
    requires
        interval_parts(raw) == Some((with_sign(negative, magnitude), range)),
        magnitude.len() > 0,
        magnitude[0] != '-',
        forall|i: int| 0 <= i < magnitude.len() ==> #[trigger] magnitude[i] != '+',
        super::interval::day_time_parts(range, magnitude) == Some(parts),
        0 <= parts.0,
        0 <= parts.1,
        0 <= parts.2,
        0 <= parts.3,
        0 <= parts.4,
    ensures
        day_time_interval(raw) == time_interval(
            negative,
            total_micros(parts.0, parts.1, parts.2, parts.3, parts.4),
        ),
{
    lemma_no_signs(with_sign(negative, magnitude), negative, magnitude);
    let total = total_micros(parts.0, parts.1, parts.2, parts.3, parts.4);
    assert(super::interval::micros_of(parts.0, parts.1, parts.2, parts.3, parts.4) == total);
    assert(total >= 0);
}

/// A number of days, hours or minutes stands for so many of them, and a number of seconds for those
/// and the microseconds after the point.
pub proof fn law_one_unit_of_time_counts_itself(
    raw: Seq<char>,
    negative: bool,
    n: nat,
    text: Seq<char>,
    micros: int,
)
    requires
        n <= u64::MAX,
        is_seconds(text, n, micros),
        0 <= micros,
    ensures
        interval_parts(raw) == Some(
            (with_sign(negative, digits(n)), units(IntervalField::Day, IntervalField::Day)),
        ) ==> day_time_interval(raw) == time_interval(
            negative,
            total_micros(n as int, 0, 0, 0, 0),
        ),
        interval_parts(raw) == Some(
            (with_sign(negative, digits(n)), units(IntervalField::Hour, IntervalField::Hour)),
        ) ==> day_time_interval(raw) == time_interval(
            negative,
            total_micros(0, n as int, 0, 0, 0),
        ),
        interval_parts(raw) == Some(
            (with_sign(negative, digits(n)), units(IntervalField::Minute, IntervalField::Minute)),
        ) ==> day_time_interval(raw) == time_interval(
            negative,
            total_micros(0, 0, n as int, 0, 0),
        ),
        interval_parts(raw) == Some(
            (with_sign(negative, text), units(IntervalField::Second, IntervalField::Second)),
        ) ==> day_time_interval(raw) == time_interval(
            negative,
            total_micros(0, 0, 0, n as int, micros),
        ),
{
    lemma_number(n);
    lemma_seconds(text, n, micros);
    let plain = digits(n);
    if interval_parts(raw) == Some(
        (with_sign(negative, plain), units(IntervalField::Day, IntervalField::Day)),
    ) {
        lemma_signed_micros(
            raw,
            negative,
            plain,
            units(IntervalField::Day, IntervalField::Day),
            (n as int, 0, 0, 0, 0),
        );
    }
    if interval_parts(raw) == Some(
        (with_sign(negative, plain), units(IntervalField::Hour, IntervalField::Hour)),
    ) {
        lemma_signed_micros(
            raw,
            negative,
            plain,
            units(IntervalField::Hour, IntervalField::Hour),
            (0, n as int, 0, 0, 0),
        );
    }
    if interval_parts(raw) == Some(
        (with_sign(negative, plain), units(IntervalField::Minute, IntervalField::Minute)),
    ) {
        lemma_signed_micros(
            raw,
            negative,
            plain,
            units(IntervalField::Minute, IntervalField::Minute),
            (0, 0, n as int, 0, 0),
        );
    }
    if interval_parts(raw) == Some(
        (with_sign(negative, text), units(IntervalField::Second, IntervalField::Second)),
    ) {
        lemma_signed_micros(
            raw,
            negative,
            text,
            units(IntervalField::Second, IntervalField::Second),
            (0, 0, 0, n as int, micros),
        );
    }
}

/// A time of day as text: hours, minutes and seconds with colons between them.
pub open spec fn clock_text(hours: nat, minutes: nat, seconds: Seq<char>) -> Seq<char> {
    digits(hours) + seq![':'] + (digits(minutes) + seq![':'] + seconds)
}

proof fn lemma_clock(
    hours: nat,
    minutes: nat,
    text: Seq<char>,
    seconds: nat,
    micros: int,
)
    requires
        hours <= u64::MAX,
        minutes < 60,
        seconds < 60,
        is_seconds(text, seconds, micros),
    ensures
        clock_of(clock_text(hours, minutes, text), true) == Some(
            (hours as int, minutes as int, seconds as int, micros),
        ),
        clock_of(digits(hours) + seq![':'] + digits(minutes), false) == Some(
            (hours as int, minutes as int, 0int, 0int),
        ),
{
    lemma_number(hours);
    lemma_number(minutes);
    lemma_seconds(text, seconds, micros);
    lemma_split(digits(hours), ':', digits(minutes) + seq![':'] + text);
    lemma_split(digits(minutes), ':', text);
    lemma_split(digits(hours), ':', digits(minutes));
    lemma_no_split(text, ':');
    lemma_no_split(digits(minutes), ':');
}

/// Whether a text holds only digits, points, colons and blanks, with a digit first.
spec fn is_unsigned(text: Seq<char>) -> bool {
    &&& text.len() > 0
    &&& text[0] != '-'
    &&& forall|i: int| 0 <= i < text.len() ==> #[trigger] text[i] != '+'
}

proof fn lemma_joined_unsigned(before: Seq<char>, c: char, after: Seq<char>)
    requires
        is_unsigned(before),
        is_unsigned(after),
        c != '+',
    ensures
        is_unsigned(before + seq![c] + after),
{
    let s = before + seq![c] + after;
    assert(s[0] == before[0]);
    assert forall|i: int| 0 <= i < s.len() implies #[trigger] s[i] != '+' by {
        if i < before.len() {
            assert(s[i] == before[i]);
        } else if i > before.len() {
            assert(s[i] == after[i - before.len() - 1]);
        }
    }
}

/// Hours, minutes and seconds count as on a clock, with any number of hours; minutes and seconds
/// likewise with any number of minutes.
pub proof fn law_clock_times_add_up(
    raw: Seq<char>,
    negative: bool,
    hours: nat,
    minutes: nat,
    text: Seq<char>,
    seconds: nat,
    micros: int,
)
    requires
        hours <= u64::MAX,
        minutes < 60,
        seconds < 60,
        0 <= micros,
        is_seconds(text, seconds, micros),
    ensures
        interval_parts(raw) == Some(
            (
                with_sign(negative, clock_text(hours, minutes, text)),
                units(IntervalField::Hour, IntervalField::Second),
            ),
        ) ==> day_time_interval(raw) == time_interval(
            negative,
            total_micros(0, hours as int, minutes as int, seconds as int, micros),
        ),
        interval_parts(raw) == Some(
            (
                with_sign(negative, digits(hours) + seq![':'] + digits(minutes)),
                units(IntervalField::Hour, IntervalField::Minute),
            ),
        ) ==> day_time_interval(raw) == time_interval(
            negative,
            total_micros(0, hours as int, minutes as int, 0, 0),
        ),
        interval_parts(raw) == Some(
            (
                with_sign(negative, digits(hours) + seq![':'] + text),
                units(IntervalField::Minute, IntervalField::Second),
            ),
        ) ==> day_time_interval(raw) == time_interval(
            negative,
            total_micros(0, 0, hours as int, seconds as int, micros),
        ),
{
    lemma_clock(hours, minutes, text, seconds, micros);
    lemma_number(hours);
    lemma_number(minutes);
    lemma_seconds(text, seconds, micros);
    lemma_joined_unsigned(digits(minutes), ':', text);
    lemma_joined_unsigned(digits(hours), ':', digits(minutes) + seq![':'] + text);
    lemma_joined_unsigned(digits(hours), ':', digits(minutes));
    lemma_joined_unsigned(digits(hours), ':', text);
    lemma_split(digits(hours), ':', text);
    let clock = clock_text(hours, minutes, text);
    if interval_parts(raw) == Some(
        (with_sign(negative, clock), units(IntervalField::Hour, IntervalField::Second)),
    ) {
        lemma_signed_micros(
            raw,
            negative,
            clock,
            units(IntervalField::Hour, IntervalField::Second),
            (0, hours as int, minutes as int, seconds as int, micros),
        );
    }
    let short = digits(hours) + seq![':'] + digits(minutes);
    if interval_parts(raw) == Some(
        (with_sign(negative, short), units(IntervalField::Hour, IntervalField::Minute)),
    ) {
        lemma_signed_micros(
            raw,
            negative,
            short,
            units(IntervalField::Hour, IntervalField::Minute),
            (0, hours as int, minutes as int, 0, 0),
        );
    }
    let low = digits(hours) + seq![':'] + text;
    if interval_parts(raw) == Some(
        (with_sign(negative, low), units(IntervalField::Minute, IntervalField::Second)),
    ) {
        lemma_signed_micros(
            raw,
            negative,
            low,
            units(IntervalField::Minute, IntervalField::Second),
            (0, 0, hours as int, seconds as int, micros),
        );
    }
}

/// Days and a time of day add up; a day has 24 hours.
pub proof fn law_days_and_clock_times_add_up(
    raw: Seq<char>,
    negative: bool,
    days: nat,
    hours: nat,
    minutes: nat,
    text: Seq<char>,
    seconds: nat,
    micros: int,
)
    requires
        days <= u64::MAX,
        hours < 24,
        minutes < 60,
        seconds < 60,
        0 <= micros,
        is_seconds(text, seconds, micros),
    ensures
        interval_parts(raw) == Some(
            (
                with_sign(negative, digits(days) + seq![' '] + clock_text(hours, minutes, text)),
                units(IntervalField::Day, IntervalField::Second),
            ),
        ) ==> day_time_interval(raw) == time_interval(
            negative,
            total_micros(days as int, hours as int, minutes as int, seconds as int, micros),
        ),
        interval_parts(raw) == Some(
            (
                with_sign(
                    negative,
                    digits(days) + seq![' '] + (digits(hours) + seq![':'] + digits(minutes)),
                ),
                units(IntervalField::Day, IntervalField::Minute),
            ),
        ) ==> day_time_interval(raw) == time_interval(
            negative,
            total_micros(days as int, hours as int, minutes as int, 0, 0),
        ),
        interval_parts(raw) == Some(
            (
                with_sign(negative, digits(days) + seq![' '] + digits(hours)),
                units(IntervalField::Day, IntervalField::Hour),
            ),
        ) ==> day_time_interval(raw) == time_interval(
            negative,
            total_micros(days as int, hours as int, 0, 0, 0),
        ),
{
    lemma_clock(hours, minutes, text, seconds, micros);
    lemma_number(days);
    lemma_number(hours);
    lemma_number(minutes);
    lemma_seconds(text, seconds, micros);
    let clock = clock_text(hours, minutes, text);
    let short = digits(hours) + seq![':'] + digits(minutes);
    lemma_joined_unsigned(digits(minutes), ':', text);
    lemma_joined_unsigned(digits(hours), ':', digits(minutes) + seq![':'] + text);
    lemma_joined_unsigned(digits(hours), ':', digits(minutes));
    lemma_joined_unsigned(digits(days), ' ', clock);
    lemma_joined_unsigned(digits(days), ' ', short);
    lemma_joined_unsigned(digits(days), ' ', digits(hours));
    lemma_split(digits(days), ' ', clock);
    lemma_split(digits(days), ' ', short);
    lemma_split(digits(days), ' ', digits(hours));
    let a = digits(days) + seq![' '] + clock;
    if interval_parts(raw) == Some(
        (with_sign(negative, a), units(IntervalField::Day, IntervalField::Second)),
    ) {
        lemma_signed_micros(
            raw,
            negative,
            a,
            units(IntervalField::Day, IntervalField::Second),
            (days as int, hours as int, minutes as int, seconds as int, micros),
        );
    }
    let b = digits(days) + seq![' '] + short;
    if interval_parts(raw) == Some(
        (with_sign(negative, b), units(IntervalField::Day, IntervalField::Minute)),
    ) {
        lemma_signed_micros(
            raw,
            negative,
            b,
            units(IntervalField::Day, IntervalField::Minute),
            (days as int, hours as int, minutes as int, 0, 0),
        );
    }
    let c = digits(days) + seq![' '] + digits(hours);
    if interval_parts(raw) == Some(
        (with_sign(negative, c), units(IntervalField::Day, IntervalField::Hour)),
    ) {
        lemma_signed_micros(
            raw,
            negative,
            c,
            units(IntervalField::Day, IntervalField::Hour),
            (days as int, hours as int, 0, 0, 0),
        );
    }
}

/// Minutes, seconds and hours of a clock stay below those of the next larger unit, and units that run
/// from years to days, or backwards, are refused.
pub proof fn law_intervals_that_are_refused(
    raw: Seq<char>,
    body: Seq<char>,
    start: IntervalField,
    end: IntervalField,
)
    requires
        interval_parts(raw) == Some((body, units(start, end))),
    ensures
        start is Day || start is Hour || start is Minute || start is Second || end is Day || end
            is Hour || end is Minute || end is Second ==> year_month_interval(raw) is None,
        start is Year || start is Month || end is Year || end is Month ==> day_time_interval(
            raw,
        ) is None,
        start is Month && end is Year ==> year_month_interval(raw) is None,
        start is Hour && end is Day || start is Minute && (end is Day || end is Hour) || start
            is Second && (end is Day || end is Hour || end is Minute) ==> day_time_interval(raw)
            is None,
{
}

} // verus!
