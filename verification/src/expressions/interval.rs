//! Interval literals, such as `INTERVAL '1-6' YEAR TO MONTH` and
//! `INTERVAL '1 12:30:45.5' DAY TO SECOND`.
//!
//! A year-month interval is a number of months, a day-time interval a number of microseconds.

use vstd::prelude::*;

use crate::number::{
    all_digits, digits_value, is_ascii_digit, is_digit, parse_u32, parse_u64, unsigned_value,
    within,
};
use crate::text::{
    find, index_from, is_text_in_any_case, is_white, is_whitespace, lowercase, same_chars,
    skip_white, split_at_first, split_once, to_chars, to_lowercase, trim, trimmed, white_end,
};

verus! {

// ---------------------------------------------------------------------------------------------
// Fields
// ---------------------------------------------------------------------------------------------

/// A unit that an interval counts.
#[derive(Debug, Clone, Copy, PartialEq, Eq, Structural)]
pub enum IntervalField {
    /// Years.
    Year,
    /// Months.
    Month,
    /// Days.
    Day,
    /// Hours.
    Hour,
    /// Minutes.
    Minute,
    /// Seconds.
    Second,
}

/// The units of an interval, from the largest to the smallest.
#[derive(Debug, Clone, Copy, PartialEq, Eq, Structural)]
pub struct IntervalFieldRange {
    /// The largest unit.
    pub start: IntervalField,
    /// The smallest unit.
    pub end: IntervalField,
}

/// The unit with a name in small letters.
pub open spec fn field_named(name: Seq<char>) -> Option<IntervalField> {
    if name == "year"@ {
        Some(IntervalField::Year)
    } else if name == "month"@ {
        Some(IntervalField::Month)
    } else if name == "day"@ {
        Some(IntervalField::Day)
    } else if name == "hour"@ {
        Some(IntervalField::Hour)
    } else if name == "minute"@ {
        Some(IntervalField::Minute)
    } else if name == "second"@ {
        Some(IntervalField::Second)
    } else {
        None
    }
}

fn parse_field(name: &[char]) -> (r: Option<IntervalField>)
    ensures
        r == field_named(name@),
{
    if same_chars(name, to_chars("year").as_slice()) {
        Some(IntervalField::Year)
    } else if same_chars(name, to_chars("month").as_slice()) {
        Some(IntervalField::Month)
    } else if same_chars(name, to_chars("day").as_slice()) {
        Some(IntervalField::Day)
    } else if same_chars(name, to_chars("hour").as_slice()) {
        Some(IntervalField::Hour)
    } else if same_chars(name, to_chars("minute").as_slice()) {
        Some(IntervalField::Minute)
    } else if same_chars(name, to_chars("second").as_slice()) {
        Some(IntervalField::Second)
    } else {
        None
    }
}

/// The units that some words name: one, as in `year`, or two, as in `year to month`.
pub open spec fn range_named(words: Seq<Seq<char>>) -> Option<IntervalFieldRange> {
    if words.len() == 1 {
        match field_named(words[0]) {
            Some(field) => Some(IntervalFieldRange { start: field, end: field }),
            None => None,
        }
    } else if words.len() == 3 && words[1] == "to"@ {
        match (field_named(words[0]), field_named(words[2])) {
            (Some(start), Some(end)) => if start != end {
                Some(IntervalFieldRange { start, end })
            } else {
                None
            },
            _ => None,
        }
    } else {
        None
    }
}

// ---------------------------------------------------------------------------------------------
// Words
// ---------------------------------------------------------------------------------------------

/// The position of the first white space at or after `from`.
pub open spec fn word_end(s: Seq<char>, from: int) -> int
    decreases s.len() - from,
{
    if 0 <= from < s.len() && !is_white(s[from]) {
        word_end(s, from + 1)
    } else {
        from
    }
}

proof fn lemma_ends(s: Seq<char>, from: int)
    requires
        0 <= from <= s.len(),
    ensures
        from <= white_end(s, from) <= s.len(),
        from <= word_end(s, from) <= s.len(),
        white_end(s, from) < s.len() ==> !is_white(s[white_end(s, from)]),
    decreases s.len() - from,
{
    if from < s.len() {
        lemma_ends(s, from + 1);
    }
}

/// The words of a text from `from` on, in small letters.
pub open spec fn words_from(s: Seq<char>, from: int) -> Seq<Seq<char>>
    decreases s.len() - from,
{
    let start = white_end(s, from);
    let end = word_end(s, start);
    if 0 <= from <= start < end <= s.len() {
        seq![lowercase(s.subrange(start, end))] + words_from(s, end)
    } else {
        Seq::empty()
    }
}

/// The words of a text, in small letters.
fn words(s: &[char]) -> (r: Vec<Vec<char>>)
    ensures
        r@.len() == words_from(s@, 0).len(),
        forall|i: int| 0 <= i < r@.len() ==> (#[trigger] r@[i])@ == words_from(s@, 0)[i],
{
    let mut r: Vec<Vec<char>> = Vec::new();
    let mut from: usize = 0;
    loop
        invariant
            from <= s@.len(),
            r@.len() + words_from(s@, from as int).len() == words_from(s@, 0).len(),
            forall|i: int| 0 <= i < r@.len() ==> (#[trigger] r@[i])@ == words_from(s@, 0)[i],
            forall|i: int|
                0 <= i < words_from(s@, from as int).len() ==> words_from(s@, 0)[r@.len() + i]
                    == #[trigger] words_from(s@, from as int)[i],
        decreases s@.len() - from,
    {
        let start: usize = skip_white(s, from);
        let mut end: usize = start;
        while end < s.len() && !is_whitespace(s[end])
            invariant
                start <= end <= s@.len(),
                word_end(s@, start as int) == word_end(s@, end as int),
            decreases s@.len() - end,
        {
            end += 1;
        }
        if end == start {
            return r;
        }
        let word: &[char] = vstd::slice::slice_subrange(s, start, end);
        let ghost rest = words_from(s@, end as int);
        let ghost here = words_from(s@, from as int);
        proof {
            assert(word@ =~= s@.subrange(start as int, end as int));
            assert(here =~= seq![lowercase(word@)] + rest);
            assert(here[0] == lowercase(word@));
            assert(words_from(s@, 0)[r@.len() + 0int] == here[0]);
            assert forall|i: int| 0 <= i < rest.len() implies words_from(s@, 0)[r@.len() + 1 + i]
                == #[trigger] rest[i] by {
                assert(here[i + 1] == rest[i]);
                assert(words_from(s@, 0)[r@.len() + (i + 1)] == here[i + 1]);
            }
        }
        r.push(to_lowercase(word));
        from = end;
    }
}

/// The units that follow an interval, if they are named.
fn parse_interval_type(after: &[char]) -> (r: Option<IntervalFieldRange>)
    ensures
        r == range_named(words_from(after@, 0)),
{
    let words: Vec<Vec<char>> = words(after);
    if words.len() == 1 {
        return match parse_field(words[0].as_slice()) {
            Some(field) => Some(IntervalFieldRange { start: field, end: field }),
            None => None,
        };
    }
    if words.len() == 3 && same_chars(words[1].as_slice(), to_chars("to").as_slice()) {
        return match (parse_field(words[0].as_slice()), parse_field(words[2].as_slice())) {
            (Some(start), Some(end)) => if start != end {
                Some(IntervalFieldRange { start, end })
            } else {
                None
            },
            _ => None,
        };
    }
    None
}

// ---------------------------------------------------------------------------------------------
// The parts of a literal
// ---------------------------------------------------------------------------------------------

/// The quoted part of an interval literal, and its units.
pub open spec fn interval_parts(raw: Seq<char>) -> Option<(Seq<char>, IntervalFieldRange)> {
    let text = trimmed(raw);
    if text.len() < 8 || lowercase(text.take(8)) != "interval"@ {
        None
    } else {
        let rest = text.skip(8);
        let quote = white_end(rest, 0);
        if quote >= rest.len() || rest[quote] != '\'' {
            None
        } else {
            match split_at_first(rest.skip(quote + 1), '\'') {
                None => None,
                Some((body, after)) => match range_named(words_from(after, 0)) {
                    Some(range) => Some((body, range)),
                    None => None,
                },
            }
        }
    }
}

/// The quoted part of an interval literal, and its units.
fn extract_interval_literal(raw: &[char]) -> (r: Option<(&[char], IntervalFieldRange)>)
    ensures
        match interval_parts(raw@) {
            Some((body, range)) => r matches Some((b, f)) && b@ == body && f == range,
            None => r is None,
        },
{
    let text: &[char] = trim(raw);
    if text.len() < 8 {
        return None;
    }
    let keyword: &[char] = vstd::slice::slice_subrange(text, 0, 8);
    assert(keyword@ =~= text@.take(8));
    if !is_text_in_any_case(keyword, "interval") {
        return None;
    }
    let rest: &[char] = vstd::slice::slice_subrange(text, 8, text.len());
    assert(rest@ =~= text@.skip(8));
    let quote: usize = skip_white(rest, 0);
    if quote >= rest.len() || rest[quote] != '\'' {
        return None;
    }
    let quoted: &[char] = vstd::slice::slice_subrange(rest, quote + 1, rest.len());
    assert(quoted@ =~= rest@.skip(quote + 1));
    match split_once(quoted, '\'') {
        None => None,
        Some((body, after)) => match parse_interval_type(after) {
            Some(range) => Some((body, range)),
            None => None,
        },
    }
}

/// Whether an interval is negative, and its magnitude, which holds no plus sign and no second minus
/// sign.
pub open spec fn signed_parts(body: Seq<char>) -> Option<(bool, Seq<char>)> {
    let negative = body.len() > 0 && body[0] == '-';
    let magnitude = if negative {
        body.skip(1)
    } else {
        body
    };
    if (magnitude.len() > 0 && magnitude[0] == '-') || index_from(magnitude, '+', 0) is Some {
        None
    } else {
        Some((negative, magnitude))
    }
}

fn interval_magnitude(body: &[char]) -> (r: Option<(bool, &[char])>)
    ensures
        match signed_parts(body@) {
            Some((negative, magnitude)) => r matches Some((n, m)) && n == negative && m@
                == magnitude,
            None => r is None,
        },
{
    let negative: bool = body.len() > 0 && body[0] == '-';
    let start: usize = if negative {
        1
    } else {
        0
    };
    let magnitude: &[char] = vstd::slice::slice_subrange(body, start, body.len());
    assert(magnitude@ =~= if negative {
        body@.skip(1)
    } else {
        body@
    });
    if (magnitude.len() > 0 && magnitude[0] == '-') || find(magnitude, '+').is_some() {
        return None;
    }
    Some((negative, magnitude))
}

/// A magnitude with its sign.
pub open spec fn signed(magnitude: int, negative: bool) -> int {
    if negative {
        -magnitude
    } else {
        magnitude
    }
}

fn signed_i32(magnitude: u32, negative: bool) -> (r: Option<i32>)
    ensures
        match within(Some(signed(magnitude as int, negative)), i32::MIN as int, i32::MAX as int) {
            Some(n) => r matches Some(m) && m == n,
            None => r is None,
        },
{
    let signed: i64 = if negative {
        -(magnitude as i64)
    } else {
        magnitude as i64
    };
    if i32::MIN as i64 <= signed && signed <= i32::MAX as i64 {
        Some(signed as i32)
    } else {
        None
    }
}

fn signed_i64(magnitude: u64, negative: bool) -> (r: Option<i64>)
    ensures
        match within(Some(signed(magnitude as int, negative)), i64::MIN as int, i64::MAX as int) {
            Some(n) => r matches Some(m) && m == n,
            None => r is None,
        },
{
    let signed: i128 = if negative {
        -(magnitude as i128)
    } else {
        magnitude as i128
    };
    if i64::MIN as i128 <= signed && signed <= i64::MAX as i128 {
        Some(signed as i64)
    } else {
        None
    }
}

// ---------------------------------------------------------------------------------------------
// Year-month intervals
// ---------------------------------------------------------------------------------------------

/// A 32-bit unsigned number.
pub open spec fn small_number(s: Seq<char>) -> Option<int> {
    within(unsigned_value(s), 0, u32::MAX as int)
}

/// How many months a magnitude stands for. Beside years there are fewer than twelve months.
pub open spec fn months_of(range: IntervalFieldRange, magnitude: Seq<char>) -> Option<int> {
    match (range.start, range.end) {
        (IntervalField::Year, IntervalField::Year) => match small_number(magnitude) {
            Some(years) => within(Some(years * 12), 0, u32::MAX as int),
            None => None,
        },
        (IntervalField::Month, IntervalField::Month) => small_number(magnitude),
        (IntervalField::Year, IntervalField::Month) => match split_at_first(magnitude, '-') {
            Some((years, months)) => match (small_number(years), small_number(months)) {
                (Some(y), Some(m)) => if m < 12 {
                    within(Some(y * 12 + m), 0, u32::MAX as int)
                } else {
                    None
                },
                _ => None,
            },
            None => None,
        },
        _ => None,
    }
}

/// How many months a year-month interval literal stands for.
pub open spec fn year_month_interval(raw: Seq<char>) -> Option<int> {
    match interval_parts(raw) {
        Some((body, range)) => match signed_parts(body) {
            Some((negative, magnitude)) => match months_of(range, magnitude) {
                Some(months) => within(
                    Some(signed(months, negative)),
                    i32::MIN as int,
                    i32::MAX as int,
                ),
                None => None,
            },
            None => None,
        },
        None => None,
    }
}

fn parse_months(range: IntervalFieldRange, magnitude: &[char]) -> (r: Option<u32>)
    ensures
        match months_of(range, magnitude@) {
            Some(n) => r matches Some(m) && m == n,
            None => r is None,
        },
{
    match (range.start, range.end) {
        (IntervalField::Year, IntervalField::Year) => match parse_u32(magnitude) {
            Some(years) => years.checked_mul(12),
            None => None,
        },
        (IntervalField::Month, IntervalField::Month) => parse_u32(magnitude),
        (IntervalField::Year, IntervalField::Month) => match split_once(magnitude, '-') {
            Some((years, months)) => match (parse_u32(years), parse_u32(months)) {
                (Some(y), Some(m)) => {
                    if m >= 12 {
                        return None;
                    }
                    match y.checked_mul(12) {
                        Some(total) => total.checked_add(m),
                        None => None,
                    }
                },
                _ => None,
            },
            None => None,
        },
        _ => None,
    }
}

/// How many months a year-month interval literal stands for, if it is one.
pub fn parse_year_month_interval(raw: &str) -> (r: Option<i32>)
    ensures
        match year_month_interval(raw@) {
            Some(n) => r matches Some(m) && m == n,
            None => r is None,
        },
{
    let chars: Vec<char> = to_chars(raw);
    match extract_interval_literal(chars.as_slice()) {
        Some((body, range)) => match interval_magnitude(body) {
            Some((negative, magnitude)) => match parse_months(range, magnitude) {
                Some(months) => signed_i32(months, negative),
                None => None,
            },
            None => None,
        },
        None => None,
    }
}

// ---------------------------------------------------------------------------------------------
// Day-time intervals
// ---------------------------------------------------------------------------------------------

/// A 64-bit unsigned number.
pub open spec fn number(s: Seq<char>) -> Option<int> {
    within(unsigned_value(s), 0, u64::MAX as int)
}

/// How many microseconds the digits after a point stand for; those after the sixth are dropped.
pub open spec fn fraction_micros(digits: Seq<char>) -> int {
    if digits.len() >= 6 {
        digits_value(digits.take(6))
    } else if digits.len() == 5 {
        digits_value(digits) * 10
    } else if digits.len() == 4 {
        digits_value(digits) * 100
    } else if digits.len() == 3 {
        digits_value(digits) * 1000
    } else if digits.len() == 2 {
        digits_value(digits) * 10000
    } else {
        digits_value(digits) * 100000
    }
}

/// Seconds and microseconds: a number, with or without digits after a point.
pub open spec fn seconds_of(raw: Seq<char>) -> Option<(int, int)> {
    match split_at_first(raw, '.') {
        Some((seconds, fraction)) => if fraction.len() == 0 || !all_digits(fraction) {
            None
        } else {
            match number(seconds) {
                Some(s) => Some((s, fraction_micros(fraction))),
                None => None,
            }
        },
        None => match number(raw) {
            Some(s) => Some((s, 0)),
            None => None,
        },
    }
}

/// The time of a day, or of an open number of hours: hours, minutes, seconds and microseconds, with
/// colons between them.
pub open spec fn clock_of(raw: Seq<char>, has_seconds: bool) -> Option<(int, int, int, int)> {
    match split_at_first(raw, ':') {
        None => None,
        Some((hours, rest)) => if has_seconds {
            match split_at_first(rest, ':') {
                None => None,
                Some((minutes, seconds)) => if index_from(seconds, ':', 0) is Some {
                    None
                } else {
                    match (number(hours), number(minutes), seconds_of(seconds)) {
                        (Some(h), Some(m), Some((s, micros))) => if m < 60 && s < 60 {
                            Some((h, m, s, micros))
                        } else {
                            None
                        },
                        _ => None,
                    }
                },
            }
        } else if index_from(rest, ':', 0) is Some {
            None
        } else {
            match (number(hours), number(rest)) {
                (Some(h), Some(m)) => if m < 60 {
                    Some((h, m, 0, 0))
                } else {
                    None
                },
                _ => None,
            }
        },
    }
}

/// How many microseconds a time is.
pub open spec fn micros_of(days: int, hours: int, minutes: int, seconds: int, micros: int) -> int {
    (((days * 24 + hours) * 60 + minutes) * 60 + seconds) * 1_000_000 + micros
}

/// Days, hours, minutes, seconds and microseconds of a magnitude. A unit below the largest one stays
/// below one of the next larger unit.
pub open spec fn day_time_parts(range: IntervalFieldRange, magnitude: Seq<char>) -> Option<
    (int, int, int, int, int),
> {
    match (range.start, range.end) {
        (IntervalField::Day, IntervalField::Day) => match number(magnitude) {
            Some(days) => Some((days, 0, 0, 0, 0)),
            None => None,
        },
        (IntervalField::Hour, IntervalField::Hour) => match number(magnitude) {
            Some(hours) => Some((0, hours, 0, 0, 0)),
            None => None,
        },
        (IntervalField::Minute, IntervalField::Minute) => match number(magnitude) {
            Some(minutes) => Some((0, 0, minutes, 0, 0)),
            None => None,
        },
        (IntervalField::Second, IntervalField::Second) => match seconds_of(magnitude) {
            Some((seconds, micros)) => Some((0, 0, 0, seconds, micros)),
            None => None,
        },
        (IntervalField::Day, IntervalField::Hour) => match split_at_first(magnitude, ' ') {
            Some((days, hours)) => match (number(days), number(hours)) {
                (Some(d), Some(h)) => if h < 24 {
                    Some((d, h, 0, 0, 0))
                } else {
                    None
                },
                _ => None,
            },
            None => None,
        },
        (IntervalField::Day, IntervalField::Minute) => day_clock_parts(magnitude, false),
        (IntervalField::Day, IntervalField::Second) => day_clock_parts(magnitude, true),
        (IntervalField::Hour, IntervalField::Minute) => match clock_of(magnitude, false) {
            Some((h, m, s, micros)) => Some((0, h, m, s, micros)),
            None => None,
        },
        (IntervalField::Hour, IntervalField::Second) => match clock_of(magnitude, true) {
            Some((h, m, s, micros)) => Some((0, h, m, s, micros)),
            None => None,
        },
        (IntervalField::Minute, IntervalField::Second) => match split_at_first(magnitude, ':') {
            Some((minutes, rest)) => match (number(minutes), seconds_of(rest)) {
                (Some(m), Some((s, micros))) => if s < 60 {
                    Some((0, 0, m, s, micros))
                } else {
                    None
                },
                _ => None,
            },
            None => None,
        },
        _ => None,
    }
}

/// Days and the time of a day.
pub open spec fn day_clock_parts(magnitude: Seq<char>, has_seconds: bool) -> Option<
    (int, int, int, int, int),
> {
    match split_at_first(magnitude, ' ') {
        Some((days, time)) => match (number(days), clock_of(time, has_seconds)) {
            (Some(d), Some((h, m, s, micros))) => if h < 24 {
                Some((d, h, m, s, micros))
            } else {
                None
            },
            _ => None,
        },
        None => None,
    }
}

/// How many microseconds a day-time interval literal stands for.
pub open spec fn day_time_interval(raw: Seq<char>) -> Option<int> {
    match interval_parts(raw) {
        Some((body, range)) => match signed_parts(body) {
            Some((negative, magnitude)) => match day_time_parts(range, magnitude) {
                Some((days, hours, minutes, seconds, micros)) => match within(
                    Some(micros_of(days, hours, minutes, seconds, micros)),
                    0,
                    u64::MAX as int,
                ) {
                    Some(total) => within(
                        Some(signed(total, negative)),
                        i64::MIN as int,
                        i64::MAX as int,
                    ),
                    None => None,
                },
                None => None,
            },
            None => None,
        },
        None => None,
    }
}

/// Digits after a point as microseconds.
fn parse_fraction(digits: &[char]) -> (r: u64)
    requires
        all_digits(digits@),
        digits@.len() > 0,
    ensures
        r == fraction_micros(digits@),
        r < 1_000_000,
{
    let count: usize = if digits.len() > 6 {
        6
    } else {
        digits.len()
    };
    let mut value: u64 = 0;
    let mut limit: u64 = 1;
    let mut i: usize = 0;
    while i < count
        invariant
            i <= count <= 6,
            count <= digits@.len(),
            all_digits(digits@),
            value == digits_value(digits@.take(i as int)),
            value < limit,
            limit == match i {
                0usize => 1u64,
                1 => 10,
                2 => 100,
                3 => 1000,
                4 => 10000,
                5 => 100000,
                _ => 1000000,
            },
        decreases count - i,
    {
        assert(is_digit(digits@[i as int]));
        assert(digits@.take(i + 1).drop_last() =~= digits@.take(i as int));
        let digit: u64 = (crate::text::code(digits[i]) - 48) as u64;
        value = value * 10 + digit;
        limit = limit * 10;
        i += 1;
    }
    assert(digits@.len() <= 6 ==> digits@.take(count as int) =~= digits@);
    if count == 6 {
        value
    } else if count == 5 {
        value * 10
    } else if count == 4 {
        value * 100
    } else if count == 3 {
        value * 1000
    } else if count == 2 {
        value * 10000
    } else {
        value * 100000
    }
}

fn digits_only(s: &[char]) -> (r: bool)
    ensures
        r == all_digits(s@),
{
    let mut i: usize = 0;
    while i < s.len()
        invariant
            i <= s.len(),
            forall|j: int| 0 <= j < i ==> is_digit(#[trigger] s@[j]),
        decreases s.len() - i,
    {
        if !is_ascii_digit(s[i]) {
            assert(!is_digit(s@[i as int]));
            return false;
        }
        i += 1;
    }
    true
}

fn parse_seconds(raw: &[char]) -> (r: Option<(u64, u64)>)
    ensures
        match seconds_of(raw@) {
            Some((seconds, micros)) => r matches Some((s, m)) && s == seconds && m == micros,
            None => r is None,
        },
{
    match split_once(raw, '.') {
        Some((seconds, fraction)) => {
            if fraction.len() == 0 || !digits_only(fraction) {
                return None;
            }
            match parse_u64(seconds) {
                Some(s) => Some((s, parse_fraction(fraction))),
                None => None,
            }
        },
        None => match parse_u64(raw) {
            Some(s) => Some((s, 0)),
            None => None,
        },
    }
}

fn parse_clock(raw: &[char], has_seconds: bool) -> (r: Option<(u64, u64, u64, u64)>)
    ensures
        match clock_of(raw@, has_seconds) {
            Some((hours, minutes, seconds, micros)) => r matches Some((h, m, s, u)) && h == hours
                && m == minutes && s == seconds && u == micros,
            None => r is None,
        },
{
    let (hours, rest): (&[char], &[char]) = match split_once(raw, ':') {
        Some(parts) => parts,
        None => {
            return None;
        },
    };
    if has_seconds {
        let (minutes, seconds): (&[char], &[char]) = match split_once(rest, ':') {
            Some(parts) => parts,
            None => {
                return None;
            },
        };
        if find(seconds, ':').is_some() {
            return None;
        }
        match (parse_u64(hours), parse_u64(minutes), parse_seconds(seconds)) {
            (Some(h), Some(m), Some((s, micros))) => if m < 60 && s < 60 {
                Some((h, m, s, micros))
            } else {
                None
            },
            _ => None,
        }
    } else {
        if find(rest, ':').is_some() {
            return None;
        }
        match (parse_u64(hours), parse_u64(rest)) {
            (Some(h), Some(m)) => if m < 60 {
                Some((h, m, 0, 0))
            } else {
                None
            },
            _ => None,
        }
    }
}

fn parse_day_clock(magnitude: &[char], has_seconds: bool) -> (r: Option<
    (u64, u64, u64, u64, u64),
>)
    ensures
        match day_clock_parts(magnitude@, has_seconds) {
            Some((a, b, c, d, e)) => r matches Some((days, hours, minutes, seconds, micros))
                && days == a && hours == b && minutes == c && seconds == d && micros == e,
            None => r is None,
        },
{
    match split_once(magnitude, ' ') {
        Some((days, time)) => match (parse_u64(days), parse_clock(time, has_seconds)) {
            (Some(d), Some((h, m, s, micros))) => if h < 24 {
                Some((d, h, m, s, micros))
            } else {
                None
            },
            _ => None,
        },
        None => None,
    }
}

fn parse_day_time_parts(range: IntervalFieldRange, magnitude: &[char]) -> (r: Option<
    (u64, u64, u64, u64, u64),
>)
    ensures
        match day_time_parts(range, magnitude@) {
            Some((a, b, c, d, e)) => r matches Some((days, hours, minutes, seconds, micros))
                && days == a && hours == b && minutes == c && seconds == d && micros == e,
            None => r is None,
        },
{
    match (range.start, range.end) {
        (IntervalField::Day, IntervalField::Day) => match parse_u64(magnitude) {
            Some(days) => Some((days, 0, 0, 0, 0)),
            None => None,
        },
        (IntervalField::Hour, IntervalField::Hour) => match parse_u64(magnitude) {
            Some(hours) => Some((0, hours, 0, 0, 0)),
            None => None,
        },
        (IntervalField::Minute, IntervalField::Minute) => match parse_u64(magnitude) {
            Some(minutes) => Some((0, 0, minutes, 0, 0)),
            None => None,
        },
        (IntervalField::Second, IntervalField::Second) => match parse_seconds(magnitude) {
            Some((seconds, micros)) => Some((0, 0, 0, seconds, micros)),
            None => None,
        },
        (IntervalField::Day, IntervalField::Hour) => match split_once(magnitude, ' ') {
            Some((days, hours)) => match (parse_u64(days), parse_u64(hours)) {
                (Some(d), Some(h)) => if h < 24 {
                    Some((d, h, 0, 0, 0))
                } else {
                    None
                },
                _ => None,
            },
            None => None,
        },
        (IntervalField::Day, IntervalField::Minute) => parse_day_clock(magnitude, false),
        (IntervalField::Day, IntervalField::Second) => parse_day_clock(magnitude, true),
        (IntervalField::Hour, IntervalField::Minute) => match parse_clock(magnitude, false) {
            Some((h, m, s, micros)) => Some((0, h, m, s, micros)),
            None => None,
        },
        (IntervalField::Hour, IntervalField::Second) => match parse_clock(magnitude, true) {
            Some((h, m, s, micros)) => Some((0, h, m, s, micros)),
            None => None,
        },
        (IntervalField::Minute, IntervalField::Second) => match split_once(magnitude, ':') {
            Some((minutes, rest)) => match (parse_u64(minutes), parse_seconds(rest)) {
                (Some(m), Some((s, micros))) => if s < 60 {
                    Some((0, 0, m, s, micros))
                } else {
                    None
                },
                _ => None,
            },
            None => None,
        },
        _ => None,
    }
}

fn checked_day_time_micros(days: u64, hours: u64, minutes: u64, seconds: u64, micros: u64) -> (r:
    Option<u64>)
    ensures
        match within(
            Some(
                micros_of(
                    days as int,
                    hours as int,
                    minutes as int,
                    seconds as int,
                    micros as int,
                ),
            ),
            0,
            u64::MAX as int,
        ) {
            Some(n) => r matches Some(m) && m == n,
            None => r is None,
        },
{
    let total: u64 = match days.checked_mul(24) {
        Some(n) => n,
        None => {
            return None;
        },
    };
    let total: u64 = match total.checked_add(hours) {
        Some(n) => n,
        None => {
            return None;
        },
    };
    let total: u64 = match total.checked_mul(60) {
        Some(n) => n,
        None => {
            return None;
        },
    };
    let total: u64 = match total.checked_add(minutes) {
        Some(n) => n,
        None => {
            return None;
        },
    };
    let total: u64 = match total.checked_mul(60) {
        Some(n) => n,
        None => {
            return None;
        },
    };
    let total: u64 = match total.checked_add(seconds) {
        Some(n) => n,
        None => {
            return None;
        },
    };
    let total: u64 = match total.checked_mul(1_000_000) {
        Some(n) => n,
        None => {
            return None;
        },
    };
    total.checked_add(micros)
}

/// How many microseconds a day-time interval literal stands for, if it is one.
pub fn parse_day_time_interval(raw: &str) -> (r: Option<i64>)
    ensures
        match day_time_interval(raw@) {
            Some(n) => r matches Some(m) && m == n,
            None => r is None,
        },
{
    let chars: Vec<char> = to_chars(raw);
    match extract_interval_literal(chars.as_slice()) {
        Some((body, range)) => match interval_magnitude(body) {
            Some((negative, magnitude)) => match parse_day_time_parts(range, magnitude) {
                Some((days, hours, minutes, seconds, micros)) => match checked_day_time_micros(
                    days,
                    hours,
                    minutes,
                    seconds,
                    micros,
                ) {
                    Some(total) => signed_i64(total, negative),
                    None => None,
                },
                None => None,
            },
            None => None,
        },
        None => None,
    }
}

} // verus!
