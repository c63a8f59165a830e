//! What texts stand for as scalars of a type, and which values make up a list, a map or a struct.

use vstd::prelude::*;

use super::calendar::{date_days, date_time_micros, naive_date_time_micros};
use super::scalar_data::{
    element_problem, elements_problem, pair_problem, pairs_problem, struct_problem, value_problem,
    values_problem,
};
use super::scalar_laws::{lemma_digits, lemma_index_absent, lemma_index_at, lemma_joined_value};
use super::scalar_parse::{
    decimal_bits, exponent_index, resolved_micros, scalar_outcome, scalar_value, FloatReading,
};
use super::scalars::{abs, digit_count, pow10, Scalar, ScalarView};
use super::sql::lexeme_laws::{law_small_letters_are_the_same_but_for_case, same_but_case};
use crate::error::Error;
use crate::number::{all_digits, digits_value, is_digit, natural, signed_value};
use crate::schema::{DecimalType, FieldView, PrimitiveType, TypeView};
use crate::text::{decimal, digits};

verus! {

// ---------------------------------------------------------------------------------------------
// Texts
// ---------------------------------------------------------------------------------------------

/// A scalar that a text stands for has the type that it was read as.
pub proof fn law_parsed_value_has_the_type(
    ty: PrimitiveType,
    raw: Seq<char>,
    floats: FloatReading,
    scalar: Scalar,
)
    requires
        scalar_outcome(ty, raw, floats, Ok(scalar)),
    ensures
        scalar@.data_type() == TypeView::Primitive(ty),
{
}

/// An empty text stands for null, whatever the type, and no other text does.
pub proof fn law_only_the_empty_text_is_null(
    ty: PrimitiveType,
    raw: Seq<char>,
    floats: FloatReading,
    r: Result<Scalar, Error>,
)
    requires
        scalar_outcome(ty, raw, floats, r),
    ensures
        raw.len() == 0 ==> (r matches Ok(scalar) && scalar@ is Null),
        raw.len() > 0 ==> !(r matches Ok(scalar) && scalar@ is Null),
{
}

/// A text that stands for no scalar of a type is refused with an error that names the text and the
/// type.
pub proof fn law_refusal_names_the_text_and_the_type(
    ty: PrimitiveType,
    raw: Seq<char>,
    floats: FloatReading,
    error: Error,
)
    requires
        scalar_outcome(ty, raw, floats, Err(error)),
    ensures
        error matches Error::ParseError(text, found) && text@ == raw && found@
            == TypeView::Primitive(ty),
{
}

/// A text stands for itself as text, and for its bytes in UTF-8 as binary.
pub proof fn law_text_stands_for_itself(raw: Seq<char>, floats: FloatReading)
    ensures
        scalar_value(PrimitiveType::String, raw, floats) == Some(ScalarView::String(raw)),
        scalar_value(PrimitiveType::Binary, raw, floats) == Some(
            ScalarView::Binary(vstd::utf8::encode_utf8(raw)),
        ),
{
}

/// The words true and false stand for themselves in any case, and nothing else is a boolean.
pub proof fn law_booleans_are_true_and_false(raw: Seq<char>, floats: FloatReading)
    ensures
        same_but_case(raw, "true"@) ==> scalar_value(PrimitiveType::Boolean, raw, floats) == Some(
            ScalarView::Boolean(true),
        ),
        same_but_case(raw, "false"@) ==> scalar_value(PrimitiveType::Boolean, raw, floats) == Some(
            ScalarView::Boolean(false),
        ),
        !same_but_case(raw, "true"@) && !same_but_case(raw, "false"@) ==> scalar_value(
            PrimitiveType::Boolean,
            raw,
            floats,
        ) is None,
{
    reveal_strlit("true");
    reveal_strlit("false");
    law_small_letters_are_the_same_but_for_case(raw, "true"@);
    law_small_letters_are_the_same_but_for_case(raw, "false"@);
    assert("true"@.len() != "false"@.len());
}

/// A sign before digits counts, a plus sign and zeros before them do not change the number.
pub proof fn law_signs_and_zeros_before_digits(n: nat, zeros: Seq<char>)
    requires
        forall|i: int| 0 <= i < zeros.len() ==> #[trigger] zeros[i] == '0',
    ensures
        signed_value(zeros + digits(n)) == Some(n as int),
        signed_value(seq!['+'] + zeros + digits(n)) == Some(n as int),
        signed_value(seq!['-'] + zeros + digits(n)) == Some(-(n as int)),
{
    lemma_digits(n);
    let text = zeros + digits(n);
    lemma_zeros_are_nothing(zeros);
    lemma_joined_value(zeros, digits(n));
    assert(0 * pow10(digits(n).len()) == 0);
    assert(digits_value(text) == n);
    assert forall|i: int| 0 <= i < text.len() implies is_digit(#[trigger] text[i]) by {
        if i < zeros.len() {
            assert(text[i] == zeros[i]);
        } else {
            assert(text[i] == digits(n)[i - zeros.len()]);
        }
    }
    assert(all_digits(text));
    assert(is_digit(text[0]));
    let plus = seq!['+'] + zeros + digits(n);
    let minus = seq!['-'] + zeros + digits(n);
    assert(plus.skip(1) =~= text);
    assert(minus.skip(1) =~= text);
}

proof fn lemma_zeros_are_nothing(zeros: Seq<char>)
    requires
        forall|i: int| 0 <= i < zeros.len() ==> #[trigger] zeros[i] == '0',
    ensures
        digits_value(zeros) == 0,
    decreases zeros.len(),
{
    if zeros.len() > 0 {
        let fewer = zeros.drop_last();
        assert forall|i: int| 0 <= i < fewer.len() implies #[trigger] fewer[i] == '0' by {
            assert(fewer[i] == zeros[i]);
        }
        lemma_zeros_are_nothing(fewer);
        assert(zeros.last() == zeros[zeros.len() - 1]);
    }
}

/// A text with a character that is no digit, behind a sign at most, stands for no whole number.
pub proof fn law_whole_numbers_have_only_digits(raw: Seq<char>, i: int, floats: FloatReading)
    requires
        0 <= i < raw.len(),
        !('0' <= raw[i] <= '9'),
        i > 0 || (raw[0] != '+' && raw[0] != '-'),
    ensures
        scalar_value(PrimitiveType::Byte, raw, floats) is None,
        scalar_value(PrimitiveType::Short, raw, floats) is None,
        scalar_value(PrimitiveType::Integer, raw, floats) is None,
        scalar_value(PrimitiveType::Long, raw, floats) is None,
{
    if i > 0 {
        assert(raw.skip(1)[i - 1] == raw[i]);
    }
    assert(!is_digit(raw[i]));
    assert(signed_value(raw) is None) by {
        if natural(raw) is Some {
            assert(is_digit(raw[i]));
        }
        if raw[0] == '+' || raw[0] == '-' {
            if natural(raw.skip(1)) is Some {
                assert(is_digit(raw.skip(1)[i - 1]));
            }
        }
    }
}

/// A whole number that does not fit a type is refused there.
pub proof fn law_numbers_that_do_not_fit_are_refused(n: int, floats: FloatReading)
    ensures
        !(-0x80 <= n <= 0x7f) ==> scalar_value(PrimitiveType::Byte, decimal(n), floats) is None,
        !(-0x8000 <= n <= 0x7fff) ==> scalar_value(PrimitiveType::Short, decimal(n), floats) is None,
        !(-0x8000_0000 <= n <= 0x7fff_ffff) ==> scalar_value(
            PrimitiveType::Integer,
            decimal(n),
            floats,
        ) is None,
        !(-0x8000_0000_0000_0000 <= n <= 0x7fff_ffff_ffff_ffff) ==> scalar_value(
            PrimitiveType::Long,
            decimal(n),
            floats,
        ) is None,
{
    super::scalar_laws::law_written_integer_is_read_back(n);
}

/// A date is read as year, month and day, and stands for that day.
pub proof fn law_dates_are_read_as_year_month_day(raw: Seq<char>, floats: FloatReading, days: i32)
    ensures
        date_days(raw, "%Y-%m-%d"@) == Some(days) ==> scalar_value(
            PrimitiveType::Date,
            raw,
            floats,
        ) == Some(ScalarView::Date(days)),
        date_days(raw, "%Y-%m-%d"@) is None ==> scalar_value(PrimitiveType::Date, raw, floats)
            is None,
{
}

/// A timestamp without a zone is read as it is, whether it is adjusted to UTC or not. One with an
/// offset is read only where it is adjusted to UTC.
pub proof fn law_timestamps_with_and_without_a_zone(
    raw: Seq<char>,
    floats: FloatReading,
    micros: i64,
)
    ensures
        naive_date_time_micros(raw, "%Y-%m-%d %H:%M:%S%.f"@) == Some(Some(micros))
            ==> scalar_value(PrimitiveType::Timestamp, raw, floats) == Some(
            ScalarView::Timestamp(micros),
        ) && scalar_value(PrimitiveType::TimestampNtz, raw, floats) == Some(
            ScalarView::TimestampNtz(micros),
        ),
        naive_date_time_micros(raw, "%Y-%m-%d %H:%M:%S%.f"@) is None && date_time_micros(
            raw,
            "%+"@,
        ) == Some(Some(micros)) ==> scalar_value(PrimitiveType::Timestamp, raw, floats) == Some(
            ScalarView::Timestamp(micros),
        ) && scalar_value(PrimitiveType::TimestampNtz, raw, floats) is None,
        naive_date_time_micros(raw, "%Y-%m-%d %H:%M:%S%.f"@) is None && date_time_micros(
            raw,
            "%+"@,
        ) is None ==> scalar_value(PrimitiveType::Timestamp, raw, floats) is None && scalar_value(
            PrimitiveType::TimestampNtz,
            raw,
            floats,
        ) is None,
{
}

/// The reading without a zone comes first: where there is one, the reading with an offset makes no
/// difference, and where neither fits 64 bits there is no time.
pub proof fn law_reading_without_a_zone_comes_first(
    naive: Option<i64>,
    with_offset: Option<Option<i64>>,
    adjusted: bool,
)
    ensures
        resolved_micros(Some(naive), with_offset, adjusted) == naive,
        resolved_micros(None, with_offset, false) is None,
        resolved_micros(None, Some(naive), true) == naive,
        resolved_micros(None, None, adjusted) is None,
{
}

/// A number is written in decimal notation: its last digit is what is left of a division by ten, after
/// the digits of the quotient; a negative one has a minus sign before the digits of its magnitude.
pub proof fn law_decimal_notation(n: nat)
    ensures
        n < 10 ==> digits(n).len() == 1 && digits(n)[0] as int == '0' as int + n,
        n >= 10 ==> digits(n).len() == digits(n / 10).len() + 1 && digits(n).drop_last() == digits(
            n / 10,
        ) && digits(n)[digits(n).len() - 1] as int == '0' as int + n % 10,
        decimal(n as int) == digits(n),
        n > 0 ==> decimal(-(n as int)) == seq!['-'] + digits(n),
{
    if n < 10 {
        assert(digits(n) =~= seq![crate::text::digit_char(n as int)]);
    } else {
        assert(digits(n).drop_last() =~= digits(n / 10));
    }
}

/// A further digit counts once, and those before it ten times.
pub proof fn law_digits_count_tenfold(s: Seq<char>, c: char)
    ensures
        digits_value(Seq::empty()) == 0,
        digits_value(s.push(c)) == digits_value(s) * 10 + (c as int - '0' as int),
{
    assert(s.push(c).drop_last() =~= s);
}

/// Powers of ten grow tenfold, and a number has as many digits as the least power above it says.
pub proof fn law_powers_of_ten(n: nat, d: nat)
    ensures
        pow10(0) == 1,
        pow10(d + 1) == 10 * pow10(d),
        digit_count(n) <= d <==> n < pow10(d),
{
    super::scalars::lemma_digit_count_bound(n, d);
}

// ---------------------------------------------------------------------------------------------
// Decimals
// ---------------------------------------------------------------------------------------------

/// Digits around a point stand for the decimal with all those digits, where there are as many after
/// the point as the scale says and no more in all than the precision allows; else for none.
pub proof fn law_decimal_digits_must_match_the_type(
    whole: Seq<char>,
    fraction: Seq<char>,
    ty: DecimalType,
)
    requires
        whole.len() > 0,
        all_digits(whole),
        all_digits(fraction),
        digits_value(whole + fraction) <= i128::MAX,
    ensures
        decimal_bits(whole + seq!['.'] + fraction, ty) == if fraction.len() == ty.scale_spec()
            && digit_count(abs(digits_value(whole + fraction))) <= ty.precision_spec() {
            Some(digits_value(whole + fraction))
        } else {
            None
        },
{
    let raw = whole + seq!['.'] + fraction;
    let n = whole.len() as int;
    assert forall|i: int| 0 <= i < raw.len() implies #[trigger] raw[i] != 'e' && raw[i]
        != 'E' by {
        if i < n {
            assert(is_digit(whole[i]));
            assert(raw[i] == whole[i]);
        } else if i > n {
            assert(is_digit(fraction[i - n - 1]));
            assert(raw[i] == fraction[i - n - 1]);
        }
    }
    lemma_index_absent(raw, 'e', 0);
    lemma_index_absent(raw, 'E', 0);
    assert(exponent_index(raw) is None);
    assert forall|i: int| 0 <= i < n implies raw[i] != '.' by {
        assert(is_digit(whole[i]));
        assert(raw[i] == whole[i]);
    }
    assert(raw[n] == '.');
    lemma_index_at(raw, '.', 0, n);
    let both = whole + fraction;
    assert(raw.take(n) =~= whole);
    assert(raw.skip(n + 1) =~= fraction);
    assert forall|i: int| 0 <= i < both.len() implies is_digit(#[trigger] both[i]) by {
        if i < n {
            assert(both[i] == whole[i]);
        } else {
            assert(both[i] == fraction[i - n]);
        }
    }
    assert(is_digit(both[0]));
    assert(natural(both) == Some(digits_value(both)));
    lemma_digits_are_natural(both);
}

proof fn lemma_digits_are_natural(s: Seq<char>)
    requires
        all_digits(s),
    ensures
        digits_value(s) >= 0,
    decreases s.len(),
{
    if s.len() > 0 {
        let fewer = s.drop_last();
        assert forall|i: int| 0 <= i < fewer.len() implies is_digit(#[trigger] fewer[i]) by {
            assert(fewer[i] == s[i]);
        }
        lemma_digits_are_natural(fewer);
        assert(is_digit(s[s.len() - 1]));
    }
}

/// An exponent moves the point: it counts against the digits after it, and the digits stay.
pub proof fn law_exponent_moves_the_point(
    whole: Seq<char>,
    fraction: Seq<char>,
    letter: char,
    exponent: int,
    ty: DecimalType,
)
    requires
        whole.len() > 0,
        all_digits(whole),
        all_digits(fraction),
        letter == 'e' || letter == 'E',
        i128::MIN <= exponent <= i128::MAX,
        digits_value(whole + fraction) <= i128::MAX,
    ensures
        decimal_bits(whole + seq!['.'] + fraction + seq![letter] + decimal(exponent), ty)
            == if fraction.len() - exponent == ty.scale_spec() && digit_count(
            abs(digits_value(whole + fraction)),
        ) <= ty.precision_spec() {
            Some(digits_value(whole + fraction))
        } else {
            None
        },
{
    let base = whole + seq!['.'] + fraction;
    let raw = base + seq![letter] + decimal(exponent);
    let n = whole.len() as int;
    let at = base.len() as int;
    let other = if letter == 'e' {
        'E'
    } else {
        'e'
    };
    assert forall|i: int| 0 <= i < at implies raw[i] != 'e' && raw[i] != 'E' && raw[i]
        == base[i] by {
        if i < n {
            assert(is_digit(whole[i]));
            assert(raw[i] == whole[i]);
        } else if i > n {
            assert(is_digit(fraction[i - n - 1]));
            assert(raw[i] == fraction[i - n - 1]);
        }
    }
    assert(raw[at] == letter);
    lemma_index_at(raw, letter, 0, at);
    lemma_decimal_has_no_letters(exponent);
    assert forall|i: int| 0 <= i < raw.len() implies raw[i] != other by {
        if i > at {
            assert(raw[i] == decimal(exponent)[i - at - 1]);
        }
    }
    lemma_index_absent(raw, other, 0);
    assert(exponent_index(raw) == Some(at));
    assert(raw.take(at) =~= base);
    assert(raw.skip(at + 1) =~= decimal(exponent));
    super::scalar_laws::law_written_integer_is_read_back(exponent);
    assert forall|i: int| 0 <= i < n implies base[i] != '.' by {
        assert(is_digit(whole[i]));
        assert(base[i] == whole[i]);
    }
    assert(base[n] == '.');
    lemma_index_at(base, '.', 0, n);
    let both = whole + fraction;
    assert(base.take(n) =~= whole);
    assert(base.skip(n + 1) =~= fraction);
    assert forall|i: int| 0 <= i < both.len() implies is_digit(#[trigger] both[i]) by {
        if i < n {
            assert(both[i] == whole[i]);
        } else {
            assert(both[i] == fraction[i - n]);
        }
    }
    assert(is_digit(both[0]));
    assert(natural(both) == Some(digits_value(both)));
    lemma_digits_are_natural(both);
}

proof fn lemma_decimal_has_no_letters(n: int)
    ensures
        forall|i: int|
            0 <= i < decimal(n).len() ==> #[trigger] decimal(n)[i] != 'e' && decimal(n)[i] != 'E',
{
    let text = digits(abs(n));
    lemma_digits(abs(n));
    assert forall|i: int| 0 <= i < decimal(n).len() implies #[trigger] decimal(n)[i] != 'e'
        && decimal(n)[i] != 'E' by {
        if n < 0 {
            if i > 0 {
                assert(decimal(n)[i] == text[i - 1]);
                assert(is_digit(text[i - 1]));
            }
        } else {
            assert(decimal(n)[i] == text[i]);
            assert(is_digit(text[i]));
        }
    }
}

// ---------------------------------------------------------------------------------------------
// Lists, maps and structs
// ---------------------------------------------------------------------------------------------

/// Values make up a list exactly where each has the type of the elements, and none is null unless
/// nulls are allowed.
pub proof fn law_list_elements_fit(
    element_type: TypeView,
    contains_null: bool,
    elements: Seq<ScalarView>,
    n: nat,
)
    requires
        n <= elements.len(),
    ensures
        elements_problem(element_type, contains_null, elements, n) is None <==> forall|i: int|
            0 <= i < n ==> (#[trigger] elements[i]).data_type() == element_type && (contains_null
                || !(elements[i] is Null)),
    decreases n,
{
    if n > 0 {
        law_list_elements_fit(element_type, contains_null, elements, (n - 1) as nat);
        assert(elements[n - 1].data_type() == element_type && (contains_null || !(elements[n - 1]
            is Null)) <==> element_problem(element_type, contains_null, elements[n - 1]) is None);
    }
}

/// Pairs make up a map exactly where each key has the type of the keys and is not null, and each
/// value has the type of the values and is not null unless nulls are allowed.
pub proof fn law_map_pairs_fit(
    key_type: TypeView,
    value_type: TypeView,
    contains_null: bool,
    pairs: Seq<(ScalarView, ScalarView)>,
    n: nat,
)
    requires
        n <= pairs.len(),
    ensures
        pairs_problem(key_type, value_type, contains_null, pairs, n) is None <==> forall|i: int|
            0 <= i < n ==> (#[trigger] pairs[i]).0.data_type() == key_type && !(pairs[i].0 is Null)
                && pairs[i].1.data_type() == value_type && (contains_null || !(pairs[i].1 is Null)),
    decreases n,
{
    if n > 0 {
        law_map_pairs_fit(key_type, value_type, contains_null, pairs, (n - 1) as nat);
        let pair = pairs[n - 1];
        assert(pair.0.data_type() == key_type && !(pair.0 is Null) && pair.1.data_type()
            == value_type && (contains_null || !(pair.1 is Null)) <==> pair_problem(
            key_type,
            value_type,
            contains_null,
            pair,
        ) is None);
    }
}

proof fn lemma_values_fit(fields: Seq<FieldView>, values: Seq<ScalarView>, n: nat)
    requires
        n <= values.len() == fields.len(),
    ensures
        values_problem(fields, values, n) is None <==> forall|i: int|
            0 <= i < n ==> (#[trigger] values[i]).data_type() == fields[i].ty && (fields[i].nullable
                || !(values[i] is Null)),
    decreases n,
{
    if n > 0 {
        lemma_values_fit(fields, values, (n - 1) as nat);
        assert(values[n - 1].data_type() == fields[n - 1].ty && (fields[n - 1].nullable || !(
        values[n - 1] is Null)) <==> value_problem(fields[n - 1], values[n - 1]) is None);
    }
}

/// Values make up a struct exactly where there is one for each field, of the type of that field, and
/// not null unless the field may be null.
pub proof fn law_struct_values_fit(fields: Seq<FieldView>, values: Seq<ScalarView>)
    ensures
        struct_problem(fields, values) is None <==> fields.len() == values.len() && forall|i: int|
            0 <= i < values.len() ==> (#[trigger] values[i]).data_type() == fields[i].ty && (
            fields[i].nullable || !(values[i] is Null)),
{
    if fields.len() == values.len() {
        lemma_values_fit(fields, values, values.len());
    }
}

} // verus!
