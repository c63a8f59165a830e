//! What holds of all scalars.

use vstd::prelude::*;

use super::order::{byte_values, codes, lemma_lexical_reversed, lemma_lexical_transitive, Order};
use super::scalar_conversion::{as_scalars, list_name, IntoScalar, ScalarConvert};
use super::scalar_parse::{
    decimal_bits, exponent_index, mantissa, scalar_value, without_point, FloatReading,
};
use super::scalar_text::{decimal_text, truncated_remainder, zero_padded};
use super::scalars::{
    abs, digit_count, logical_order, pow10, truncated_quotient, DecimalData, ScalarView,
};
use crate::error::ConversionView;
use crate::number::{all_digits, digits_value, is_digit, natural, signed_value};
use crate::schema::PrimitiveType;
use crate::text::{decimal, digit_char, digits, index_from};

verus! {

// ---------------------------------------------------------------------------------------------
// Order
// ---------------------------------------------------------------------------------------------

/// The comparison of two values turns round when they change places; values that do not compare do
/// not compare either way.
pub proof fn law_order_turns_round(a: ScalarView, b: ScalarView)
    ensures
        logical_order(b, a) == match logical_order(a, b) {
            Some(order) => Some(order.reversed()),
            None => None,
        },
{
    match (a, b) {
        (ScalarView::String(x), ScalarView::String(y)) => {
            lemma_lexical_reversed(codes(x), codes(y));
        },
        (ScalarView::Binary(x), ScalarView::Binary(y)) => {
            lemma_lexical_reversed(byte_values(x), byte_values(y));
        },
        _ => {},
    }
}

/// Where one value is less than another and that less than a third, the first is less than the
/// third.
pub proof fn law_order_is_transitive(a: ScalarView, b: ScalarView, c: ScalarView)
    requires
        logical_order(a, b) == Some(Order::Less),
        logical_order(b, c) == Some(Order::Less),
    ensures
        logical_order(a, c) == Some(Order::Less),
{
    match (a, b, c) {
        (ScalarView::String(x), ScalarView::String(y), ScalarView::String(z)) => {
            lemma_lexical_transitive(codes(x), codes(y), codes(z));
        },
        (ScalarView::Binary(x), ScalarView::Binary(y), ScalarView::Binary(z)) => {
            lemma_lexical_transitive(byte_values(x), byte_values(y), byte_values(z));
        },
        _ => {},
    }
}

/// A value that compares with itself at all is equal to itself.
pub proof fn law_value_equals_itself(a: ScalarView)
    ensures
        logical_order(a, a) matches Some(order) ==> order is Equal,
{
    law_order_turns_round(a, a);
}

/// Null compares with nothing, not even with null.
pub proof fn law_null_compares_with_nothing(a: ScalarView, b: ScalarView)
    requires
        a is Null || b is Null,
    ensures
        logical_order(a, b) is None,
{
}

/// Values that compare have the same type.
pub proof fn law_values_that_compare_have_one_type(a: ScalarView, b: ScalarView)
    requires
        logical_order(a, b) is Some,
    ensures
        a.data_type() == b.data_type(),
{
}

// ---------------------------------------------------------------------------------------------
// Conversions
// ---------------------------------------------------------------------------------------------

/// A value that was made into a scalar is accepted back, and the scalar has the type of the values.
pub proof fn law_conversion_round_trips<T: ScalarConvert>(value: T)
    ensures
        T::accepts(value.as_scalar()),
        value.as_scalar().data_type() == T::field_type(),
{
    value.lemma_accepts_own();
}

/// A list that was made into a scalar comes back with the same elements in the same order, whatever
/// list is read from that scalar: each element is the scalar that it was.
///
/// Where two values of the element type that are the same scalar are the same value, it is the same
/// list.
pub proof fn law_list_comes_back<T: ScalarConvert>(values: Vec<T>, read: Vec<T>)
    requires
        read.as_scalar() == values.as_scalar(),
    ensures
        <Vec<T> as ScalarConvert>::accepts(values.as_scalar()),
        read@.len() == values@.len(),
        forall|i: int|
            0 <= i < values@.len() ==> (#[trigger] read@[i]).as_scalar() == values@[i].as_scalar(),
        (forall|a: T, b: T|
            #![trigger a.as_scalar(), b.as_scalar()]
            a.as_scalar() == b.as_scalar() ==> a == b) ==> read@ == values@,
{
    values.lemma_accepts_own();
    let scalars = as_scalars(values@);
    assert(as_scalars(read@) == scalars);
    assert(as_scalars(read@).len() == scalars.len());
    assert forall|i: int| 0 <= i < values@.len() implies (#[trigger] read@[i]).as_scalar()
        == values@[i].as_scalar() by {
        assert(as_scalars(read@)[i] == scalars[i]);
    }
    if forall|a: T, b: T|
        #![trigger a.as_scalar(), b.as_scalar()]
        a.as_scalar() == b.as_scalar() ==> a == b {
        assert forall|i: int| 0 <= i < values@.len() implies read@[i] == values@[i] by {
            assert(read@[i].as_scalar() == values@[i].as_scalar());
        }
        assert(read@ =~= values@);
    }
}

/// A list whose elements may be null is no list of elements that may not, even where none of them
/// is null: the types of the two lists differ, and the refusal names both.
pub proof fn law_list_with_nulls_is_refused<T: IntoScalar>(values: Vec<Option<T>>)
    ensures
        !<Vec<T> as ScalarConvert>::accepts(values.as_scalar()),
        <Vec<T> as ScalarConvert>::rejection(values.as_scalar()) == (ConversionView {
            expected: list_name(T::field_type(), false),
            actual: list_name(T::field_type(), true),
            path: Seq::empty(),
        }),
{
    arbitrary::<T>().lemma_not_null();
}

// ---------------------------------------------------------------------------------------------
// Numbers as text
// ---------------------------------------------------------------------------------------------

pub(crate) proof fn lemma_digits(n: nat)
    ensures
        digits(n).len() > 0,
        all_digits(digits(n)),
        digits_value(digits(n)) == n,
    decreases n,
{
    if n < 10 {
        let d = digit_char(n as int);
        assert(d as int == 48 + n);
        assert(digits(n) =~= seq![d]);
        assert(seq![d].drop_last() =~= Seq::<char>::empty());
        assert(digits_value(Seq::<char>::empty()) == 0);
    } else {
        lemma_digits(n / 10);
        let d = digit_char((n % 10) as int);
        assert(d as int == 48 + n % 10);
        assert(digits(n).drop_last() =~= digits(n / 10));
    }
}

/// A whole number that was written is read back.
pub proof fn law_written_integer_is_read_back(n: int)
    ensures
        signed_value(decimal(n)) == Some(n),
{
    if n < 0 {
        lemma_digits((-n) as nat);
        assert(decimal(n).skip(1) =~= digits((-n) as nat));
    } else {
        lemma_digits(n as nat);
        assert(is_digit(digits(n as nat)[0]));
    }
}

/// The text of a scalar that is a whole number stands for that scalar.
pub proof fn law_integer_scalar_is_read_back(n: i64, floats: FloatReading)
    ensures
        scalar_value(PrimitiveType::Long, decimal(n as int), floats) == Some(ScalarView::Long(n)),
        i32::MIN <= n <= i32::MAX ==> scalar_value(
            PrimitiveType::Integer,
            decimal(n as int),
            floats,
        ) == Some(ScalarView::Integer(n as i32)),
        i16::MIN <= n <= i16::MAX ==> scalar_value(
            PrimitiveType::Short,
            decimal(n as int),
            floats,
        ) == Some(ScalarView::Short(n as i16)),
        i8::MIN <= n <= i8::MAX ==> scalar_value(PrimitiveType::Byte, decimal(n as int), floats)
            == Some(ScalarView::Byte(n as i8)),
{
    law_written_integer_is_read_back(n as int);
}

proof fn lemma_digits_len(n: nat, width: nat)
    requires
        n < pow10(width),
        width > 0,
    ensures
        digits(n).len() <= width,
    decreases width,
{
    if n >= 10 {
        if width == 1 {
            assert(pow10(1) == 10 * pow10(0));
            assert(pow10(0) == 1);
        } else {
            assert(pow10(width) == 10 * pow10((width - 1) as nat));
            lemma_digits_len(n / 10, (width - 1) as nat);
        }
    }
}

/// Zeros before digits do not change what the digits stand for.
proof fn lemma_padded(n: nat, width: nat)
    requires
        n < pow10(width),
        width > 0,
    ensures
        zero_padded(digits(n), width).len() == width,
        all_digits(zero_padded(digits(n), width)),
        digits_value(zero_padded(digits(n), width)) == n,
{
    lemma_digits(n);
    lemma_digits_len(n, width);
    let text = digits(n);
    if text.len() < width {
        let zeros = Seq::new((width - text.len()) as nat, |i: int| '0');
        lemma_zeros(zeros);
        lemma_joined_value(zeros, text);
    }
}

proof fn lemma_zeros(zeros: Seq<char>)
    requires
        forall|i: int| 0 <= i < zeros.len() ==> zeros[i] == '0',
    ensures
        digits_value(zeros) == 0,
    decreases zeros.len(),
{
    if zeros.len() > 0 {
        assert forall|i: int| 0 <= i < zeros.drop_last().len() implies zeros.drop_last()[i]
            == '0' by {
            assert(zeros[i] == '0');
        }
        lemma_zeros(zeros.drop_last());
        assert(zeros.last() == zeros[zeros.len() - 1]);
    }
}

/// What digits stand for when others stand before them.
pub(crate) proof fn lemma_joined_value(before: Seq<char>, after: Seq<char>)
    ensures
        digits_value(before + after) == digits_value(before) * pow10(after.len()) + digits_value(
            after,
        ),
    decreases after.len(),
{
    if after.len() == 0 {
        assert(before + after =~= before);
        assert(pow10(0) == 1);
    } else {
        let rest = after.drop_last();
        lemma_joined_value(before, rest);
        assert((before + after).drop_last() =~= before + rest);
        assert((before + after).last() == after.last());
        let a = digits_value(before);
        let p = pow10(rest.len()) as int;
        assert(pow10(after.len()) == 10 * p);
        assert((a * p) * 10 == a * (10 * p)) by (nonlinear_arith);
    }
}

pub(crate) proof fn lemma_index_absent(s: Seq<char>, c: char, from: int)
    requires
        0 <= from,
        forall|i: int| from <= i < s.len() ==> s[i] != c,
    ensures
        index_from(s, c, from) is None,
    decreases s.len() - from,
{
    if from < s.len() {
        lemma_index_absent(s, c, from + 1);
    }
}

pub(crate) proof fn lemma_index_at(s: Seq<char>, c: char, from: int, at: int)
    requires
        0 <= from <= at < s.len(),
        s[at] == c,
        forall|i: int| from <= i < at ==> s[i] != c,
    ensures
        index_from(s, c, from) == Some(at),
    decreases at - from,
{
    if from < at {
        lemma_index_at(s, c, from + 1, at);
    }
}

/// A decimal that was written is read back. A negative one with digits after the point is not: it
/// is written with a sign in both parts.
pub proof fn law_written_decimal_is_read_back(data: DecimalData)
    requires
        digit_count(abs(data.bits_spec() as int)) <= data.ty_spec().precision_spec(),
        data.bits_spec() >= 0 || data.ty_spec().scale_spec() == 0,
    ensures
        decimal_bits(decimal_text(data), data.ty_spec()) == Some(data.bits_spec() as int),
{
    let bits = data.bits_spec() as int;
    let scale = data.ty_spec().scale_spec() as nat;
    let text = decimal_text(data);
    if scale == 0 {
        lemma_whole_text(bits);
        law_written_integer_is_read_back(bits);
    } else {
        let multiple = pow10(scale) as int;
        lemma_pow10_positive(scale);
        let whole = truncated_quotient(bits, multiple);
        let part = truncated_remainder(bits, multiple);
        assert(whole == bits / multiple && part == bits % multiple);
        assert(0 <= whole && 0 <= part < multiple && bits == whole * multiple + part)
            by (nonlinear_arith)
            requires
                bits >= 0,
                multiple > 0,
                whole == bits / multiple,
                part == bits % multiple,
        ;
        let before = digits(whole as nat);
        let after = zero_padded(digits(part as nat), scale);
        lemma_digits(whole as nat);
        lemma_padded(part as nat, scale);
        lemma_joined_value(before, after);
        reveal_strlit(".");
        assert("."@ =~= seq!['.']);
        assert(text =~= before + seq!['.'] + after);
        assert forall|i: int| 0 <= i < text.len() && i != before.len() implies is_digit(
            #[trigger] text[i],
        ) by {
            if i < before.len() {
                assert(text[i] == before[i]);
            } else {
                assert(text[i] == after[i - before.len() - 1]);
            }
        }
        assert(text[before.len() as int] == '.');
        lemma_index_absent(text, 'e', 0);
        lemma_index_absent(text, 'E', 0);
        lemma_index_at(text, '.', 0, before.len() as int);
        assert(mantissa(text) == text);
        assert(without_point(text) =~= before + after);
        let joined = before + after;
        assert forall|i: int| 0 <= i < joined.len() implies is_digit(#[trigger] joined[i]) by {
            if i < before.len() {
                assert(joined[i] == before[i]);
            } else {
                assert(joined[i] == after[i - before.len()]);
            }
        }
        assert(is_digit(joined[0]));
        assert(natural(joined) == Some(bits));
        assert(signed_value(joined) == Some(bits));
    }
}

pub(crate) proof fn lemma_pow10_positive(n: nat)
    ensures
        pow10(n) > 0,
    decreases n,
{
    if n > 0 {
        lemma_pow10_positive((n - 1) as nat);
    }
}

/// A whole number in decimal notation has neither a point nor an exponent.
proof fn lemma_whole_text(n: int)
    ensures
        exponent_index(decimal(n)) is None,
        index_from(decimal(n), '.', 0) is None,
        decimal(n).len() > 0,
{
    let text = decimal(n);
    let number = digits(abs(n));
    lemma_digits(abs(n));
    assert forall|i: int| 0 <= i < text.len() implies is_digit(#[trigger] text[i]) || text[i]
        == '-' by {
        if n < 0 {
            if i > 0 {
                assert(text[i] == number[i - 1]);
            }
        } else {
            assert(text[i] == number[i]);
        }
    }
    lemma_index_absent(text, 'e', 0);
    lemma_index_absent(text, 'E', 0);
    lemma_index_absent(text, '.', 0);
}

} // verus!
