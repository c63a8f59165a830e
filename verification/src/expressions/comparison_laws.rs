//! What comparing values and reckoning with them gives, in plain numbers.

use vstd::prelude::*;

use super::floats::FloatView;
use super::order::{
    byte_values, codes, lemma_lexical_reversed, lemma_lexical_skip, lexical_order, Order,
};
use super::scalars::{
    difference, logical_order, physically_equal, product, quotient, sum, truncated_quotient,
    DecimalData, ScalarView,
};
use crate::schema::{FieldView, TypeView};

verus! {

// ---------------------------------------------------------------------------------------------
// Numbers and times
// ---------------------------------------------------------------------------------------------

/// Whether a comparison of two values goes as that of two numbers.
pub open spec fn compares_as(order: Option<Order>, x: int, y: int) -> bool {
    &&& order == Some(Order::Less) <==> x < y
    &&& order == Some(Order::Equal) <==> x == y
    &&& order == Some(Order::Greater) <==> x > y
}

/// Two whole numbers of one type compare as the numbers that they are, signs included.
pub proof fn law_integers_compare_as_numbers(
    byte: (i8, i8),
    short: (i16, i16),
    integer: (i32, i32),
    long: (i64, i64),
)
    ensures
        compares_as(
            logical_order(ScalarView::Byte(byte.0), ScalarView::Byte(byte.1)),
            byte.0 as int,
            byte.1 as int,
        ),
        compares_as(
            logical_order(ScalarView::Short(short.0), ScalarView::Short(short.1)),
            short.0 as int,
            short.1 as int,
        ),
        compares_as(
            logical_order(ScalarView::Integer(integer.0), ScalarView::Integer(integer.1)),
            integer.0 as int,
            integer.1 as int,
        ),
        compares_as(
            logical_order(ScalarView::Long(long.0), ScalarView::Long(long.1)),
            long.0 as int,
            long.1 as int,
        ),
{
}

/// Two days, two times or two intervals of one type compare as the numbers of days, microseconds or
/// months that they are: the earlier and the shorter is less.
pub proof fn law_times_compare_as_numbers(days: (i32, i32), micros: (i64, i64), months: (i32, i32))
    ensures
        compares_as(
            logical_order(ScalarView::Date(days.0), ScalarView::Date(days.1)),
            days.0 as int,
            days.1 as int,
        ),
        compares_as(
            logical_order(ScalarView::Timestamp(micros.0), ScalarView::Timestamp(micros.1)),
            micros.0 as int,
            micros.1 as int,
        ),
        compares_as(
            logical_order(ScalarView::TimestampNtz(micros.0), ScalarView::TimestampNtz(micros.1)),
            micros.0 as int,
            micros.1 as int,
        ),
        compares_as(
            logical_order(
                ScalarView::IntervalDayTime(micros.0),
                ScalarView::IntervalDayTime(micros.1),
            ),
            micros.0 as int,
            micros.1 as int,
        ),
        compares_as(
            logical_order(
                ScalarView::IntervalYearMonth(months.0),
                ScalarView::IntervalYearMonth(months.1),
            ),
            months.0 as int,
            months.1 as int,
        ),
{
}

/// False is less than true.
pub proof fn law_false_is_less_than_true(x: bool, y: bool)
    ensures
        logical_order(ScalarView::Boolean(x), ScalarView::Boolean(y)) == Some(
            if x == y {
                Order::Equal
            } else if y {
                Order::Less
            } else {
                Order::Greater
            },
        ),
{
}

/// Two decimals of one precision and scale compare as their digits do, taken as whole numbers; of
/// different precisions or scales they do not compare.
pub proof fn law_decimals_compare_as_numbers(x: DecimalData, y: DecimalData)
    ensures
        x.ty_spec() == y.ty_spec() ==> compares_as(
            logical_order(ScalarView::Decimal(x), ScalarView::Decimal(y)),
            x.bits_spec() as int,
            y.bits_spec() as int,
        ),
        x.ty_spec() != y.ty_spec() ==> logical_order(
            ScalarView::Decimal(x),
            ScalarView::Decimal(y),
        ) is None,
{
}

/// How two floating-point numbers of a width compare: of two without a sign the one with the
/// greater bits is greater, of two with a sign the one with the lesser bits, and one with a sign is
/// less than one without; but the zeros are equal, and what is no number compares with nothing.
/// `sign` is the sign bit and `infinity` the bits of the greatest magnitude that is a number.
pub open spec fn compares_as_floats(
    order: Option<Order>,
    x: int,
    y: int,
    sign: int,
    infinity: int,
) -> bool {
    if infinity < x < sign || infinity < y < sign || x > sign + infinity || y > sign + infinity {
        order is None
    } else if x < sign && y < sign {
        compares_as(order, x, y)
    } else if x >= sign && y >= sign {
        compares_as(order, y, x)
    } else if (x == 0 || x == sign) && (y == 0 || y == sign) {
        order == Some(Order::Equal)
    } else if x >= sign {
        order == Some(Order::Less)
    } else {
        order == Some(Order::Greater)
    }
}

/// Floating-point numbers of one width compare by sign and magnitude.
pub proof fn law_floats_compare_by_sign_and_magnitude(x: FloatView, y: FloatView)
    requires
        0 <= x.bits,
        0 <= y.bits,
    ensures
        x.bits <= u32::MAX && y.bits <= u32::MAX ==> compares_as_floats(
            logical_order(ScalarView::Float(x), ScalarView::Float(y)),
            x.bits,
            y.bits,
            0x8000_0000,
            0x7f80_0000,
        ),
        x.bits <= u64::MAX && y.bits <= u64::MAX ==> compares_as_floats(
            logical_order(ScalarView::Double(x), ScalarView::Double(y)),
            x.bits,
            y.bits,
            0x8000_0000_0000_0000,
            0x7ff0_0000_0000_0000,
        ),
{
}

// ---------------------------------------------------------------------------------------------
// Texts and bytes
// ---------------------------------------------------------------------------------------------

/// How two lists of numbers that agree in their first `n` places compare: by the next place, and
/// where one of them ends there it is the lesser.
proof fn lemma_first_difference(a: Seq<int>, b: Seq<int>, n: int)
    requires
        0 <= n <= a.len(),
        n <= b.len(),
        forall|i: int| 0 <= i < n ==> a[i] == b[i],
    ensures
        n < a.len() && n < b.len() && a[n] < b[n] ==> lexical_order(a, b) is Less,
        n < a.len() && n < b.len() && a[n] > b[n] ==> lexical_order(a, b) is Greater,
        n == a.len() && n < b.len() ==> lexical_order(a, b) is Less,
        n < a.len() && n == b.len() ==> lexical_order(a, b) is Greater,
        n == a.len() && n == b.len() ==> lexical_order(a, b) is Equal,
{
    lemma_lexical_skip(a, b, n);
}

/// Two texts compare by the code points at the first place at which they differ, and a text is less
/// than one that goes on after it; only a text and itself are equal.
pub proof fn law_texts_compare_at_their_first_difference(x: Seq<char>, y: Seq<char>, n: int)
    requires
        0 <= n <= x.len(),
        n <= y.len(),
        forall|i: int| 0 <= i < n ==> x[i] == y[i],
    ensures
        n < x.len() && n < y.len() && (x[n] as int) < (y[n] as int) ==> logical_order(
            ScalarView::String(x),
            ScalarView::String(y),
        ) == Some(Order::Less),
        n < x.len() && n < y.len() && (x[n] as int) > (y[n] as int) ==> logical_order(
            ScalarView::String(x),
            ScalarView::String(y),
        ) == Some(Order::Greater),
        n == x.len() && n < y.len() ==> logical_order(
            ScalarView::String(x),
            ScalarView::String(y),
        ) == Some(Order::Less),
        n < x.len() && n == y.len() ==> logical_order(
            ScalarView::String(x),
            ScalarView::String(y),
        ) == Some(Order::Greater),
        logical_order(ScalarView::String(x), ScalarView::String(y)) == Some(Order::Equal) <==> x
            == y,
{
    lemma_first_difference(codes(x), codes(y), n);
    lemma_lexical_reversed(codes(x), codes(y));
    if codes(x) == codes(y) {
        assert(codes(x).len() == x.len() && codes(y).len() == y.len());
        assert forall|i: int| 0 <= i < x.len() implies x[i] == y[i] by {
            assert(codes(x)[i] == x[i] as int);
            assert(codes(y)[i] == y[i] as int);
        }
        assert(x =~= y);
    }
}

/// Two lists of bytes compare by the bytes at the first place at which they differ, and one is less
/// than another that goes on after it; only a list and itself are equal.
pub proof fn law_bytes_compare_at_their_first_difference(x: Seq<u8>, y: Seq<u8>, n: int)
    requires
        0 <= n <= x.len(),
        n <= y.len(),
        forall|i: int| 0 <= i < n ==> x[i] == y[i],
    ensures
        n < x.len() && n < y.len() && x[n] < y[n] ==> logical_order(
            ScalarView::Binary(x),
            ScalarView::Binary(y),
        ) == Some(Order::Less),
        n < x.len() && n < y.len() && x[n] > y[n] ==> logical_order(
            ScalarView::Binary(x),
            ScalarView::Binary(y),
        ) == Some(Order::Greater),
        n == x.len() && n < y.len() ==> logical_order(
            ScalarView::Binary(x),
            ScalarView::Binary(y),
        ) == Some(Order::Less),
        n < x.len() && n == y.len() ==> logical_order(
            ScalarView::Binary(x),
            ScalarView::Binary(y),
        ) == Some(Order::Greater),
        logical_order(ScalarView::Binary(x), ScalarView::Binary(y)) == Some(Order::Equal) <==> x
            == y,
{
    lemma_first_difference(byte_values(x), byte_values(y), n);
    lemma_lexical_reversed(byte_values(x), byte_values(y));
    if byte_values(x) == byte_values(y) {
        assert(byte_values(x).len() == x.len() && byte_values(y).len() == y.len());
        assert forall|i: int| 0 <= i < x.len() implies x[i] == y[i] by {
            assert(byte_values(x)[i] == x[i] as int);
            assert(byte_values(y)[i] == y[i] as int);
        }
        assert(x =~= y);
    }
}

// ---------------------------------------------------------------------------------------------
// Equality
// ---------------------------------------------------------------------------------------------

/// Whether a value holds no other values and is no floating-point number.
pub open spec fn is_plain_value(a: ScalarView) -> bool {
    !(a is Float || a is Double || a is Struct || a is Array || a is Mapping)
}

/// Values compare as equal only where they are the same value, but for floating-point numbers: two
/// of those can differ in how they are written, or in the sign of zero.
pub proof fn law_equal_values_are_the_same(a: ScalarView, b: ScalarView)
    requires
        is_plain_value(a),
        !(a is Decimal),
        logical_order(a, b) == Some(Order::Equal),
    ensures
        a == b,
{
    match (a, b) {
        (ScalarView::String(x), ScalarView::String(y)) => {
            law_texts_compare_at_their_first_difference(x, y, 0);
        },
        (ScalarView::Binary(x), ScalarView::Binary(y)) => {
            law_bytes_compare_at_their_first_difference(x, y, 0);
        },
        _ => {},
    }
}

/// Structs, lists and maps compare with nothing.
pub proof fn law_nested_values_compare_with_nothing(a: ScalarView, b: ScalarView)
    requires
        a is Struct || a is Array || a is Mapping || b is Struct || b is Array || b is Mapping,
    ensures
        logical_order(a, b) is None,
{
}

/// A value without parts is physically equal to itself and to nothing else; two nulls are, where
/// their types are the same.
pub proof fn law_physical_equality_of_plain_values(a: ScalarView, b: ScalarView)
    requires
        is_plain_value(a),
    ensures
        physically_equal(a, b) <==> a == b,
{
}

/// Two lists are physically equal where their types are the same, they are as long, and each element
/// is physically equal to the one in its place; structs likewise, by their fields and values.
pub proof fn law_physical_equality_goes_by_the_parts(
    ty: TypeView,
    other: TypeView,
    fields: Seq<FieldView>,
    others: Seq<FieldView>,
    x: Seq<ScalarView>,
    y: Seq<ScalarView>,
)
    ensures
        physically_equal(ScalarView::Array(ty, x), ScalarView::Array(other, y)) <==> (ty == other
            && x.len() == y.len() && forall|i: int|
            0 <= i < x.len() ==> physically_equal(#[trigger] x[i], y[i])),
        physically_equal(ScalarView::Struct(fields, x), ScalarView::Struct(others, y)) <==> (fields
            == others && x.len() == y.len() && forall|i: int|
            0 <= i < x.len() ==> physically_equal(#[trigger] x[i], y[i])),
        !physically_equal(ScalarView::Array(ty, x), ScalarView::Struct(fields, y)),
        !physically_equal(ScalarView::Struct(fields, x), ScalarView::Array(ty, y)),
{
    reveal_with_fuel(physically_equal, 3);
    if x.len() == y.len() {
        if forall|i: int| 0 <= i < x.len() ==> physically_equal(#[trigger] x[i], y[i]) {
            assert(super::scalars::all_physically_equal(x, y));
        }
        if super::scalars::all_physically_equal(x, y) {
            assert forall|i: int| 0 <= i < x.len() implies physically_equal(
                #[trigger] x[i],
                y[i],
            ) by {
                let _ = y[i];
            }
        }
    }
}

/// Two maps are physically equal where their types are the same, they have as many pairs, and each
/// pair is physically equal to the one in its place.
pub proof fn law_physical_equality_of_maps(
    ty: TypeView,
    other: TypeView,
    x: Seq<(ScalarView, ScalarView)>,
    y: Seq<(ScalarView, ScalarView)>,
)
    ensures
        physically_equal(ScalarView::Mapping(ty, x), ScalarView::Mapping(other, y)) <==> (ty
            == other && x.len() == y.len() && forall|i: int|
            0 <= i < x.len() ==> physically_equal((#[trigger] x[i]).0, y[i].0) && physically_equal(
                x[i].1,
                y[i].1,
            )),
{
    reveal_with_fuel(physically_equal, 2);
    if physically_equal(ScalarView::Mapping(ty, x), ScalarView::Mapping(other, y)) {
        assert forall|i: int| 0 <= i < x.len() implies physically_equal(
            (#[trigger] x[i]).0,
            y[i].0,
        ) && physically_equal(x[i].1, y[i].1) by {
            let _ = y[i];
        }
    }
}

// ---------------------------------------------------------------------------------------------
// Arithmetic
// ---------------------------------------------------------------------------------------------

/// A 32-bit integer where a number fits one.
pub open spec fn integer(n: int) -> Option<ScalarView> {
    if -0x8000_0000 <= n <= 0x7fff_ffff {
        Some(ScalarView::Integer(n as i32))
    } else {
        None
    }
}

/// A 64-bit integer where a number fits one.
pub open spec fn long(n: int) -> Option<ScalarView> {
    if -0x8000_0000_0000_0000 <= n <= 0x7fff_ffff_ffff_ffff {
        Some(ScalarView::Long(n as i64))
    } else {
        None
    }
}

/// A 16-bit integer where a number fits one.
pub open spec fn short(n: int) -> Option<ScalarView> {
    if -0x8000 <= n <= 0x7fff {
        Some(ScalarView::Short(n as i16))
    } else {
        None
    }
}

/// An 8-bit integer where a number fits one.
pub open spec fn byte(n: int) -> Option<ScalarView> {
    if -0x80 <= n <= 0x7f {
        Some(ScalarView::Byte(n as i8))
    } else {
        None
    }
}

/// Sums, differences and products of 32-bit integers are exact, or there are none.
pub proof fn law_integer_arithmetic_is_exact(x: i32, y: i32)
    ensures
        sum(ScalarView::Integer(x), ScalarView::Integer(y)) == integer(x + y),
        difference(ScalarView::Integer(x), ScalarView::Integer(y)) == integer(x - y),
        product(ScalarView::Integer(x), ScalarView::Integer(y)) == integer(x * y),
        y != 0 ==> quotient(ScalarView::Integer(x), ScalarView::Integer(y)) == integer(
            truncated_quotient(x as int, y as int),
        ),
        quotient(ScalarView::Integer(x), ScalarView::Integer(0)) is None,
{
}

/// Sums, differences and products of 64-bit integers are exact, or there are none.
pub proof fn law_long_arithmetic_is_exact(x: i64, y: i64)
    ensures
        sum(ScalarView::Long(x), ScalarView::Long(y)) == long(x + y),
        difference(ScalarView::Long(x), ScalarView::Long(y)) == long(x - y),
        product(ScalarView::Long(x), ScalarView::Long(y)) == long(x * y),
        y != 0 ==> quotient(ScalarView::Long(x), ScalarView::Long(y)) == long(
            truncated_quotient(x as int, y as int),
        ),
        quotient(ScalarView::Long(x), ScalarView::Long(0)) is None,
{
}

/// Sums, differences and products of 16-bit integers are exact, or there are none.
pub proof fn law_short_arithmetic_is_exact(x: i16, y: i16)
    ensures
        sum(ScalarView::Short(x), ScalarView::Short(y)) == short(x + y),
        difference(ScalarView::Short(x), ScalarView::Short(y)) == short(x - y),
        product(ScalarView::Short(x), ScalarView::Short(y)) == short(x * y),
        y != 0 ==> quotient(ScalarView::Short(x), ScalarView::Short(y)) == short(
            truncated_quotient(x as int, y as int),
        ),
        quotient(ScalarView::Short(x), ScalarView::Short(0)) is None,
{
}

/// Sums, differences and products of 8-bit integers are exact, or there are none.
pub proof fn law_byte_arithmetic_is_exact(x: i8, y: i8)
    ensures
        sum(ScalarView::Byte(x), ScalarView::Byte(y)) == byte(x + y),
        difference(ScalarView::Byte(x), ScalarView::Byte(y)) == byte(x - y),
        product(ScalarView::Byte(x), ScalarView::Byte(y)) == byte(x * y),
        y != 0 ==> quotient(ScalarView::Byte(x), ScalarView::Byte(y)) == byte(
            truncated_quotient(x as int, y as int),
        ),
        quotient(ScalarView::Byte(x), ScalarView::Byte(0)) is None,
{
}

/// A quotient leaves a remainder that is smaller than the divisor and has no other sign than the
/// dividend.
pub proof fn law_quotient_leaves_a_smaller_remainder(x: int, y: int, remainder: int)
    requires
        y != 0,
        remainder == x - truncated_quotient(x, y) * y,
    ensures
        y > 0 ==> -y < remainder < y,
        y < 0 ==> y < remainder < -y,
        x >= 0 ==> remainder >= 0,
        x <= 0 ==> remainder <= 0,
{
    let dividend = if x < 0 {
        -x
    } else {
        x
    };
    let divisor = if y < 0 {
        -y
    } else {
        y
    };
    let q = dividend / divisor;
    vstd::arithmetic::div_mod::lemma_fundamental_div_mod(dividend, divisor);
    vstd::arithmetic::div_mod::lemma_mod_bound(dividend, divisor);
    let rest = dividend % divisor;
    assert(dividend == divisor * q + rest);
    assert(truncated_quotient(x, y) == if (x < 0) == (y < 0) {
        q
    } else {
        -q
    });
    assert((-q) * y == -(q * y)) by (nonlinear_arith);
    assert(q * (-y) == -(q * y)) by (nonlinear_arith);
    assert(q * y == y * q) by (nonlinear_arith);
    assert((-y) * q == -(q * y)) by (nonlinear_arith);
}

/// Values of different types have no sum, difference, product or quotient.
pub proof fn law_arithmetic_needs_one_integer_type(a: ScalarView, b: ScalarView)
    requires
        !(a is Byte && b is Byte),
        !(a is Short && b is Short),
        !(a is Integer && b is Integer),
        !(a is Long && b is Long),
    ensures
        sum(a, b) is None,
        difference(a, b) is None,
        product(a, b) is None,
        quotient(a, b) is None,
{
}

} // verus!
