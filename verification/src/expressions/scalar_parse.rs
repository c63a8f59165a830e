//! Scalars from text, as partition values are written.

use vstd::prelude::*;
use vstd::utf8::encode_utf8;

use super::calendar::{
    date_days, date_time_micros, has_millis, micros_from_millis, naive_date_time_micros,
    parse_date, parse_date_time, parse_naive_date_time,
};
use super::floats::{Float32, Float64};
use super::interval::{
    day_time_interval, parse_day_time_interval, parse_year_month_interval, year_month_interval,
};
use super::scalars::{abs, digit_count, DecimalData, Scalar, ScalarView};
use crate::error::{DeltaResult, Error};
use crate::number::{parse_i128, parse_signed, signed_value, within};
use crate::schema::{DataType, DecimalType, PrimitiveType, TypeView};
use crate::text::{
    decimal, find, index_from, is_text_in_any_case, lowercase, push_decimal, to_chars,
};

verus! {

/// What a text is as a floating-point number, of 32 and of 64 bits; nothing where it is none.
#[derive(Debug)]
pub struct FloatReading {
    /// The text as a number of 32 bits.
    pub float: Option<Float32>,
    /// The text as a number of 64 bits.
    pub double: Option<Float64>,
}

impl FloatReading {
    /// The reading of a text that is no number, or whose type is no floating-point type.
    pub fn none() -> (r: FloatReading)
        ensures
            r.float is None,
            r.double is None,
    {
        FloatReading { float: None, double: None }
    }
}

// ---------------------------------------------------------------------------------------------
// Decimals
// ---------------------------------------------------------------------------------------------

/// The position of the letter that introduces an exponent.
pub open spec fn exponent_index(raw: Seq<char>) -> Option<int> {
    match (index_from(raw, 'e', 0), index_from(raw, 'E', 0)) {
        (Some(i), Some(j)) => Some(
            if i < j {
                i
            } else {
                j
            },
        ),
        (Some(i), None) => Some(i),
        (None, j) => j,
    }
}

/// The exponent of a decimal: zero where there is none.
pub open spec fn exponent(raw: Seq<char>) -> Option<int> {
    match exponent_index(raw) {
        Some(i) => within(signed_value(raw.skip(i + 1)), i128::MIN as int, i128::MAX as int),
        None => Some(0),
    }
}

/// A decimal without its exponent.
pub open spec fn mantissa(raw: Seq<char>) -> Seq<char> {
    match exponent_index(raw) {
        Some(i) => raw.take(i),
        None => raw,
    }
}

/// How many characters are after the point.
pub open spec fn fraction_len(mantissa: Seq<char>) -> int {
    match index_from(mantissa, '.', 0) {
        Some(i) => mantissa.len() - i - 1,
        None => 0,
    }
}

/// A mantissa without its point.
pub open spec fn without_point(mantissa: Seq<char>) -> Seq<char> {
    match index_from(mantissa, '.', 0) {
        Some(i) => mantissa.take(i) + mantissa.skip(i + 1),
        None => mantissa,
    }
}

/// The digits of a decimal of type `ty`: the text has exactly the scale of the type, and no more
/// digits than the type allows.
pub open spec fn decimal_bits(raw: Seq<char>, ty: DecimalType) -> Option<int> {
    let base = mantissa(raw);
    match exponent(raw) {
        None => None,
        Some(exponent) => if base.len() > 0 && fraction_len(base) - exponent == ty.scale_spec() {
            match within(signed_value(without_point(base)), i128::MIN as int, i128::MAX as int) {
                Some(bits) => if digit_count(abs(bits)) <= ty.precision_spec() {
                    Some(bits)
                } else {
                    None
                },
                None => None,
            }
        } else {
            None
        },
    }
}

fn parse_decimal_bits(raw: &[char], ty: DecimalType) -> (r: Option<DecimalData>)
    ensures
        match decimal_bits(raw@, ty) {
            Some(bits) => r matches Some(data) && data.bits_spec() == bits && data.ty_spec() == ty,
            None => r is None,
        },
{
    let index: Option<usize> = match (find(raw, 'e'), find(raw, 'E')) {
        (Some(i), Some(j)) => Some(
            if i < j {
                i
            } else {
                j
            },
        ),
        (Some(i), None) => Some(i),
        (None, j) => j,
    };
    let len: usize = raw.len();
    let (base, exponent): (&[char], i128) = match index {
        None => {
            let all: &[char] = vstd::slice::slice_subrange(raw, 0, len);
            assert(all@ =~= raw@);
            (all, 0)
        },
        Some(i) => {
            let before: &[char] = vstd::slice::slice_subrange(raw, 0, i);
            let after: &[char] = vstd::slice::slice_subrange(raw, i + 1, len);
            assert(before@ =~= raw@.take(i as int));
            assert(after@ =~= raw@.skip(i + 1));
            match parse_i128(after) {
                Some(exponent) => (before, exponent),
                None => {
                    return None;
                },
            }
        },
    };
    assert(base@ == mantissa(raw@));
    if base.len() == 0 {
        return None;
    }
    let base_len: usize = base.len();
    let point: Option<usize> = find(base, '.');
    let fraction_digits: i128 = match point {
        Some(i) => (base_len - i - 1) as i128,
        None => 0,
    };
    let scale: i128 = match fraction_digits.checked_sub(exponent) {
        Some(scale) => scale,
        None => {
            return None;
        },
    };
    if scale != ty.scale() as i128 {
        return None;
    }
    let mut digits: Vec<char> = Vec::new();
    let mut k: usize = 0;
    while k < base.len()
        invariant
            k <= base@.len(),
            point is None ==> digits@ == base@.take(k as int),
            point matches Some(i) ==> i < base@.len() && digits@ == if k <= i {
                base@.take(k as int)
            } else {
                base@.take(i as int) + base@.subrange(i + 1, k as int)
            },
        decreases base@.len() - k,
    {
        let skip: bool = match point {
            Some(i) => k == i,
            None => false,
        };
        let ghost before = digits@;
        if !skip {
            digits.push(base[k]);
        }
        k += 1;
        proof {
            match point {
                None => {
                    assert(digits@ =~= base@.take(k as int));
                },
                Some(i) => {
                    if k <= i {
                        assert(digits@ =~= base@.take(k as int));
                    } else {
                        assert(digits@ =~= base@.take(i as int) + base@.subrange(i + 1, k as int));
                    }
                },
            }
        }
    }
    proof {
        match point {
            None => {
                assert(digits@ =~= base@);
            },
            Some(i) => {
                assert(digits@ =~= base@.take(i as int) + base@.skip(i + 1));
            },
        }
        assert(digits@ == without_point(base@));
    }
    match parse_i128(digits.as_slice()) {
        Some(bits) => match DecimalData::try_new(bits, ty) {
            Ok(data) => Some(data),
            Err(_) => None,
        },
        None => None,
    }
}

// ---------------------------------------------------------------------------------------------
// All types
// ---------------------------------------------------------------------------------------------

/// The format of dates.
pub open spec fn date_format() -> Seq<char> {
    "%Y-%m-%d"@
}

/// The format of timestamps without a zone.
pub open spec fn timestamp_format() -> Seq<char> {
    "%Y-%m-%d %H:%M:%S%.f"@
}

/// The format of timestamps with an offset, in ISO 8601.
pub open spec fn offset_format() -> Seq<char> {
    "%+"@
}

/// The microseconds of a timestamp, from what was read of it without a zone and with an offset: the
/// reading with an offset counts only where there is none without a zone, and where the type is
/// adjusted to UTC.
pub open spec fn resolved_micros(
    naive: Option<Option<i64>>,
    with_offset: Option<Option<i64>>,
    adjusted: bool,
) -> Option<i64> {
    match naive {
        Some(micros) => micros,
        None => match with_offset {
            Some(micros) => if adjusted {
                micros
            } else {
                None
            },
            None => None,
        },
    }
}

/// The microseconds of a timestamp.
pub open spec fn timestamp_micros(raw: Seq<char>, adjusted: bool) -> Option<i64> {
    resolved_micros(
        naive_date_time_micros(raw, timestamp_format()),
        date_time_micros(raw, offset_format()),
        adjusted,
    )
}

/// The date on a day, if there is a day.
pub open spec fn date_value(days: Option<i32>) -> Option<ScalarView> {
    match days {
        Some(days) => Some(ScalarView::Date(days)),
        None => None,
    }
}

/// The date on a day, counted from the Unix epoch, if there is a day.
pub fn date_scalar(days: Option<i32>) -> (r: Option<Scalar>)
    ensures
        match (r, date_value(days)) {
            (Some(scalar), Some(value)) => scalar@ == value,
            (None, None) => true,
            _ => false,
        },
{
    match days {
        Some(days) => Some(Scalar::Date(days)),
        None => None,
    }
}

/// The timestamp at a time, if there is one: adjusted to UTC or without a time zone.
pub open spec fn timestamp_value(micros: Option<i64>, adjusted: bool) -> Option<ScalarView> {
    match micros {
        Some(micros) => if adjusted {
            Some(ScalarView::Timestamp(micros))
        } else {
            Some(ScalarView::TimestampNtz(micros))
        },
        None => None,
    }
}

/// The timestamp at a time, counted in microseconds from the Unix epoch, if there is one: adjusted
/// to UTC or without a time zone.
pub fn timestamp_scalar(micros: Option<i64>, adjusted: bool) -> (r: Option<Scalar>)
    ensures
        match (r, timestamp_value(micros, adjusted)) {
            (Some(scalar), Some(value)) => scalar@ == value,
            (None, None) => true,
            _ => false,
        },
{
    match micros {
        Some(micros) => if adjusted {
            Some(Scalar::Timestamp(micros))
        } else {
            Some(Scalar::TimestampNtz(micros))
        },
        None => None,
    }
}

/// The scalar of type `ty` that a text stands for, where it stands for one other than null.
pub open spec fn scalar_value(
    ty: PrimitiveType,
    raw: Seq<char>,
    floats: FloatReading,
) -> Option<ScalarView> {
    match ty {
        PrimitiveType::String => Some(ScalarView::String(raw)),
        PrimitiveType::Binary => Some(ScalarView::Binary(encode_utf8(raw))),
        PrimitiveType::Byte => match within(signed_value(raw), i8::MIN as int, i8::MAX as int) {
            Some(n) => Some(ScalarView::Byte(n as i8)),
            None => None,
        },
        PrimitiveType::Short => match within(signed_value(raw), i16::MIN as int, i16::MAX as int) {
            Some(n) => Some(ScalarView::Short(n as i16)),
            None => None,
        },
        PrimitiveType::Integer => match within(
            signed_value(raw),
            i32::MIN as int,
            i32::MAX as int,
        ) {
            Some(n) => Some(ScalarView::Integer(n as i32)),
            None => None,
        },
        PrimitiveType::Long => match within(signed_value(raw), i64::MIN as int, i64::MAX as int) {
            Some(n) => Some(ScalarView::Long(n as i64)),
            None => None,
        },
        PrimitiveType::Float => match floats.float {
            Some(value) => Some(ScalarView::Float(value@)),
            None => None,
        },
        PrimitiveType::Double => match floats.double {
            Some(value) => Some(ScalarView::Double(value@)),
            None => None,
        },
        PrimitiveType::Void => None,
        PrimitiveType::Boolean => if lowercase(raw) == "true"@ {
            Some(ScalarView::Boolean(true))
        } else if lowercase(raw) == "false"@ {
            Some(ScalarView::Boolean(false))
        } else {
            None
        },
        PrimitiveType::Date => date_value(date_days(raw, date_format())),
        PrimitiveType::Timestamp => timestamp_value(timestamp_micros(raw, true), true),
        PrimitiveType::TimestampNtz => timestamp_value(timestamp_micros(raw, false), false),
        PrimitiveType::IntervalYearMonth => match year_month_interval(raw) {
            Some(months) => Some(ScalarView::IntervalYearMonth(months as i32)),
            None => None,
        },
        PrimitiveType::IntervalDayTime => match day_time_interval(raw) {
            Some(micros) => Some(ScalarView::IntervalDayTime(micros as i64)),
            None => None,
        },
        PrimitiveType::Decimal(_) => None,
    }
}

/// Whether `r` is what a text stands for as a scalar of type `ty`.
pub open spec fn scalar_outcome(
    ty: PrimitiveType,
    raw: Seq<char>,
    floats: FloatReading,
    r: Result<Scalar, Error>,
) -> bool {
    if raw.len() == 0 {
        r matches Ok(scalar) && scalar@ == ScalarView::Null(TypeView::Primitive(ty))
    } else {
        match ty {
            PrimitiveType::Decimal(decimal_type) => match decimal_bits(raw, decimal_type) {
                Some(bits) => r matches Ok(Scalar::Decimal(data)) && data.bits_spec() == bits
                    && data.ty_spec() == decimal_type,
                None => is_parse_error(ty, raw, r),
            },
            _ => match scalar_value(ty, raw, floats) {
                Some(value) => r matches Ok(scalar) && scalar@ == value,
                None => is_parse_error(ty, raw, r),
            },
        }
    }
}

/// Whether `r` says that a text is no scalar of type `ty`.
pub open spec fn is_parse_error(
    ty: PrimitiveType,
    raw: Seq<char>,
    r: Result<Scalar, Error>,
) -> bool {
    r matches Err(Error::ParseError(text, found)) && text@ == raw && found@ == TypeView::Primitive(
        ty,
    )
}

impl PrimitiveType {
    /// The primitive type as a data type.
    pub fn data_type(&self) -> (r: DataType)
        ensures
            r@ == TypeView::Primitive(*self),
    {
        DataType::Primitive(*self)
    }

    fn parse_error(&self, raw: &str) -> (r: Error)
        ensures
            is_parse_error(*self, raw@, Err(r)),
    {
        Error::ParseError(raw.to_owned(), self.data_type())
    }

    /// The scalar of this type that `raw` stands for. An empty text stands for null.
    ///
    /// A timestamp is written `{year}-{month}-{day} {hour}:{minute}:{second}`, with or without a
    /// fraction after the seconds. One that is adjusted to UTC can also be written in ISO 8601 with
    /// an offset, which is taken into account.
    ///
    /// `floats` is what `raw` is as a floating-point number; only the floating-point types look at
    /// it.
    pub fn parse_scalar(&self, raw: &str, floats: &FloatReading) -> (r: Result<Scalar, Error>)
        ensures
            scalar_outcome(*self, raw@, *floats, r),
    {
        if raw.is_empty() {
            return Ok(Scalar::Null(self.data_type()));
        }
        let value: Option<Scalar> = match self {
            PrimitiveType::String => Some(Scalar::String(raw.to_owned())),
            PrimitiveType::Binary => Some(Scalar::Binary(raw.as_bytes_vec())),
            PrimitiveType::Byte => match parse_signed(
                to_chars(raw).as_slice(),
                i8::MIN as i128,
                i8::MAX as i128,
            ) {
                Some(n) => Some(Scalar::Byte(n as i8)),
                None => None,
            },
            PrimitiveType::Short => match parse_signed(
                to_chars(raw).as_slice(),
                i16::MIN as i128,
                i16::MAX as i128,
            ) {
                Some(n) => Some(Scalar::Short(n as i16)),
                None => None,
            },
            PrimitiveType::Integer => match parse_signed(
                to_chars(raw).as_slice(),
                i32::MIN as i128,
                i32::MAX as i128,
            ) {
                Some(n) => Some(Scalar::Integer(n as i32)),
                None => None,
            },
            PrimitiveType::Long => match parse_signed(
                to_chars(raw).as_slice(),
                i64::MIN as i128,
                i64::MAX as i128,
            ) {
                Some(n) => Some(Scalar::Long(n as i64)),
                None => None,
            },
            PrimitiveType::Float => match &floats.float {
                Some(value) => Some(Scalar::Float(value.clone())),
                None => None,
            },
            PrimitiveType::Double => match &floats.double {
                Some(value) => Some(Scalar::Double(value.clone())),
                None => None,
            },
            PrimitiveType::Void => None,
            PrimitiveType::Boolean => {
                let chars: Vec<char> = to_chars(raw);
                if is_text_in_any_case(chars.as_slice(), "true") {
                    Some(Scalar::Boolean(true))
                } else if is_text_in_any_case(chars.as_slice(), "false") {
                    Some(Scalar::Boolean(false))
                } else {
                    None
                }
            },
            PrimitiveType::Date => date_scalar(parse_date(raw, "%Y-%m-%d")),
            PrimitiveType::Timestamp => timestamp_scalar(read_timestamp(raw, true), true),
            PrimitiveType::TimestampNtz => timestamp_scalar(read_timestamp(raw, false), false),
            PrimitiveType::IntervalYearMonth => match parse_year_month_interval(raw) {
                Some(months) => Some(Scalar::IntervalYearMonth(months)),
                None => None,
            },
            PrimitiveType::IntervalDayTime => match parse_day_time_interval(raw) {
                Some(micros) => Some(Scalar::IntervalDayTime(micros)),
                None => None,
            },
            PrimitiveType::Decimal(ty) => {
                return PrimitiveType::parse_decimal(raw, *ty);
            },
        };
        match value {
            Some(value) => Ok(value),
            None => Err(self.parse_error(raw)),
        }
    }

    /// The decimal of type `ty` that `raw` stands for: digits with or without a point and an
    /// exponent, which together have exactly the scale of the type.
    pub fn parse_decimal(raw: &str, ty: DecimalType) -> (r: Result<Scalar, Error>)
        ensures
            match decimal_bits(raw@, ty) {
                Some(bits) => r matches Ok(Scalar::Decimal(data)) && data.bits_spec() == bits
                    && data.ty_spec() == ty,
                None => is_parse_error(PrimitiveType::Decimal(ty), raw@, r),
            },
    {
        match parse_decimal_bits(to_chars(raw).as_slice(), ty) {
            Some(data) => Ok(Scalar::Decimal(data)),
            None => Err(PrimitiveType::Decimal(ty).parse_error(raw)),
        }
    }

    /// What an empty partition value stands for where it is cast as SQL does: the empty text or the
    /// empty bytes for those types, and nothing for any other.
    pub fn empty_string_partition_cast(&self) -> (r: Option<Scalar>)
        ensures
            match *self {
                PrimitiveType::String => r matches Some(scalar) && scalar@ == ScalarView::String(
                    Seq::empty(),
                ),
                PrimitiveType::Binary => r matches Some(scalar) && scalar@ == ScalarView::Binary(
                    Seq::empty(),
                ),
                _ => r is None,
            },
    {
        match self {
            PrimitiveType::String => Some(Scalar::String(String::new())),
            PrimitiveType::Binary => Some(Scalar::Binary(Vec::new())),
            _ => None,
        }
    }
}

/// The microseconds of a timestamp, from what was read of it without a zone and with an offset.
pub fn resolve_timestamp(
    naive: Option<Option<i64>>,
    with_offset: Option<Option<i64>>,
    adjusted: bool,
) -> (r: Option<i64>)
    ensures
        r == resolved_micros(naive, with_offset, adjusted),
{
    match naive {
        Some(micros) => micros,
        None => if adjusted {
            match with_offset {
                Some(micros) => micros,
                None => None,
            }
        } else {
            None
        },
    }
}

fn read_timestamp(raw: &str, adjusted: bool) -> (r: Option<i64>)
    ensures
        r == timestamp_micros(raw@, adjusted),
{
    let naive: Option<Option<i64>> = parse_naive_date_time(raw, "%Y-%m-%d %H:%M:%S%.f");
    let with_offset: Option<Option<i64>> = if naive.is_none() && adjusted {
        parse_date_time(raw, "%+")
    } else {
        None
    };
    resolve_timestamp(naive, with_offset, adjusted)
}

impl Scalar {
    /// The timestamp, adjusted to UTC, of a number of milliseconds since the Unix epoch; an error
    /// where there is no date for it.
    pub fn timestamp_from_millis(millis: i64) -> (r: DeltaResult<Scalar>)
        ensures
            has_millis(millis as int) ==> (r matches Ok(Scalar::Timestamp(micros)) && micros
                == millis * 1000),
            !has_millis(millis as int) ==> (r matches Err(Error::Generic(message)) && message@
                == "Failed to create millisecond timestamp from "@ + decimal(millis as int)),
    {
        match micros_from_millis(millis) {
            Some(micros) => Ok(Scalar::Timestamp(micros)),
            None => {
                let mut message: String = "Failed to create millisecond timestamp from ".to_owned();
                push_decimal(&mut message, millis as i128);
                Err(Error::Generic(message))
            },
        }
    }
}

} // verus!
