//! Single values: what type they have, how they compare, and arithmetic on them.

use core::cmp::Ordering;

use vstd::prelude::*;
use vstd::std_specs::cmp::PartialEqSpecImpl;

use super::floats::{float32_order, float64_order, Float32, Float64, FloatView};
use super::order::{
    byte_values, codes, int_order, lexical_order, order_bytes, order_i128, order_text, Order,
};
use crate::error::{DeltaResult, Error};
use crate::schema::{
    fields_clone, fields_same, fields_view, ArrayType, DataType, DecimalType, FieldView, MapType,
    PrimitiveType, StructField, StructType, TypeView,
};
use crate::text::{decimal, push_decimal};

verus! {

// ---------------------------------------------------------------------------------------------
// Decimals
// ---------------------------------------------------------------------------------------------

/// How many decimal digits a number has; zero has none.
pub open spec fn digit_count(n: nat) -> nat
    decreases n,
{
    if n == 0 {
        0
    } else {
        1 + digit_count(n / 10)
    }
}

/// The magnitude of a number.
pub open spec fn abs(n: int) -> nat {
    if n < 0 {
        (-n) as nat
    } else {
        n as nat
    }
}

/// How many decimal digits a number has; zero has none. The number with the most, the least 128-bit
/// integer, has 39.
pub fn get_decimal_precision(value: i128) -> (r: u8)
    ensures
        r == digit_count(abs(value as int)),
        r <= 39,
{
    let mut rest: u128 = if value == i128::MIN {
        0x8000_0000_0000_0000_0000_0000_0000_0000
    } else if value < 0 {
        (-value) as u128
    } else {
        value as u128
    };
    let mut count: u8 = 0;
    proof {
        lemma_digit_count_bound(rest as nat, 39);
    }
    while rest > 0
        invariant
            count + digit_count(rest as nat) == digit_count(abs(value as int)),
            digit_count(abs(value as int)) <= 39,
        decreases rest,
    {
        rest = rest / 10;
        count += 1;
    }
    count
}

/// Ten to the power of `n`.
pub open spec fn pow10(n: nat) -> nat
    decreases n,
{
    if n == 0 {
        1
    } else {
        10 * pow10((n - 1) as nat)
    }
}

/// A number below ten to the power of `d` has at most `d` digits.
pub proof fn lemma_digit_count_bound(n: nat, d: nat)
    ensures
        n < pow10(d) <==> digit_count(n) <= d,
        0 < pow10(d),
        d == 39 ==> pow10(d) > 0x8000_0000_0000_0000_0000_0000_0000_0000,
    decreases d,
{
    if d > 0 {
        lemma_digit_count_bound(n / 10, (d - 1) as nat);
    }
    if d == 39 {
        reveal_with_fuel(pow10, 40);
    }
}

/// A decimal number: a whole number and the decimal type that says where its point is. It has no
/// more digits than the type allows.
#[derive(Debug, Clone, Copy, PartialEq, Eq, Structural)]
pub struct DecimalData {
    bits: i128,
    ty: DecimalType,
}

impl DecimalData {
    /// The number without its point.
    pub closed spec fn bits_spec(self) -> i128 {
        self.bits
    }

    /// The decimal type.
    pub closed spec fn ty_spec(self) -> DecimalType {
        self.ty
    }

    /// The decimal with those digits and that type.
    pub closed spec fn of(bits: i128, ty: DecimalType) -> DecimalData {
        DecimalData { bits, ty }
    }

    /// A decimal has the digits and the type that it is made of.
    pub proof fn lemma_of(bits: i128, ty: DecimalType)
        ensures
            DecimalData::of(bits, ty).bits_spec() == bits,
            DecimalData::of(bits, ty).ty_spec() == ty,
    {
    }

    /// The number has no more digits than its type allows.
    #[verifier::type_invariant]
    pub closed spec fn wf(self) -> bool {
        digit_count(abs(self.bits as int)) <= self.ty.precision_spec()
    }

    /// The decimal with those digits, if they are not too many for the type.
    pub fn try_new(bits: i128, ty: DecimalType) -> (r: DeltaResult<DecimalData>)
        ensures
            r is Ok <==> digit_count(abs(bits as int)) <= ty.precision_spec(),
            r matches Ok(data) ==> data == DecimalData::of(bits, ty) && data.bits_spec() == bits
                && data.ty_spec() == ty,
            r matches Err(error) ==> error matches Error::InvalidDecimal(message) && message@
                == "Decimal value "@ + decimal(bits as int) + " exceeds precision "@ + decimal(
                ty.precision_spec() as int,
            ),
    {
        if ty.precision() < get_decimal_precision(bits) {
            let mut message: String = "Decimal value ".to_owned();
            push_decimal(&mut message, bits);
            message.append(" exceeds precision ");
            push_decimal(&mut message, ty.precision() as i128);
            return Err(Error::InvalidDecimal(message));
        }
        Ok(DecimalData { bits, ty })
    }

    /// The number without its point.
    pub fn bits(&self) -> (r: i128)
        ensures
            r == self.bits_spec(),
            digit_count(abs(r as int)) <= self.ty_spec().precision_spec(),
    {
        proof {
            use_type_invariant(self);
        }
        self.bits
    }

    /// The decimal type.
    pub fn ty(&self) -> (r: &DecimalType)
        ensures
            *r == self.ty_spec(),
    {
        &self.ty
    }

    /// How many digits the type allows.
    pub fn precision(&self) -> (r: u8)
        ensures
            r == self.ty_spec().precision_spec(),
    {
        self.ty.precision()
    }

    /// How many digits are after the point.
    pub fn scale(&self) -> (r: u8)
        ensures
            r == self.ty_spec().scale_spec(),
            r <= 38,
    {
        self.ty.scale()
    }

    /// Two decimals are the same when their digits and their types are.
    pub proof fn lemma_ext(self, other: DecimalData)
        requires
            self.bits_spec() == other.bits_spec(),
            self.ty_spec() == other.ty_spec(),
        ensures
            self == other,
    {
    }
}

// ---------------------------------------------------------------------------------------------
// Scalars
// ---------------------------------------------------------------------------------------------

/// A single value, which can be null.
#[derive(Debug)]
pub enum Scalar {
    /// A 32-bit integer.
    Integer(i32),
    /// A 64-bit integer.
    Long(i64),
    /// A 16-bit integer.
    Short(i16),
    /// An 8-bit integer.
    Byte(i8),
    /// A 32-bit floating-point number.
    Float(Float32),
    /// A 64-bit floating-point number.
    Double(Float64),
    /// Text.
    String(String),
    /// True or false.
    Boolean(bool),
    /// Microseconds since the Unix epoch, adjusted to UTC.
    Timestamp(i64),
    /// Microseconds since the Unix epoch, without a time zone.
    TimestampNtz(i64),
    /// A number of months.
    IntervalYearMonth(i32),
    /// A number of microseconds.
    IntervalDayTime(i64),
    /// Days since the Unix epoch.
    Date(i32),
    /// Bytes.
    Binary(Vec<u8>),
    /// A decimal.
    Decimal(DecimalData),
    /// No value, of a type.
    Null(DataType),
    /// A value for each of some fields.
    Struct(StructData),
    /// A list.
    Array(ArrayData),
    /// Values under keys.
    Mapping(MapData),
}

/// A list of values, with its type.
#[derive(Debug)]
pub struct ArrayData {
    pub(crate) tpe: ArrayType,
    pub(crate) elements: Vec<Scalar>,
}

/// Values under keys, with their type.
#[derive(Debug)]
pub struct MapData {
    pub(crate) data_type: MapType,
    pub(crate) pairs: Vec<(Scalar, Scalar)>,
}

/// Values for fields.
#[derive(Debug)]
pub struct StructData {
    pub(crate) fields: Vec<StructField>,
    pub(crate) values: Vec<Scalar>,
}

/// What a scalar is.
#[verifier::ext_equal]
pub enum ScalarView {
    /// A 32-bit integer.
    Integer(i32),
    /// A 64-bit integer.
    Long(i64),
    /// A 16-bit integer.
    Short(i16),
    /// An 8-bit integer.
    Byte(i8),
    /// A 32-bit floating-point number.
    Float(FloatView),
    /// A 64-bit floating-point number.
    Double(FloatView),
    /// Text.
    String(Seq<char>),
    /// True or false.
    Boolean(bool),
    /// Microseconds since the Unix epoch, adjusted to UTC.
    Timestamp(i64),
    /// Microseconds since the Unix epoch, without a time zone.
    TimestampNtz(i64),
    /// A number of months.
    IntervalYearMonth(i32),
    /// A number of microseconds.
    IntervalDayTime(i64),
    /// Days since the Unix epoch.
    Date(i32),
    /// Bytes.
    Binary(Seq<u8>),
    /// A decimal.
    Decimal(DecimalData),
    /// No value, of a type.
    Null(TypeView),
    /// Fields, and a value for each.
    Struct(Seq<FieldView>, Seq<ScalarView>),
    /// The type of a list, and its elements.
    Array(TypeView, Seq<ScalarView>),
    /// The type of values under keys, and the pairs of key and value.
    Mapping(TypeView, Seq<(ScalarView, ScalarView)>),
}

impl Scalar {
    /// What the scalar is.
    pub open spec fn view(&self) -> ScalarView
        decreases self,
    {
        match self {
            Scalar::Integer(v) => ScalarView::Integer(*v),
            Scalar::Long(v) => ScalarView::Long(*v),
            Scalar::Short(v) => ScalarView::Short(*v),
            Scalar::Byte(v) => ScalarView::Byte(*v),
            Scalar::Float(v) => ScalarView::Float(v@),
            Scalar::Double(v) => ScalarView::Double(v@),
            Scalar::String(v) => ScalarView::String(v@),
            Scalar::Boolean(v) => ScalarView::Boolean(*v),
            Scalar::Timestamp(v) => ScalarView::Timestamp(*v),
            Scalar::TimestampNtz(v) => ScalarView::TimestampNtz(*v),
            Scalar::IntervalYearMonth(v) => ScalarView::IntervalYearMonth(*v),
            Scalar::IntervalDayTime(v) => ScalarView::IntervalDayTime(*v),
            Scalar::Date(v) => ScalarView::Date(*v),
            Scalar::Binary(v) => ScalarView::Binary(v@),
            Scalar::Decimal(v) => ScalarView::Decimal(*v),
            Scalar::Null(ty) => ScalarView::Null(ty@),
            Scalar::Struct(data) => data.view(),
            Scalar::Array(data) => data.view(),
            Scalar::Mapping(data) => data.view(),
        }
    }
}

impl ArrayData {
    /// What the list is.
    pub open(crate) spec fn view(&self) -> ScalarView
        decreases self,
    {
        ScalarView::Array(self.tpe@, scalars_view(self.elements@))
    }
}

impl MapData {
    /// What the pairs are.
    pub open(crate) spec fn view(&self) -> ScalarView
        decreases self,
    {
        ScalarView::Mapping(self.data_type@, pairs_view(self.pairs@))
    }
}

impl StructData {
    /// What the fields and values are.
    pub open(crate) spec fn view(&self) -> ScalarView
        decreases self,
    {
        ScalarView::Struct(fields_view(self.fields@), scalars_view(self.values@))
    }
}

/// What some scalars are.
pub open spec fn scalars_view(scalars: Seq<Scalar>) -> Seq<ScalarView>
    decreases scalars,
{
    Seq::new(
        scalars.len(),
        |i: int|
            if 0 <= i < scalars.len() {
                scalars[i].view()
            } else {
                arbitrary()
            },
    )
}

/// What some pairs of scalars are.
pub open spec fn pairs_view(pairs: Seq<(Scalar, Scalar)>) -> Seq<(ScalarView, ScalarView)>
    decreases pairs,
{
    Seq::new(
        pairs.len(),
        |i: int|
            if 0 <= i < pairs.len() {
                (pairs[i].0.view(), pairs[i].1.view())
            } else {
                arbitrary()
            },
    )
}

// ---------------------------------------------------------------------------------------------
// Type and nullness
// ---------------------------------------------------------------------------------------------

impl ScalarView {
    /// The type of the value.
    pub open spec fn data_type(self) -> TypeView {
        match self {
            ScalarView::Integer(_) => TypeView::Primitive(PrimitiveType::Integer),
            ScalarView::Long(_) => TypeView::Primitive(PrimitiveType::Long),
            ScalarView::Short(_) => TypeView::Primitive(PrimitiveType::Short),
            ScalarView::Byte(_) => TypeView::Primitive(PrimitiveType::Byte),
            ScalarView::Float(_) => TypeView::Primitive(PrimitiveType::Float),
            ScalarView::Double(_) => TypeView::Primitive(PrimitiveType::Double),
            ScalarView::String(_) => TypeView::Primitive(PrimitiveType::String),
            ScalarView::Boolean(_) => TypeView::Primitive(PrimitiveType::Boolean),
            ScalarView::Timestamp(_) => TypeView::Primitive(PrimitiveType::Timestamp),
            ScalarView::TimestampNtz(_) => TypeView::Primitive(PrimitiveType::TimestampNtz),
            ScalarView::IntervalYearMonth(_) => TypeView::Primitive(
                PrimitiveType::IntervalYearMonth,
            ),
            ScalarView::IntervalDayTime(_) => TypeView::Primitive(PrimitiveType::IntervalDayTime),
            ScalarView::Date(_) => TypeView::Primitive(PrimitiveType::Date),
            ScalarView::Binary(_) => TypeView::Primitive(PrimitiveType::Binary),
            ScalarView::Decimal(data) => TypeView::Primitive(
                PrimitiveType::Decimal(data.ty_spec()),
            ),
            ScalarView::Null(ty) => ty,
            ScalarView::Struct(fields, _) => TypeView::Struct(fields),
            ScalarView::Array(ty, _) => ty,
            ScalarView::Mapping(ty, _) => ty,
        }
    }
}

impl Scalar {
    /// The type of the value.
    pub fn data_type(&self) -> (r: DataType)
        ensures
            r@ == self@.data_type(),
    {
        match self {
            Scalar::Integer(_) => DataType::Primitive(PrimitiveType::Integer),
            Scalar::Long(_) => DataType::Primitive(PrimitiveType::Long),
            Scalar::Short(_) => DataType::Primitive(PrimitiveType::Short),
            Scalar::Byte(_) => DataType::Primitive(PrimitiveType::Byte),
            Scalar::Float(_) => DataType::Primitive(PrimitiveType::Float),
            Scalar::Double(_) => DataType::Primitive(PrimitiveType::Double),
            Scalar::String(_) => DataType::Primitive(PrimitiveType::String),
            Scalar::Boolean(_) => DataType::Primitive(PrimitiveType::Boolean),
            Scalar::Timestamp(_) => DataType::Primitive(PrimitiveType::Timestamp),
            Scalar::TimestampNtz(_) => DataType::Primitive(PrimitiveType::TimestampNtz),
            Scalar::IntervalYearMonth(_) => DataType::Primitive(PrimitiveType::IntervalYearMonth),
            Scalar::IntervalDayTime(_) => DataType::Primitive(PrimitiveType::IntervalDayTime),
            Scalar::Date(_) => DataType::Primitive(PrimitiveType::Date),
            Scalar::Binary(_) => DataType::Primitive(PrimitiveType::Binary),
            Scalar::Decimal(data) => DataType::Primitive(PrimitiveType::Decimal(*data.ty())),
            Scalar::Null(ty) => ty.clone(),
            Scalar::Struct(data) => DataType::Struct(
                Box::new(StructType { fields: fields_clone(data.fields.as_slice()) }),
            ),
            Scalar::Array(data) => DataType::Array(Box::new(data.tpe.clone())),
            Scalar::Mapping(data) => DataType::Mapping(Box::new(data.data_type.clone())),
        }
    }

    /// Whether there is no value.
    pub fn is_null(&self) -> (r: bool)
        ensures
            r == (self@ is Null),
            r == (self is Null),
    {
        matches!(self, Scalar::Null(_))
    }

    /// No value, of a type.
    pub fn null(data_type: DataType) -> (r: Scalar)
        ensures
            r == Scalar::Null(data_type),
            r@ == ScalarView::Null(data_type@),
    {
        Scalar::Null(data_type)
    }

    /// The decimal with those digits, precision and scale.
    pub fn decimal(bits: i128, precision: u8, scale: u8) -> (r: DeltaResult<Scalar>)
        ensures
            r is Ok <==> DecimalType::valid(precision, scale) && digit_count(abs(bits as int))
                <= precision,
            r matches Ok(scalar) ==> scalar matches Scalar::Decimal(data) && data.bits_spec()
                == bits && data.ty_spec().precision_spec() == precision
                && data.ty_spec().scale_spec() == scale,
            r matches Err(error) ==> error is InvalidDecimal,
    {
        match DecimalType::try_new(precision, scale) {
            Err(error) => Err(error),
            Ok(ty) => match DecimalData::try_new(bits, ty) {
                Err(error) => Err(error),
                Ok(data) => Ok(Scalar::Decimal(data)),
            },
        }
    }
}

impl Clone for Scalar {
    fn clone(&self) -> (r: Scalar)
        ensures
            r@ == self@,
        decreases self,
    {
        match self {
            Scalar::Integer(v) => Scalar::Integer(*v),
            Scalar::Long(v) => Scalar::Long(*v),
            Scalar::Short(v) => Scalar::Short(*v),
            Scalar::Byte(v) => Scalar::Byte(*v),
            Scalar::Float(v) => Scalar::Float(v.clone()),
            Scalar::Double(v) => Scalar::Double(v.clone()),
            Scalar::String(v) => Scalar::String(v.clone()),
            Scalar::Boolean(v) => Scalar::Boolean(*v),
            Scalar::Timestamp(v) => Scalar::Timestamp(*v),
            Scalar::TimestampNtz(v) => Scalar::TimestampNtz(*v),
            Scalar::IntervalYearMonth(v) => Scalar::IntervalYearMonth(*v),
            Scalar::IntervalDayTime(v) => Scalar::IntervalDayTime(*v),
            Scalar::Date(v) => Scalar::Date(*v),
            Scalar::Binary(v) => Scalar::Binary(bytes_clone(v.as_slice())),
            Scalar::Decimal(v) => Scalar::Decimal(*v),
            Scalar::Null(ty) => Scalar::Null(ty.clone()),
            Scalar::Struct(data) => Scalar::Struct(
                StructData {
                    fields: fields_clone(data.fields.as_slice()),
                    values: scalars_clone(data.values.as_slice()),
                },
            ),
            Scalar::Array(data) => Scalar::Array(
                ArrayData {
                    tpe: data.tpe.clone(),
                    elements: scalars_clone(data.elements.as_slice()),
                },
            ),
            Scalar::Mapping(data) => Scalar::Mapping(
                MapData {
                    data_type: data.data_type.clone(),
                    pairs: pairs_clone(data.pairs.as_slice()),
                },
            ),
        }
    }
}

/// Bytes equal to these.
pub fn bytes_clone(bytes: &[u8]) -> (r: Vec<u8>)
    ensures
        r@ == bytes@,
{
    let mut r: Vec<u8> = Vec::new();
    let mut i: usize = 0;
    while i < bytes.len()
        invariant
            i <= bytes.len(),
            r@ == bytes@.take(i as int),
        decreases bytes.len() - i,
    {
        r.push(bytes[i]);
        i += 1;
        assert(bytes@.take(i as int) =~= bytes@.take(i - 1).push(bytes@[i - 1]));
    }
    assert(bytes@.take(i as int) =~= bytes@);
    r
}

/// Scalars equal to these.
pub fn scalars_clone(scalars: &[Scalar]) -> (r: Vec<Scalar>)
    ensures
        scalars_view(r@) == scalars_view(scalars@),
    decreases scalars@,
{
    let mut r: Vec<Scalar> = Vec::new();
    let mut i: usize = 0;
    while i < scalars.len()
        invariant
            i <= scalars.len(),
            r@.len() == i,
            forall|j: int| 0 <= j < i ==> (#[trigger] r@[j])@ == scalars@[j]@,
        decreases scalars.len() - i,
    {
        assert(decreases_to!(scalars@ => scalars@[i as int]));
        r.push(scalars[i].clone());
        i += 1;
    }
    assert(scalars_view(r@) =~= scalars_view(scalars@));
    r
}

/// Pairs equal to these.
fn pairs_clone(pairs: &[(Scalar, Scalar)]) -> (r: Vec<(Scalar, Scalar)>)
    ensures
        pairs_view(r@) == pairs_view(pairs@),
    decreases pairs@,
{
    let mut r: Vec<(Scalar, Scalar)> = Vec::new();
    let mut i: usize = 0;
    while i < pairs.len()
        invariant
            i <= pairs.len(),
            r@.len() == i,
            forall|j: int|
                0 <= j < i ==> (#[trigger] r@[j]).0@ == pairs@[j].0@ && r@[j].1@ == pairs@[j].1@,
        decreases pairs.len() - i,
    {
        assert(decreases_to!(pairs@ => pairs@[i as int]));
        r.push((pairs[i].0.clone(), pairs[i].1.clone()));
        i += 1;
    }
    assert(pairs_view(r@) =~= pairs_view(pairs@));
    r
}

// ---------------------------------------------------------------------------------------------
// Arithmetic
// ---------------------------------------------------------------------------------------------

/// The whole-number types that arithmetic works on.
#[derive(Clone, Copy, PartialEq, Eq, Structural)]
pub enum IntegralKind {
    /// 8 bits.
    Byte,
    /// 16 bits.
    Short,
    /// 32 bits.
    Integer,
    /// 64 bits.
    Long,
}

impl IntegralKind {
    /// The value `n` of this type, if it has one.
    pub open spec fn value(self, n: int) -> Option<ScalarView> {
        match self {
            IntegralKind::Byte => if i8::MIN <= n <= i8::MAX {
                Some(ScalarView::Byte(n as i8))
            } else {
                None
            },
            IntegralKind::Short => if i16::MIN <= n <= i16::MAX {
                Some(ScalarView::Short(n as i16))
            } else {
                None
            },
            IntegralKind::Integer => if i32::MIN <= n <= i32::MAX {
                Some(ScalarView::Integer(n as i32))
            } else {
                None
            },
            IntegralKind::Long => if i64::MIN <= n <= i64::MAX {
                Some(ScalarView::Long(n as i64))
            } else {
                None
            },
        }
    }
}

impl ScalarView {
    /// The whole number that this is, and of which type.
    pub open spec fn integral(self) -> Option<(IntegralKind, int)> {
        match self {
            ScalarView::Byte(v) => Some((IntegralKind::Byte, v as int)),
            ScalarView::Short(v) => Some((IntegralKind::Short, v as int)),
            ScalarView::Integer(v) => Some((IntegralKind::Integer, v as int)),
            ScalarView::Long(v) => Some((IntegralKind::Long, v as int)),
            _ => None,
        }
    }
}

/// The quotient of two numbers, cut off towards zero.
pub open spec fn truncated_quotient(x: int, y: int) -> int
    recommends
        y != 0,
{
    let quotient = abs(x) as int / abs(y) as int;
    if (x < 0) == (y < 0) {
        quotient
    } else {
        -quotient
    }
}

/// The sum of two whole numbers of one type, if there is one of that type.
pub open spec fn sum(a: ScalarView, b: ScalarView) -> Option<ScalarView> {
    match (a.integral(), b.integral()) {
        (Some((kind, x)), Some((other, y))) => if kind == other {
            kind.value(x + y)
        } else {
            None
        },
        _ => None,
    }
}

/// The difference of two whole numbers of one type, if there is one of that type.
pub open spec fn difference(a: ScalarView, b: ScalarView) -> Option<ScalarView> {
    match (a.integral(), b.integral()) {
        (Some((kind, x)), Some((other, y))) => if kind == other {
            kind.value(x - y)
        } else {
            None
        },
        _ => None,
    }
}

/// The product of two whole numbers of one type, if there is one of that type.
pub open spec fn product(a: ScalarView, b: ScalarView) -> Option<ScalarView> {
    match (a.integral(), b.integral()) {
        (Some((kind, x)), Some((other, y))) => if kind == other {
            kind.value(x * y)
        } else {
            None
        },
        _ => None,
    }
}

/// The quotient of two whole numbers of one type, cut off towards zero, if there is one of that
/// type.
pub open spec fn quotient(a: ScalarView, b: ScalarView) -> Option<ScalarView> {
    match (a.integral(), b.integral()) {
        (Some((kind, x)), Some((other, y))) => if kind == other && y != 0 {
            kind.value(truncated_quotient(x, y))
        } else {
            None
        },
        _ => None,
    }
}

/// Whether `r` is the scalar `expected`, or neither is there.
pub open spec fn is_scalar(r: Option<Scalar>, expected: Option<ScalarView>) -> bool {
    match (r, expected) {
        (Some(scalar), Some(view)) => scalar@ == view,
        (None, None) => true,
        _ => false,
    }
}

impl Scalar {
    /// The sum of two whole numbers of one type; `None` for other scalars, and where it does not
    /// fit the type.
    pub fn try_add(&self, other: &Scalar) -> (r: Option<Scalar>)
        ensures
            is_scalar(r, sum(self@, other@)),
    {
        match (self, other) {
            (Scalar::Integer(a), Scalar::Integer(b)) => match a.checked_add(*b) {
                Some(v) => Some(Scalar::Integer(v)),
                None => None,
            },
            (Scalar::Long(a), Scalar::Long(b)) => match a.checked_add(*b) {
                Some(v) => Some(Scalar::Long(v)),
                None => None,
            },
            (Scalar::Short(a), Scalar::Short(b)) => match a.checked_add(*b) {
                Some(v) => Some(Scalar::Short(v)),
                None => None,
            },
            (Scalar::Byte(a), Scalar::Byte(b)) => match a.checked_add(*b) {
                Some(v) => Some(Scalar::Byte(v)),
                None => None,
            },
            _ => None,
        }
    }

    /// The difference of two whole numbers of one type; `None` for other scalars, and where it does
    /// not fit the type.
    pub fn try_sub(&self, other: &Scalar) -> (r: Option<Scalar>)
        ensures
            is_scalar(r, difference(self@, other@)),
    {
        match (self, other) {
            (Scalar::Integer(a), Scalar::Integer(b)) => match a.checked_sub(*b) {
                Some(v) => Some(Scalar::Integer(v)),
                None => None,
            },
            (Scalar::Long(a), Scalar::Long(b)) => match a.checked_sub(*b) {
                Some(v) => Some(Scalar::Long(v)),
                None => None,
            },
            (Scalar::Short(a), Scalar::Short(b)) => match a.checked_sub(*b) {
                Some(v) => Some(Scalar::Short(v)),
                None => None,
            },
            (Scalar::Byte(a), Scalar::Byte(b)) => match a.checked_sub(*b) {
                Some(v) => Some(Scalar::Byte(v)),
                None => None,
            },
            _ => None,
        }
    }

    /// The product of two whole numbers of one type; `None` for other scalars, and where it does not
    /// fit the type.
    pub fn try_mul(&self, other: &Scalar) -> (r: Option<Scalar>)
        ensures
            is_scalar(r, product(self@, other@)),
    {
        match (self, other) {
            (Scalar::Integer(a), Scalar::Integer(b)) => match a.checked_mul(*b) {
                Some(v) => Some(Scalar::Integer(v)),
                None => None,
            },
            (Scalar::Long(a), Scalar::Long(b)) => match a.checked_mul(*b) {
                Some(v) => Some(Scalar::Long(v)),
                None => None,
            },
            (Scalar::Short(a), Scalar::Short(b)) => match a.checked_mul(*b) {
                Some(v) => Some(Scalar::Short(v)),
                None => None,
            },
            (Scalar::Byte(a), Scalar::Byte(b)) => match a.checked_mul(*b) {
                Some(v) => Some(Scalar::Byte(v)),
                None => None,
            },
            _ => None,
        }
    }

    /// The quotient of two whole numbers of one type, cut off towards zero; `None` for other
    /// scalars, for a divisor of zero, and where it does not fit the type.
    pub fn try_div(&self, other: &Scalar) -> (r: Option<Scalar>)
        ensures
            is_scalar(r, quotient(self@, other@)),
    {
        match (self, other) {
            (Scalar::Integer(a), Scalar::Integer(b)) => match a.checked_div(*b) {
                Some(v) => Some(Scalar::Integer(v)),
                None => None,
            },
            (Scalar::Long(a), Scalar::Long(b)) => match a.checked_div(*b) {
                Some(v) => Some(Scalar::Long(v)),
                None => None,
            },
            (Scalar::Short(a), Scalar::Short(b)) => match a.checked_div(*b) {
                Some(v) => Some(Scalar::Short(v)),
                None => None,
            },
            (Scalar::Byte(a), Scalar::Byte(b)) => match a.checked_div(*b) {
                Some(v) => Some(Scalar::Byte(v)),
                None => None,
            },
            _ => None,
        }
    }
}

// ---------------------------------------------------------------------------------------------
// Comparison
// ---------------------------------------------------------------------------------------------

/// How two values compare in SQL: values of one type by their size, text and bytes from the left.
/// Values of different types do not compare, nor do nulls, structs, lists and maps.
pub open spec fn logical_order(a: ScalarView, b: ScalarView) -> Option<Order> {
    match (a, b) {
        (ScalarView::Integer(x), ScalarView::Integer(y)) => Some(int_order(x as int, y as int)),
        (ScalarView::Long(x), ScalarView::Long(y)) => Some(int_order(x as int, y as int)),
        (ScalarView::Short(x), ScalarView::Short(y)) => Some(int_order(x as int, y as int)),
        (ScalarView::Byte(x), ScalarView::Byte(y)) => Some(int_order(x as int, y as int)),
        (ScalarView::Float(x), ScalarView::Float(y)) => float32_order(x, y),
        (ScalarView::Double(x), ScalarView::Double(y)) => float64_order(x, y),
        (ScalarView::String(x), ScalarView::String(y)) => Some(
            lexical_order(codes(x), codes(y)),
        ),
        (ScalarView::Boolean(x), ScalarView::Boolean(y)) => Some(
            int_order(x as int, y as int),
        ),
        (ScalarView::Timestamp(x), ScalarView::Timestamp(y)) => Some(int_order(x as int, y as int)),
        (ScalarView::TimestampNtz(x), ScalarView::TimestampNtz(y)) => Some(
            int_order(x as int, y as int),
        ),
        (ScalarView::IntervalYearMonth(x), ScalarView::IntervalYearMonth(y)) => Some(
            int_order(x as int, y as int),
        ),
        (ScalarView::IntervalDayTime(x), ScalarView::IntervalDayTime(y)) => Some(
            int_order(x as int, y as int),
        ),
        (ScalarView::Date(x), ScalarView::Date(y)) => Some(int_order(x as int, y as int)),
        (ScalarView::Binary(x), ScalarView::Binary(y)) => Some(
            lexical_order(byte_values(x), byte_values(y)),
        ),
        (ScalarView::Decimal(x), ScalarView::Decimal(y)) => if x.ty_spec() == y.ty_spec() {
            Some(int_order(x.bits_spec() as int, y.bits_spec() as int))
        } else {
            None
        },
        _ => None,
    }
}

/// Whether two values are the same, part by part. Floating-point numbers are the same when they
/// compare as equal; nulls are the same when their types are.
pub open spec fn physically_equal(a: ScalarView, b: ScalarView) -> bool
    decreases a,
{
    match (a, b) {
        (ScalarView::Float(x), ScalarView::Float(y)) => float32_order(x, y) == Some(Order::Equal),
        (ScalarView::Double(x), ScalarView::Double(y)) => float64_order(x, y) == Some(
            Order::Equal,
        ),
        (ScalarView::Struct(fields, x), ScalarView::Struct(other, y)) => {
            fields == other && all_physically_equal(x, y)
        },
        (ScalarView::Array(ty, x), ScalarView::Array(other, y)) => {
            ty == other && all_physically_equal(x, y)
        },
        (ScalarView::Mapping(ty, x), ScalarView::Mapping(other, y)) => {
            &&& ty == other
            &&& x.len() == y.len()
            &&& forall|i: int|
                #![trigger x[i], y[i]]
                0 <= i < x.len() ==> physically_equal(x[i].0, y[i].0) && physically_equal(
                    x[i].1,
                    y[i].1,
                )
        },
        _ => a == b,
    }
}

/// Whether two lists hold the same values, part by part.
pub open spec fn all_physically_equal(x: Seq<ScalarView>, y: Seq<ScalarView>) -> bool
    decreases x,
{
    &&& x.len() == y.len()
    &&& forall|i: int|
        #![trigger x[i], y[i]]
        0 <= i < x.len() ==> physically_equal(x[i], y[i])
}

impl Scalar {
    /// How this value compares to another in SQL; `None` where the two do not compare.
    pub fn logical_order(&self, other: &Scalar) -> (r: Option<Order>)
        ensures
            r == logical_order(self@, other@),
    {
        match (self, other) {
            (Scalar::Integer(a), Scalar::Integer(b)) => Some(order_i128(*a as i128, *b as i128)),
            (Scalar::Long(a), Scalar::Long(b)) => Some(order_i128(*a as i128, *b as i128)),
            (Scalar::Short(a), Scalar::Short(b)) => Some(order_i128(*a as i128, *b as i128)),
            (Scalar::Byte(a), Scalar::Byte(b)) => Some(order_i128(*a as i128, *b as i128)),
            (Scalar::Float(a), Scalar::Float(b)) => a.order(b),
            (Scalar::Double(a), Scalar::Double(b)) => a.order(b),
            (Scalar::String(a), Scalar::String(b)) => Some(order_text(a.as_str(), b.as_str())),
            (Scalar::Boolean(a), Scalar::Boolean(b)) => Some(
                if *a == *b {
                    Order::Equal
                } else if *b {
                    Order::Less
                } else {
                    Order::Greater
                },
            ),
            (Scalar::Timestamp(a), Scalar::Timestamp(b)) => Some(
                order_i128(*a as i128, *b as i128),
            ),
            (Scalar::TimestampNtz(a), Scalar::TimestampNtz(b)) => Some(
                order_i128(*a as i128, *b as i128),
            ),
            (Scalar::IntervalYearMonth(a), Scalar::IntervalYearMonth(b)) => Some(
                order_i128(*a as i128, *b as i128),
            ),
            (Scalar::IntervalDayTime(a), Scalar::IntervalDayTime(b)) => Some(
                order_i128(*a as i128, *b as i128),
            ),
            (Scalar::Date(a), Scalar::Date(b)) => Some(order_i128(*a as i128, *b as i128)),
            (Scalar::Binary(a), Scalar::Binary(b)) => Some(
                order_bytes(a.as_slice(), b.as_slice()),
            ),
            (Scalar::Decimal(a), Scalar::Decimal(b)) => if *a.ty() == *b.ty() {
                Some(order_i128(a.bits(), b.bits()))
            } else {
                None
            },
            _ => None,
        }
    }

    /// Whether two values are equal in SQL, where null equals nothing.
    pub fn logical_eq(&self, other: &Scalar) -> (r: bool)
        ensures
            r == (logical_order(self@, other@) == Some(Order::Equal)),
    {
        matches!(self.logical_order(other), Some(Order::Equal))
    }

    /// How this value compares to another in SQL; `None` where the two do not compare.
    pub fn logical_partial_cmp(&self, other: &Scalar) -> (r: Option<Ordering>)
        ensures
            r == match logical_order(self@, other@) {
                Some(Order::Less) => Some(Ordering::Less),
                Some(Order::Equal) => Some(Ordering::Equal),
                Some(Order::Greater) => Some(Ordering::Greater),
                None => None,
            },
    {
        match self.logical_order(other) {
            Some(Order::Less) => Some(Ordering::Less),
            Some(Order::Equal) => Some(Ordering::Equal),
            Some(Order::Greater) => Some(Ordering::Greater),
            None => None,
        }
    }

    /// Whether two values are the same, part by part.
    pub fn physical_eq(&self, other: &Scalar) -> (r: bool)
        ensures
            r == physically_equal(self@, other@),
        decreases self,
    {
        match (self, other) {
            (Scalar::Integer(a), Scalar::Integer(b)) => *a == *b,
            (Scalar::Long(a), Scalar::Long(b)) => *a == *b,
            (Scalar::Short(a), Scalar::Short(b)) => *a == *b,
            (Scalar::Byte(a), Scalar::Byte(b)) => *a == *b,
            (Scalar::Float(a), Scalar::Float(b)) => a.same(b),
            (Scalar::Double(a), Scalar::Double(b)) => a.same(b),
            (Scalar::String(a), Scalar::String(b)) => *a == *b,
            (Scalar::Boolean(a), Scalar::Boolean(b)) => *a == *b,
            (Scalar::Timestamp(a), Scalar::Timestamp(b)) => *a == *b,
            (Scalar::TimestampNtz(a), Scalar::TimestampNtz(b)) => *a == *b,
            (Scalar::IntervalYearMonth(a), Scalar::IntervalYearMonth(b)) => *a == *b,
            (Scalar::IntervalDayTime(a), Scalar::IntervalDayTime(b)) => *a == *b,
            (Scalar::Date(a), Scalar::Date(b)) => *a == *b,
            (Scalar::Binary(a), Scalar::Binary(b)) => bytes_same(a.as_slice(), b.as_slice()),
            (Scalar::Decimal(a), Scalar::Decimal(b)) => *a == *b,
            (Scalar::Null(a), Scalar::Null(b)) => a.same(b),
            (Scalar::Struct(a), Scalar::Struct(b)) => fields_same(
                a.fields.as_slice(),
                b.fields.as_slice(),
            ) && scalars_same(a.values.as_slice(), b.values.as_slice()),
            (Scalar::Array(a), Scalar::Array(b)) => a.tpe.same(&b.tpe) && scalars_same(
                a.elements.as_slice(),
                b.elements.as_slice(),
            ),
            (Scalar::Mapping(a), Scalar::Mapping(b)) => a.data_type.same(&b.data_type)
                && pairs_same(a.pairs.as_slice(), b.pairs.as_slice()),
            _ => false,
        }
    }
}

/// Whether two lists hold the same bytes.
pub fn bytes_same(a: &[u8], b: &[u8]) -> (r: bool)
    ensures
        r == (a@ == b@),
{
    if a.len() != b.len() {
        return false;
    }
    let mut i: usize = 0;
    while i < a.len()
        invariant
            i <= a.len(),
            a.len() == b.len(),
            forall|j: int| 0 <= j < i ==> a@[j] == b@[j],
        decreases a.len() - i,
    {
        if a[i] != b[i] {
            return false;
        }
        i += 1;
    }
    assert(a@ =~= b@);
    true
}

/// Whether two lists hold the same values, part by part.
pub fn scalars_same(a: &[Scalar], b: &[Scalar]) -> (r: bool)
    ensures
        r == all_physically_equal(scalars_view(a@), scalars_view(b@)),
    decreases a@,
{
    if a.len() != b.len() {
        return false;
    }
    let mut i: usize = 0;
    while i < a.len()
        invariant
            i <= a.len(),
            a.len() == b.len(),
            forall|j: int|
                #![trigger scalars_view(a@)[j], scalars_view(b@)[j]]
                0 <= j < i ==> physically_equal(scalars_view(a@)[j], scalars_view(b@)[j]),
        decreases a.len() - i,
    {
        assert(decreases_to!(a@ => a@[i as int]));
        if !a[i].physical_eq(&b[i]) {
            assert(!physically_equal(scalars_view(a@)[i as int], scalars_view(b@)[i as int]));
            return false;
        }
        i += 1;
    }
    true
}

/// Whether two lists hold the same pairs, part by part.
fn pairs_same(a: &[(Scalar, Scalar)], b: &[(Scalar, Scalar)]) -> (r: bool)
    ensures
        r == ({
            let x = pairs_view(a@);
            let y = pairs_view(b@);
            &&& x.len() == y.len()
            &&& forall|i: int|
                #![trigger x[i], y[i]]
                0 <= i < x.len() ==> physically_equal(x[i].0, y[i].0) && physically_equal(
                    x[i].1,
                    y[i].1,
                )
        }),
    decreases a@,
{
    if a.len() != b.len() {
        return false;
    }
    let mut i: usize = 0;
    while i < a.len()
        invariant
            i <= a.len(),
            a.len() == b.len(),
            forall|j: int|
                #![trigger pairs_view(a@)[j], pairs_view(b@)[j]]
                0 <= j < i ==> physically_equal(pairs_view(a@)[j].0, pairs_view(b@)[j].0)
                    && physically_equal(pairs_view(a@)[j].1, pairs_view(b@)[j].1),
        decreases a.len() - i,
    {
        assert(decreases_to!(a@ => a@[i as int]));
        if !a[i].0.physical_eq(&b[i].0) || !a[i].1.physical_eq(&b[i].1) {
            assert(!(physically_equal(pairs_view(a@)[i as int].0, pairs_view(b@)[i as int].0)
                && physically_equal(pairs_view(a@)[i as int].1, pairs_view(b@)[i as int].1)));
            return false;
        }
        i += 1;
    }
    true
}

impl PartialEq for Scalar {
    fn eq(&self, other: &Scalar) -> (r: bool) {
        self.physical_eq(other)
    }
}

impl PartialEqSpecImpl for Scalar {
    open spec fn obeys_eq_spec() -> bool {
        true
    }

    open spec fn eq_spec(&self, other: &Scalar) -> bool {
        physically_equal(self@, other@)
    }
}

} // verus!
