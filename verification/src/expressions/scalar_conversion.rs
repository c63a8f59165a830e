//! Scalars from Rust values, and Rust values from scalars.

use vstd::prelude::*;
use vstd::std_specs::convert::{FromSpecImpl, TryFromSpecImpl};

use super::floats::{Float32, Float64};
use super::scalars::{
    bytes_clone, pairs_view, scalars_view, ArrayData, DecimalData, MapData, Scalar, ScalarView,
    StructData,
};
use crate::error::{add_scalar_path_context, ConversionView, DeltaResult, Error};
use crate::schema::{
    bool_str, bool_text, ArrayType, DataType, MapType, PrimitiveType, TypeView,
};
use crate::text::{decimal, push_decimal};

verus! {

// ---------------------------------------------------------------------------------------------
// What kind of scalar it is
// ---------------------------------------------------------------------------------------------

impl ScalarView {
    /// What kind of scalar it is, for messages.
    pub open spec fn variant_name(self) -> Seq<char> {
        match self {
            ScalarView::Integer(_) => "integer"@,
            ScalarView::Long(_) => "long"@,
            ScalarView::Short(_) => "short"@,
            ScalarView::Byte(_) => "byte"@,
            ScalarView::Float(_) => "float"@,
            ScalarView::Double(_) => "double"@,
            ScalarView::String(_) => "string"@,
            ScalarView::Boolean(_) => "boolean"@,
            ScalarView::Timestamp(_) => "timestamp"@,
            ScalarView::TimestampNtz(_) => "timestamp_ntz"@,
            ScalarView::IntervalYearMonth(_) => "interval_year_month"@,
            ScalarView::IntervalDayTime(_) => "interval_day_time"@,
            ScalarView::Date(_) => "date"@,
            ScalarView::Binary(_) => "binary"@,
            ScalarView::Decimal(_) => "decimal"@,
            ScalarView::Null(_) => "null"@,
            ScalarView::Struct(_, _) => "struct"@,
            ScalarView::Array(_, _) => "array"@,
            ScalarView::Mapping(_, _) => "map"@,
        }
    }
}

/// Whether an error says that something was expected where a scalar was found.
pub open spec fn is_conversion_error(error: Error, view: ConversionView) -> bool {
    error matches Error::ScalarConversion(inner) && inner@ == view
}

/// What is said of a scalar that is no value of the Rust type `target`.
pub open spec fn mismatch(target: Seq<char>, scalar: ScalarView) -> ConversionView {
    ConversionView { expected: target, actual: scalar.variant_name(), path: Seq::empty() }
}

impl Scalar {
    /// What kind of scalar it is, for messages.
    pub fn variant_name(&self) -> (r: &'static str)
        ensures
            r@ == self@.variant_name(),
    {
        match self {
            Scalar::Integer(_) => "integer",
            Scalar::Long(_) => "long",
            Scalar::Short(_) => "short",
            Scalar::Byte(_) => "byte",
            Scalar::Float(_) => "float",
            Scalar::Double(_) => "double",
            Scalar::String(_) => "string",
            Scalar::Boolean(_) => "boolean",
            Scalar::Timestamp(_) => "timestamp",
            Scalar::TimestampNtz(_) => "timestamp_ntz",
            Scalar::IntervalYearMonth(_) => "interval_year_month",
            Scalar::IntervalDayTime(_) => "interval_day_time",
            Scalar::Date(_) => "date",
            Scalar::Binary(_) => "binary",
            Scalar::Decimal(_) => "decimal",
            Scalar::Null(_) => "null",
            Scalar::Struct(_) => "struct",
            Scalar::Array(_) => "array",
            Scalar::Mapping(_) => "map",
        }
    }

    /// The error for a scalar that is no value of the Rust type `target`.
    pub fn conversion_error(&self, target: &str) -> (r: Error)
        ensures
            is_conversion_error(r, mismatch(target@, self@)),
    {
        Error::scalar_conversion(target, self.variant_name())
    }
}

// ---------------------------------------------------------------------------------------------
// Values that are scalars
// ---------------------------------------------------------------------------------------------

/// A Rust type whose values are scalars of one type, or null where that is allowed.
pub trait ScalarConvert: Sized {
    /// The scalar that a value is.
    spec fn as_scalar(self) -> ScalarView;

    /// The type of the scalars.
    spec fn field_type() -> TypeView;

    /// Whether null is among the scalars.
    spec fn field_nullable() -> bool;

    /// Whether a scalar is one of the values.
    spec fn accepts(scalar: ScalarView) -> bool;

    /// What is said of a scalar that is none of the values.
    spec fn rejection(scalar: ScalarView) -> ConversionView;

    /// Each value is accepted as the scalar that it is, and that scalar has the type of the values.
    proof fn lemma_accepts_own(self)
        ensures
            Self::accepts(self.as_scalar()),
            self.as_scalar().data_type() == Self::field_type(),
            self.as_scalar() is Null ==> Self::field_nullable(),
    ;

    /// The scalar that the value is.
    fn into_scalar(self) -> (r: Scalar)
        ensures
            r@ == self.as_scalar(),
    ;

    /// The type of the scalars.
    fn to_data_type() -> (r: DataType)
        ensures
            r@ == Self::field_type(),
    ;

    /// Whether null is among the scalars.
    fn is_nullable() -> (r: bool)
        ensures
            r == Self::field_nullable(),
    ;

    /// The value that a scalar is.
    fn from_scalar(scalar: Scalar) -> (r: DeltaResult<Self>)
        ensures
            r is Ok <==> Self::accepts(scalar@),
            r matches Ok(value) ==> value.as_scalar() == scalar@,
            r matches Err(error) ==> is_conversion_error(error, Self::rejection(scalar@)),
    ;
}

/// A Rust type whose values are scalars other than null.
pub trait IntoScalar: ScalarConvert {
    /// Null is not among the scalars.
    proof fn lemma_not_null(self)
        ensures
            !(self.as_scalar() is Null),
            !Self::field_nullable(),
            forall|scalar: ScalarView| #[trigger] Self::accepts(scalar) ==> !(scalar is Null),
    ;
}

impl ScalarConvert for i8 {
    open spec fn as_scalar(self) -> ScalarView {
        ScalarView::Byte(self)
    }

    open spec fn field_type() -> TypeView {
        TypeView::Primitive(PrimitiveType::Byte)
    }

    open spec fn field_nullable() -> bool {
        false
    }

    open spec fn accepts(scalar: ScalarView) -> bool {
        scalar is Byte
    }

    open spec fn rejection(scalar: ScalarView) -> ConversionView {
        mismatch("i8"@, scalar)
    }

    proof fn lemma_accepts_own(self) {
    }

    fn into_scalar(self) -> Scalar {
        Scalar::Byte(self)
    }

    fn to_data_type() -> DataType {
        DataType::Primitive(PrimitiveType::Byte)
    }

    fn is_nullable() -> bool {
        false
    }

    fn from_scalar(scalar: Scalar) -> DeltaResult<i8> {
        match scalar {
            Scalar::Byte(value) => Ok(value),
            other => Err(other.conversion_error("i8")),
        }
    }
}

impl IntoScalar for i8 {
    proof fn lemma_not_null(self) {
    }
}

impl ScalarConvert for i16 {
    open spec fn as_scalar(self) -> ScalarView {
        ScalarView::Short(self)
    }

    open spec fn field_type() -> TypeView {
        TypeView::Primitive(PrimitiveType::Short)
    }

    open spec fn field_nullable() -> bool {
        false
    }

    open spec fn accepts(scalar: ScalarView) -> bool {
        scalar is Short
    }

    open spec fn rejection(scalar: ScalarView) -> ConversionView {
        mismatch("i16"@, scalar)
    }

    proof fn lemma_accepts_own(self) {
    }

    fn into_scalar(self) -> Scalar {
        Scalar::Short(self)
    }

    fn to_data_type() -> DataType {
        DataType::Primitive(PrimitiveType::Short)
    }

    fn is_nullable() -> bool {
        false
    }

    fn from_scalar(scalar: Scalar) -> DeltaResult<i16> {
        match scalar {
            Scalar::Short(value) => Ok(value),
            other => Err(other.conversion_error("i16")),
        }
    }
}

impl IntoScalar for i16 {
    proof fn lemma_not_null(self) {
    }
}

impl ScalarConvert for i32 {
    open spec fn as_scalar(self) -> ScalarView {
        ScalarView::Integer(self)
    }

    open spec fn field_type() -> TypeView {
        TypeView::Primitive(PrimitiveType::Integer)
    }

    open spec fn field_nullable() -> bool {
        false
    }

    open spec fn accepts(scalar: ScalarView) -> bool {
        scalar is Integer
    }

    open spec fn rejection(scalar: ScalarView) -> ConversionView {
        mismatch("i32"@, scalar)
    }

    proof fn lemma_accepts_own(self) {
    }

    fn into_scalar(self) -> Scalar {
        Scalar::Integer(self)
    }

    fn to_data_type() -> DataType {
        DataType::Primitive(PrimitiveType::Integer)
    }

    fn is_nullable() -> bool {
        false
    }

    fn from_scalar(scalar: Scalar) -> DeltaResult<i32> {
        match scalar {
            Scalar::Integer(value) => Ok(value),
            other => Err(other.conversion_error("i32")),
        }
    }
}

impl IntoScalar for i32 {
    proof fn lemma_not_null(self) {
    }
}

impl ScalarConvert for i64 {
    open spec fn as_scalar(self) -> ScalarView {
        ScalarView::Long(self)
    }

    open spec fn field_type() -> TypeView {
        TypeView::Primitive(PrimitiveType::Long)
    }

    open spec fn field_nullable() -> bool {
        false
    }

    open spec fn accepts(scalar: ScalarView) -> bool {
        scalar is Long
    }

    open spec fn rejection(scalar: ScalarView) -> ConversionView {
        mismatch("i64"@, scalar)
    }

    proof fn lemma_accepts_own(self) {
    }

    fn into_scalar(self) -> Scalar {
        Scalar::Long(self)
    }

    fn to_data_type() -> DataType {
        DataType::Primitive(PrimitiveType::Long)
    }

    fn is_nullable() -> bool {
        false
    }

    fn from_scalar(scalar: Scalar) -> DeltaResult<i64> {
        match scalar {
            Scalar::Long(value) => Ok(value),
            other => Err(other.conversion_error("i64")),
        }
    }
}

impl IntoScalar for i64 {
    proof fn lemma_not_null(self) {
    }
}

impl ScalarConvert for bool {
    open spec fn as_scalar(self) -> ScalarView {
        ScalarView::Boolean(self)
    }

    open spec fn field_type() -> TypeView {
        TypeView::Primitive(PrimitiveType::Boolean)
    }

    open spec fn field_nullable() -> bool {
        false
    }

    open spec fn accepts(scalar: ScalarView) -> bool {
        scalar is Boolean
    }

    open spec fn rejection(scalar: ScalarView) -> ConversionView {
        mismatch("bool"@, scalar)
    }

    proof fn lemma_accepts_own(self) {
    }

    fn into_scalar(self) -> Scalar {
        Scalar::Boolean(self)
    }

    fn to_data_type() -> DataType {
        DataType::Primitive(PrimitiveType::Boolean)
    }

    fn is_nullable() -> bool {
        false
    }

    fn from_scalar(scalar: Scalar) -> DeltaResult<bool> {
        match scalar {
            Scalar::Boolean(value) => Ok(value),
            other => Err(other.conversion_error("bool")),
        }
    }
}

impl IntoScalar for bool {
    proof fn lemma_not_null(self) {
    }
}

impl ScalarConvert for String {
    open spec fn as_scalar(self) -> ScalarView {
        ScalarView::String(self@)
    }

    open spec fn field_type() -> TypeView {
        TypeView::Primitive(PrimitiveType::String)
    }

    open spec fn field_nullable() -> bool {
        false
    }

    open spec fn accepts(scalar: ScalarView) -> bool {
        scalar is String
    }

    open spec fn rejection(scalar: ScalarView) -> ConversionView {
        mismatch("String"@, scalar)
    }

    proof fn lemma_accepts_own(self) {
    }

    fn into_scalar(self) -> Scalar {
        Scalar::String(self)
    }

    fn to_data_type() -> DataType {
        DataType::Primitive(PrimitiveType::String)
    }

    fn is_nullable() -> bool {
        false
    }

    fn from_scalar(scalar: Scalar) -> DeltaResult<String> {
        match scalar {
            Scalar::String(value) => Ok(value),
            other => Err(other.conversion_error("String")),
        }
    }
}

impl IntoScalar for String {
    proof fn lemma_not_null(self) {
    }
}

impl ScalarConvert for Float32 {
    open spec fn as_scalar(self) -> ScalarView {
        ScalarView::Float(self@)
    }

    open spec fn field_type() -> TypeView {
        TypeView::Primitive(PrimitiveType::Float)
    }

    open spec fn field_nullable() -> bool {
        false
    }

    open spec fn accepts(scalar: ScalarView) -> bool {
        scalar is Float
    }

    open spec fn rejection(scalar: ScalarView) -> ConversionView {
        mismatch("f32"@, scalar)
    }

    proof fn lemma_accepts_own(self) {
    }

    fn into_scalar(self) -> Scalar {
        Scalar::Float(self)
    }

    fn to_data_type() -> DataType {
        DataType::Primitive(PrimitiveType::Float)
    }

    fn is_nullable() -> bool {
        false
    }

    fn from_scalar(scalar: Scalar) -> DeltaResult<Float32> {
        match scalar {
            Scalar::Float(value) => Ok(value),
            other => Err(other.conversion_error("f32")),
        }
    }
}

impl IntoScalar for Float32 {
    proof fn lemma_not_null(self) {
    }
}

impl ScalarConvert for Float64 {
    open spec fn as_scalar(self) -> ScalarView {
        ScalarView::Double(self@)
    }

    open spec fn field_type() -> TypeView {
        TypeView::Primitive(PrimitiveType::Double)
    }

    open spec fn field_nullable() -> bool {
        false
    }

    open spec fn accepts(scalar: ScalarView) -> bool {
        scalar is Double
    }

    open spec fn rejection(scalar: ScalarView) -> ConversionView {
        mismatch("f64"@, scalar)
    }

    proof fn lemma_accepts_own(self) {
    }

    fn into_scalar(self) -> Scalar {
        Scalar::Double(self)
    }

    fn to_data_type() -> DataType {
        DataType::Primitive(PrimitiveType::Double)
    }

    fn is_nullable() -> bool {
        false
    }

    fn from_scalar(scalar: Scalar) -> DeltaResult<Float64> {
        match scalar {
            Scalar::Double(value) => Ok(value),
            other => Err(other.conversion_error("f64")),
        }
    }
}

impl IntoScalar for Float64 {
    proof fn lemma_not_null(self) {
    }
}

/// `bytes::Bytes`, an immutable run of bytes.
#[verifier::external_type_specification]
#[verifier::external_body]
pub struct ExBytes(bytes::Bytes);

/// The bytes that a `bytes::Bytes` holds.
pub uninterp spec fn bytes_held(bytes: bytes::Bytes) -> Seq<u8>;

/// `Vec::<u8>::from(Bytes)` keeps the bytes.
#[verifier::external_body]
fn vec_from_bytes(bytes: bytes::Bytes) -> (r: Vec<u8>)
    ensures
        r@ == bytes_held(bytes),
{
    bytes.into()
}

/// `Bytes::from(Vec<u8>)` keeps the bytes.
#[verifier::external_body]
fn bytes_from_vec(bytes: Vec<u8>) -> (r: bytes::Bytes)
    ensures
        bytes_held(r) == bytes@,
{
    bytes.into()
}

impl ScalarConvert for bytes::Bytes {
    open spec fn as_scalar(self) -> ScalarView {
        ScalarView::Binary(bytes_held(self))
    }

    open spec fn field_type() -> TypeView {
        TypeView::Primitive(PrimitiveType::Binary)
    }

    open spec fn field_nullable() -> bool {
        false
    }

    open spec fn accepts(scalar: ScalarView) -> bool {
        scalar is Binary
    }

    open spec fn rejection(scalar: ScalarView) -> ConversionView {
        mismatch("bytes::Bytes"@, scalar)
    }

    proof fn lemma_accepts_own(self) {
    }

    fn into_scalar(self) -> Scalar {
        Scalar::Binary(vec_from_bytes(self))
    }

    fn to_data_type() -> DataType {
        DataType::Primitive(PrimitiveType::Binary)
    }

    fn is_nullable() -> bool {
        false
    }

    fn from_scalar(scalar: Scalar) -> DeltaResult<bytes::Bytes> {
        match scalar {
            Scalar::Binary(value) => Ok(bytes_from_vec(value)),
            other => Err(other.conversion_error("bytes::Bytes")),
        }
    }
}

impl IntoScalar for bytes::Bytes {
    proof fn lemma_not_null(self) {
    }
}

// ---------------------------------------------------------------------------------------------
// Values that may be null
// ---------------------------------------------------------------------------------------------

impl<T: IntoScalar> ScalarConvert for Option<T> {
    open spec fn as_scalar(self) -> ScalarView {
        match self {
            Some(value) => value.as_scalar(),
            None => ScalarView::Null(T::field_type()),
        }
    }

    open spec fn field_type() -> TypeView {
        T::field_type()
    }

    open spec fn field_nullable() -> bool {
        true
    }

    open spec fn accepts(scalar: ScalarView) -> bool {
        match scalar {
            ScalarView::Null(ty) => ty == T::field_type(),
            _ => T::accepts(scalar),
        }
    }

    open spec fn rejection(scalar: ScalarView) -> ConversionView {
        match scalar {
            ScalarView::Null(ty) => ConversionView {
                expected: T::field_type().kind_name(),
                actual: ty.kind_name(),
                path: Seq::empty(),
            },
            _ => T::rejection(scalar),
        }
    }

    proof fn lemma_accepts_own(self) {
        if let Some(value) = self {
            value.lemma_accepts_own();
            value.lemma_not_null();
        }
    }

    fn into_scalar(self) -> Scalar {
        match self {
            Some(value) => value.into_scalar(),
            None => Scalar::Null(T::to_data_type()),
        }
    }

    fn to_data_type() -> DataType {
        T::to_data_type()
    }

    fn is_nullable() -> bool {
        true
    }

    fn from_scalar(scalar: Scalar) -> DeltaResult<Option<T>> {
        match scalar {
            Scalar::Null(data_type) => {
                let expected: DataType = T::to_data_type();
                if !data_type.same(&expected) {
                    return Err(
                        Error::scalar_conversion(
                            expected.kind_name().as_str(),
                            data_type.kind_name().as_str(),
                        ),
                    );
                }
                Ok(None)
            },
            other => match T::from_scalar(other) {
                Ok(value) => Ok(Some(value)),
                Err(error) => Err(error),
            },
        }
    }
}

// ---------------------------------------------------------------------------------------------
// Lists
// ---------------------------------------------------------------------------------------------

/// The type of a list, for messages.
pub open spec fn list_name(element: TypeView, contains_null: bool) -> Seq<char> {
    "array<"@ + element.kind_name() + ", contains_null="@ + bool_text(contains_null) + ">"@
}

fn list_name_string(element: &DataType, contains_null: bool) -> (r: String)
    ensures
        r@ == list_name(element@, contains_null),
{
    let mut name: String = "array<".to_owned();
    name.append(element.kind_name().as_str());
    name.append(", contains_null=");
    name.append(bool_str(contains_null));
    name.append(">");
    name
}

/// The place of an element in a list, for messages.
pub open spec fn index_name(index: int) -> Seq<char> {
    "["@ + decimal(index) + "]"@
}

fn index_name_string(index: usize) -> (r: String)
    ensures
        r@ == index_name(index as int),
{
    let mut name: String = "[".to_owned();
    push_decimal(&mut name, index as i128);
    name.append("]");
    name
}

/// The position of the first of the elements from `from` on that is no value of `T`.
pub open spec fn first_rejected<T: ScalarConvert>(elements: Seq<ScalarView>, from: int) -> Option<
    int,
>
    decreases elements.len() - from,
{
    if from >= elements.len() {
        None
    } else if !T::accepts(elements[from]) {
        Some(from)
    } else {
        first_rejected::<T>(elements, from + 1)
    }
}

/// The scalars that some values are.
pub open spec fn as_scalars<T: ScalarConvert>(values: Seq<T>) -> Seq<ScalarView> {
    values.map_values(|value: T| value.as_scalar())
}

impl<T: ScalarConvert> ScalarConvert for Vec<T> {
    open spec fn as_scalar(self) -> ScalarView {
        ScalarView::Array(
            TypeView::Array(Box::new(T::field_type()), T::field_nullable()),
            as_scalars(self@),
        )
    }

    open spec fn field_type() -> TypeView {
        TypeView::Array(Box::new(T::field_type()), T::field_nullable())
    }

    open spec fn field_nullable() -> bool {
        false
    }

    open spec fn accepts(scalar: ScalarView) -> bool {
        match scalar {
            ScalarView::Array(ty, elements) => ty == Self::field_type() && first_rejected::<T>(
                elements,
                0,
            ) is None,
            _ => false,
        }
    }

    open spec fn rejection(scalar: ScalarView) -> ConversionView {
        match scalar {
            ScalarView::Array(ty, elements) => if ty != Self::field_type() {
                ConversionView {
                    expected: list_name(T::field_type(), T::field_nullable()),
                    actual: match ty {
                        TypeView::Array(element, contains_null) => list_name(
                            *element,
                            contains_null,
                        ),
                        _ => ty.kind_name(),
                    },
                    path: Seq::empty(),
                }
            } else {
                let index = first_rejected::<T>(elements, 0)->Some_0;
                let inner = T::rejection(elements[index]);
                ConversionView { path: inner.path.push(index_name(index)), ..inner }
            },
            _ => mismatch("ArrayData"@, scalar),
        }
    }

    proof fn lemma_accepts_own(self) {
        lemma_own_elements(self@, 0);
    }

    fn into_scalar(self) -> Scalar {
        Scalar::Array(ArrayData::from_values(self))
    }

    fn to_data_type() -> DataType {
        DataType::Array(Box::new(ArrayType::new(T::to_data_type(), T::is_nullable())))
    }

    fn is_nullable() -> bool {
        false
    }

    fn from_scalar(scalar: Scalar) -> DeltaResult<Vec<T>> {
        let ghost view = scalar@;
        let array: ArrayData = match scalar {
            Scalar::Array(array) => array,
            other => {
                return Err(other.conversion_error("ArrayData"));
            },
        };
        let element: DataType = T::to_data_type();
        let nullable: bool = T::is_nullable();
        if array.tpe.contains_null != nullable || !array.tpe.element_type.same(&element) {
            return Err(
                Error::scalar_conversion(
                    list_name_string(&element, nullable).as_str(),
                    list_name_string(&array.tpe.element_type, array.tpe.contains_null).as_str(),
                ),
            );
        }
        let ghost elements = scalars_view(array.elements@);
        let mut rest: Vec<Scalar> = reversed(array.elements);
        let mut values: Vec<T> = Vec::new();
        let mut index: usize = 0;
        while rest.len() > 0
            invariant
                elements.len() == index + rest@.len(),
                index == values@.len(),
                forall|i: int|
                    0 <= i < rest@.len() ==> (#[trigger] rest@[i])@ == elements[elements.len() - 1
                        - i],
                forall|i: int|
                    0 <= i < index ==> (#[trigger] values@[i]).as_scalar() == elements[i],
                first_rejected::<T>(elements, 0) == first_rejected::<T>(elements, index as int),
                view == scalar@,
                view == ScalarView::Array(Self::field_type(), elements),
                index + rest@.len() <= usize::MAX,
            decreases rest@.len(),
        {
            match rest.pop() {
                Some(element) => {
                    assert(element@ == elements[index as int]);
                    match T::from_scalar(element) {
                        Ok(value) => {
                            values.push(value);
                            index += 1;
                        },
                        Err(error) => {
                            return Err(
                                add_scalar_path_context(error, index_name_string(index).as_str()),
                            );
                        },
                    }
                },
                None => {
                    assert(false);
                },
            }
        }
        assert(as_scalars(values@) =~= elements);
        Ok(values)
    }
}

impl<T: ScalarConvert> IntoScalar for Vec<T> {
    proof fn lemma_not_null(self) {
    }
}

/// Values are accepted as the scalars that they are.
proof fn lemma_own_elements<T: ScalarConvert>(values: Seq<T>, from: int)
    requires
        0 <= from,
    ensures
        first_rejected::<T>(as_scalars(values), from) is None,
    decreases values.len() - from,
{
    if from < values.len() {
        values[from].lemma_accepts_own();
        lemma_own_elements(values, from + 1);
    }
}

/// The scalars in the opposite order.
fn reversed(scalars: Vec<Scalar>) -> (r: Vec<Scalar>)
    ensures
        r@.len() == scalars@.len(),
        forall|i: int|
            0 <= i < r@.len() ==> (#[trigger] r@[i])@ == scalars_view(scalars@)[r@.len() - 1 - i],
        r@.len() <= usize::MAX,
{
    let len: usize = scalars.len();
    let ghost all = scalars@;
    let mut scalars: Vec<Scalar> = scalars;
    let mut r: Vec<Scalar> = Vec::new();
    while r.len() < len
        invariant
            len == all.len(),
            scalars@.len() + r@.len() == len,
            forall|i: int| 0 <= i < scalars@.len() ==> #[trigger] scalars@[i] == all[i],
            forall|i: int| 0 <= i < r@.len() ==> #[trigger] r@[i] == all[len - 1 - i],
        decreases scalars@.len(),
    {
        match scalars.pop() {
            Some(scalar) => {
                r.push(scalar);
            },
            None => {
                assert(false);
            },
        }
    }
    r
}

impl ArrayData {
    /// The list of some values, of the type that goes with them.
    pub fn from_values<T: ScalarConvert>(values: Vec<T>) -> (r: ArrayData)
        ensures
            r@ == values.as_scalar(),
    {
        let ghost all = values@;
        let tpe: ArrayType = ArrayType::new(T::to_data_type(), T::is_nullable());
        let mut values: Vec<T> = values;
        let mut backwards: Vec<Scalar> = Vec::new();
        let len: usize = values.len();
        while backwards.len() < len
            invariant
                len == all.len(),
                values@.len() + backwards@.len() == len,
                forall|i: int| 0 <= i < values@.len() ==> #[trigger] values@[i] == all[i],
                forall|i: int|
                    0 <= i < backwards@.len() ==> (#[trigger] backwards@[i])@ == all[len - 1
                        - i].as_scalar(),
            decreases values@.len(),
        {
            match values.pop() {
                Some(value) => {
                    backwards.push(value.into_scalar());
                },
                None => {
                    assert(false);
                },
            }
        }
        let elements: Vec<Scalar> = reversed(backwards);
        assert(scalars_view(elements@) =~= as_scalars(all));
        ArrayData { tpe, elements }
    }
}

// ---------------------------------------------------------------------------------------------
// Maps
// ---------------------------------------------------------------------------------------------

/// The type of a map, for messages.
pub open spec fn map_name(key: TypeView, value: TypeView, value_contains_null: bool) -> Seq<char> {
    "map<"@ + key.kind_name() + ", "@ + value.kind_name() + ", value_contains_null="@ + bool_text(
        value_contains_null,
    ) + ">"@
}

fn map_name_string(key: &DataType, value: &DataType, value_contains_null: bool) -> (r: String)
    ensures
        r@ == map_name(key@, value@, value_contains_null),
{
    let mut name: String = "map<".to_owned();
    name.append(key.kind_name().as_str());
    name.append(", ");
    name.append(value.kind_name().as_str());
    name.append(", value_contains_null=");
    name.append(bool_str(value_contains_null));
    name.append(">");
    name
}

/// The type of a map from `K` to `V`.
pub open spec fn map_type_of<K: IntoScalar, V: ScalarConvert>() -> TypeView {
    TypeView::Mapping(Box::new(K::field_type()), Box::new(V::field_type()), V::field_nullable())
}

/// The pairs of scalars that some entries are.
pub open spec fn as_pairs<K: IntoScalar, V: ScalarConvert>(entries: Seq<(K, V)>) -> Seq<
    (ScalarView, ScalarView),
> {
    entries.map_values(|entry: (K, V)| (entry.0.as_scalar(), entry.1.as_scalar()))
}

/// What is said of the first of the pairs from `from` on that is no entry of a map from `K` to `V`,
/// if there is one.
pub open spec fn pair_rejection<K: IntoScalar, V: ScalarConvert>(
    pairs: Seq<(ScalarView, ScalarView)>,
    from: int,
) -> Option<ConversionView>
    decreases pairs.len() - from,
{
    if from >= pairs.len() {
        None
    } else if !K::accepts(pairs[from].0) {
        let inner = K::rejection(pairs[from].0);
        Some(
            ConversionView { path: inner.path.push(index_name(from) + ".key"@), ..inner },
        )
    } else if !V::accepts(pairs[from].1) {
        let inner = V::rejection(pairs[from].1);
        Some(
            ConversionView { path: inner.path.push(index_name(from) + ".value"@), ..inner },
        )
    } else {
        pair_rejection::<K, V>(pairs, from + 1)
    }
}

/// What is said of a scalar that is no map from `K` to `V`; nothing of one that is.
pub open spec fn map_rejection<K: IntoScalar, V: ScalarConvert>(scalar: ScalarView) -> Option<
    ConversionView,
> {
    match scalar {
        ScalarView::Mapping(ty, pairs) => if ty != map_type_of::<K, V>() {
            Some(
                ConversionView {
                    expected: map_name(K::field_type(), V::field_type(), V::field_nullable()),
                    actual: match ty {
                        TypeView::Mapping(key, value, contains_null) => map_name(
                            *key,
                            *value,
                            contains_null,
                        ),
                        _ => ty.kind_name(),
                    },
                    path: Seq::empty(),
                },
            )
        } else {
            pair_rejection::<K, V>(pairs, 0)
        },
        _ => Some(mismatch("MapData"@, scalar)),
    }
}

/// The pairs in the opposite order.
fn reversed_pairs(pairs: Vec<(Scalar, Scalar)>) -> (r: Vec<(Scalar, Scalar)>)
    ensures
        r@.len() == pairs@.len(),
        forall|i: int| 0 <= i < r@.len() ==> #[trigger] r@[i] == pairs@[r@.len() - 1 - i],
        r@.len() <= usize::MAX,
{
    let len: usize = pairs.len();
    let ghost all = pairs@;
    let mut pairs: Vec<(Scalar, Scalar)> = pairs;
    let mut r: Vec<(Scalar, Scalar)> = Vec::new();
    while r.len() < len
        invariant
            len == all.len(),
            pairs@.len() + r@.len() == len,
            forall|i: int| 0 <= i < pairs@.len() ==> #[trigger] pairs@[i] == all[i],
            forall|i: int| 0 <= i < r@.len() ==> #[trigger] r@[i] == all[len - 1 - i],
        decreases pairs@.len(),
    {
        match pairs.pop() {
            Some(pair) => {
                r.push(pair);
            },
            None => {
                assert(false);
            },
        }
    }
    r
}

impl MapData {
    /// The map of some entries, of the type that goes with them.
    pub fn from_entries<K: IntoScalar, V: ScalarConvert>(entries: Vec<(K, V)>) -> (r: MapData)
        ensures
            r@ == ScalarView::Mapping(map_type_of::<K, V>(), as_pairs(entries@)),
    {
        let ghost all = entries@;
        let data_type: MapType = MapType::new(
            K::to_data_type(),
            V::to_data_type(),
            V::is_nullable(),
        );
        let mut entries: Vec<(K, V)> = entries;
        let mut backwards: Vec<(Scalar, Scalar)> = Vec::new();
        let len: usize = entries.len();
        while backwards.len() < len
            invariant
                len == all.len(),
                entries@.len() + backwards@.len() == len,
                forall|i: int| 0 <= i < entries@.len() ==> #[trigger] entries@[i] == all[i],
                forall|i: int|
                    0 <= i < backwards@.len() ==> (#[trigger] backwards@[i]).0@ == all[len - 1
                        - i].0.as_scalar() && backwards@[i].1@ == all[len - 1 - i].1.as_scalar(),
            decreases entries@.len(),
        {
            match entries.pop() {
                Some((key, value)) => {
                    backwards.push((key.into_scalar(), value.into_scalar()));
                },
                None => {
                    assert(false);
                },
            }
        }
        let pairs: Vec<(Scalar, Scalar)> = reversed_pairs(backwards);
        assert(pairs_view(pairs@) =~= as_pairs(all));
        MapData { data_type, pairs }
    }

    /// The entries of a map scalar, in its order. Values that may be null are options.
    pub fn entries_from_scalar<K: IntoScalar, V: ScalarConvert>(scalar: Scalar) -> (r: DeltaResult<
        Vec<(K, V)>,
    >)
        ensures
            match map_rejection::<K, V>(scalar@) {
                Some(view) => r matches Err(error) && is_conversion_error(error, view),
                None => r matches Ok(entries) && scalar@ == ScalarView::Mapping(
                    map_type_of::<K, V>(),
                    as_pairs(entries@),
                ),
            },
    {
        let ghost view = scalar@;
        let map: MapData = match scalar {
            Scalar::Mapping(map) => map,
            other => {
                return Err(other.conversion_error("MapData"));
            },
        };
        let key: DataType = K::to_data_type();
        let value: DataType = V::to_data_type();
        let nullable: bool = V::is_nullable();
        if map.data_type.value_contains_null != nullable || !map.data_type.key_type.same(&key)
            || !map.data_type.value_type.same(&value) {
            return Err(
                Error::scalar_conversion(
                    map_name_string(&key, &value, nullable).as_str(),
                    map_name_string(
                        &map.data_type.key_type,
                        &map.data_type.value_type,
                        map.data_type.value_contains_null,
                    ).as_str(),
                ),
            );
        }
        let ghost pairs = pairs_view(map.pairs@);
        let mut rest: Vec<(Scalar, Scalar)> = reversed_pairs(map.pairs);
        let mut entries: Vec<(K, V)> = Vec::new();
        let mut index: usize = 0;
        while rest.len() > 0
            invariant
                pairs.len() == index + rest@.len(),
                index == entries@.len(),
                forall|i: int|
                    0 <= i < rest@.len() ==> (#[trigger] rest@[i]).0@ == pairs[pairs.len() - 1
                        - i].0 && rest@[i].1@ == pairs[pairs.len() - 1 - i].1,
                forall|i: int|
                    0 <= i < index ==> (#[trigger] entries@[i]).0.as_scalar() == pairs[i].0
                        && entries@[i].1.as_scalar() == pairs[i].1,
                pair_rejection::<K, V>(pairs, 0) == pair_rejection::<K, V>(pairs, index as int),
                view == scalar@,
                view == ScalarView::Mapping(map_type_of::<K, V>(), pairs),
                index + rest@.len() <= usize::MAX,
            decreases rest@.len(),
        {
            match rest.pop() {
                Some((key, value)) => {
                    assert(key@ == pairs[index as int].0);
                    assert(value@ == pairs[index as int].1);
                    let key: K = match K::from_scalar(key) {
                        Ok(key) => key,
                        Err(error) => {
                            let mut place: String = index_name_string(index);
                            place.append(".key");
                            return Err(add_scalar_path_context(error, place.as_str()));
                        },
                    };
                    let value: V = match V::from_scalar(value) {
                        Ok(value) => value,
                        Err(error) => {
                            let mut place: String = index_name_string(index);
                            place.append(".value");
                            return Err(add_scalar_path_context(error, place.as_str()));
                        },
                    };
                    entries.push((key, value));
                    index += 1;
                },
                None => {
                    assert(false);
                },
            }
        }
        assert(as_pairs(entries@) =~= pairs);
        Ok(entries)
    }
}

// ---------------------------------------------------------------------------------------------
// The conversions of the standard library
// ---------------------------------------------------------------------------------------------

impl From<i8> for Scalar {
    fn from(value: i8) -> (r: Scalar) {
        Scalar::Byte(value)
    }
}

impl FromSpecImpl<i8> for Scalar {
    open spec fn obeys_from_spec() -> bool {
        true
    }

    open spec fn from_spec(value: i8) -> Scalar {
        Scalar::Byte(value)
    }
}

impl From<i16> for Scalar {
    fn from(value: i16) -> (r: Scalar) {
        Scalar::Short(value)
    }
}

impl FromSpecImpl<i16> for Scalar {
    open spec fn obeys_from_spec() -> bool {
        true
    }

    open spec fn from_spec(value: i16) -> Scalar {
        Scalar::Short(value)
    }
}

impl From<i32> for Scalar {
    fn from(value: i32) -> (r: Scalar) {
        Scalar::Integer(value)
    }
}

impl FromSpecImpl<i32> for Scalar {
    open spec fn obeys_from_spec() -> bool {
        true
    }

    open spec fn from_spec(value: i32) -> Scalar {
        Scalar::Integer(value)
    }
}

impl From<i64> for Scalar {
    fn from(value: i64) -> (r: Scalar) {
        Scalar::Long(value)
    }
}

impl FromSpecImpl<i64> for Scalar {
    open spec fn obeys_from_spec() -> bool {
        true
    }

    open spec fn from_spec(value: i64) -> Scalar {
        Scalar::Long(value)
    }
}

impl From<bool> for Scalar {
    fn from(value: bool) -> (r: Scalar) {
        Scalar::Boolean(value)
    }
}

impl FromSpecImpl<bool> for Scalar {
    open spec fn obeys_from_spec() -> bool {
        true
    }

    open spec fn from_spec(value: bool) -> Scalar {
        Scalar::Boolean(value)
    }
}

impl From<String> for Scalar {
    fn from(value: String) -> (r: Scalar) {
        Scalar::String(value)
    }
}

impl FromSpecImpl<String> for Scalar {
    open spec fn obeys_from_spec() -> bool {
        true
    }

    open spec fn from_spec(value: String) -> Scalar {
        Scalar::String(value)
    }
}

impl From<Float32> for Scalar {
    fn from(value: Float32) -> (r: Scalar) {
        Scalar::Float(value)
    }
}

impl FromSpecImpl<Float32> for Scalar {
    open spec fn obeys_from_spec() -> bool {
        true
    }

    open spec fn from_spec(value: Float32) -> Scalar {
        Scalar::Float(value)
    }
}

impl From<Float64> for Scalar {
    fn from(value: Float64) -> (r: Scalar) {
        Scalar::Double(value)
    }
}

impl FromSpecImpl<Float64> for Scalar {
    open spec fn obeys_from_spec() -> bool {
        true
    }

    open spec fn from_spec(value: Float64) -> Scalar {
        Scalar::Double(value)
    }
}

impl From<Vec<u8>> for Scalar {
    fn from(value: Vec<u8>) -> (r: Scalar) {
        Scalar::Binary(value)
    }
}

impl FromSpecImpl<Vec<u8>> for Scalar {
    open spec fn obeys_from_spec() -> bool {
        true
    }

    open spec fn from_spec(value: Vec<u8>) -> Scalar {
        Scalar::Binary(value)
    }
}

impl From<DecimalData> for Scalar {
    fn from(value: DecimalData) -> (r: Scalar) {
        Scalar::Decimal(value)
    }
}

impl FromSpecImpl<DecimalData> for Scalar {
    open spec fn obeys_from_spec() -> bool {
        true
    }

    open spec fn from_spec(value: DecimalData) -> Scalar {
        Scalar::Decimal(value)
    }
}

impl From<ArrayData> for Scalar {
    fn from(value: ArrayData) -> (r: Scalar) {
        Scalar::Array(value)
    }
}

impl FromSpecImpl<ArrayData> for Scalar {
    open spec fn obeys_from_spec() -> bool {
        true
    }

    open spec fn from_spec(value: ArrayData) -> Scalar {
        Scalar::Array(value)
    }
}

impl From<MapData> for Scalar {
    fn from(value: MapData) -> (r: Scalar) {
        Scalar::Mapping(value)
    }
}

impl FromSpecImpl<MapData> for Scalar {
    open spec fn obeys_from_spec() -> bool {
        true
    }

    open spec fn from_spec(value: MapData) -> Scalar {
        Scalar::Mapping(value)
    }
}

impl From<StructData> for Scalar {
    fn from(value: StructData) -> (r: Scalar) {
        Scalar::Struct(value)
    }
}

impl FromSpecImpl<StructData> for Scalar {
    open spec fn obeys_from_spec() -> bool {
        true
    }

    open spec fn from_spec(value: StructData) -> Scalar {
        Scalar::Struct(value)
    }
}

impl<'a> From<&'a str> for Scalar {
    fn from(value: &'a str) -> (r: Scalar)
        ensures
            r@ == ScalarView::String(value@),
    {
        Scalar::String(value.to_owned())
    }
}

impl<'a> FromSpecImpl<&'a str> for Scalar {
    open spec fn obeys_from_spec() -> bool {
        false
    }

    open spec fn from_spec(value: &'a str) -> Scalar {
        arbitrary()
    }
}

impl<'a> From<&'a [u8]> for Scalar {
    fn from(value: &'a [u8]) -> (r: Scalar)
        ensures
            r@ == ScalarView::Binary(value@),
    {
        Scalar::Binary(bytes_clone(value))
    }
}

impl<'a> FromSpecImpl<&'a [u8]> for Scalar {
    open spec fn obeys_from_spec() -> bool {
        false
    }

    open spec fn from_spec(value: &'a [u8]) -> Scalar {
        arbitrary()
    }
}

impl From<bytes::Bytes> for Scalar {
    fn from(value: bytes::Bytes) -> (r: Scalar)
        ensures
            r@ == ScalarView::Binary(bytes_held(value)),
    {
        Scalar::Binary(vec_from_bytes(value))
    }
}

impl FromSpecImpl<bytes::Bytes> for Scalar {
    open spec fn obeys_from_spec() -> bool {
        false
    }

    open spec fn from_spec(value: bytes::Bytes) -> Scalar {
        arbitrary()
    }
}

impl<T: ScalarConvert> From<Vec<T>> for Scalar {
    fn from(value: Vec<T>) -> (r: Scalar)
        ensures
            r@ == value.as_scalar(),
    {
        value.into_scalar()
    }
}

impl<T: ScalarConvert> FromSpecImpl<Vec<T>> for Scalar {
    open spec fn obeys_from_spec() -> bool {
        false
    }

    open spec fn from_spec(value: Vec<T>) -> Scalar {
        arbitrary()
    }
}

impl<T: IntoScalar> From<Option<T>> for Scalar {
    fn from(value: Option<T>) -> (r: Scalar)
        ensures
            r@ == value.as_scalar(),
    {
        value.into_scalar()
    }
}

impl<T: IntoScalar> FromSpecImpl<Option<T>> for Scalar {
    open spec fn obeys_from_spec() -> bool {
        false
    }

    open spec fn from_spec(value: Option<T>) -> Scalar {
        arbitrary()
    }
}

impl TryFrom<Scalar> for i8 {
    type Error = Error;

    fn try_from(scalar: Scalar) -> (r: Result<i8, Error>)
        ensures
            r is Ok <==> <i8 as ScalarConvert>::accepts(scalar@),
            r matches Ok(value) ==> value.as_scalar() == scalar@,
            r matches Err(error) ==> is_conversion_error(
                error,
                <i8 as ScalarConvert>::rejection(scalar@),
            ),
    {
        <i8 as ScalarConvert>::from_scalar(scalar)
    }
}

impl TryFromSpecImpl<Scalar> for i8 {
    open spec fn obeys_try_from_spec() -> bool {
        false
    }

    open spec fn try_from_spec(scalar: Scalar) -> Result<i8, Error> {
        arbitrary()
    }
}

impl TryFrom<Scalar> for i16 {
    type Error = Error;

    fn try_from(scalar: Scalar) -> (r: Result<i16, Error>)
        ensures
            r is Ok <==> <i16 as ScalarConvert>::accepts(scalar@),
            r matches Ok(value) ==> value.as_scalar() == scalar@,
            r matches Err(error) ==> is_conversion_error(
                error,
                <i16 as ScalarConvert>::rejection(scalar@),
            ),
    {
        <i16 as ScalarConvert>::from_scalar(scalar)
    }
}

impl TryFromSpecImpl<Scalar> for i16 {
    open spec fn obeys_try_from_spec() -> bool {
        false
    }

    open spec fn try_from_spec(scalar: Scalar) -> Result<i16, Error> {
        arbitrary()
    }
}

impl TryFrom<Scalar> for i32 {
    type Error = Error;

    fn try_from(scalar: Scalar) -> (r: Result<i32, Error>)
        ensures
            r is Ok <==> <i32 as ScalarConvert>::accepts(scalar@),
            r matches Ok(value) ==> value.as_scalar() == scalar@,
            r matches Err(error) ==> is_conversion_error(
                error,
                <i32 as ScalarConvert>::rejection(scalar@),
            ),
    {
        <i32 as ScalarConvert>::from_scalar(scalar)
    }
}

impl TryFromSpecImpl<Scalar> for i32 {
    open spec fn obeys_try_from_spec() -> bool {
        false
    }

    open spec fn try_from_spec(scalar: Scalar) -> Result<i32, Error> {
        arbitrary()
    }
}

impl TryFrom<Scalar> for i64 {
    type Error = Error;

    fn try_from(scalar: Scalar) -> (r: Result<i64, Error>)
        ensures
            r is Ok <==> <i64 as ScalarConvert>::accepts(scalar@),
            r matches Ok(value) ==> value.as_scalar() == scalar@,
            r matches Err(error) ==> is_conversion_error(
                error,
                <i64 as ScalarConvert>::rejection(scalar@),
            ),
    {
        <i64 as ScalarConvert>::from_scalar(scalar)
    }
}

impl TryFromSpecImpl<Scalar> for i64 {
    open spec fn obeys_try_from_spec() -> bool {
        false
    }

    open spec fn try_from_spec(scalar: Scalar) -> Result<i64, Error> {
        arbitrary()
    }
}

impl TryFrom<Scalar> for bool {
    type Error = Error;

    fn try_from(scalar: Scalar) -> (r: Result<bool, Error>)
        ensures
            r is Ok <==> <bool as ScalarConvert>::accepts(scalar@),
            r matches Ok(value) ==> value.as_scalar() == scalar@,
            r matches Err(error) ==> is_conversion_error(
                error,
                <bool as ScalarConvert>::rejection(scalar@),
            ),
    {
        <bool as ScalarConvert>::from_scalar(scalar)
    }
}

impl TryFromSpecImpl<Scalar> for bool {
    open spec fn obeys_try_from_spec() -> bool {
        false
    }

    open spec fn try_from_spec(scalar: Scalar) -> Result<bool, Error> {
        arbitrary()
    }
}

impl TryFrom<Scalar> for String {
    type Error = Error;

    fn try_from(scalar: Scalar) -> (r: Result<String, Error>)
        ensures
            r is Ok <==> <String as ScalarConvert>::accepts(scalar@),
            r matches Ok(value) ==> value.as_scalar() == scalar@,
            r matches Err(error) ==> is_conversion_error(
                error,
                <String as ScalarConvert>::rejection(scalar@),
            ),
    {
        <String as ScalarConvert>::from_scalar(scalar)
    }
}

impl TryFromSpecImpl<Scalar> for String {
    open spec fn obeys_try_from_spec() -> bool {
        false
    }

    open spec fn try_from_spec(scalar: Scalar) -> Result<String, Error> {
        arbitrary()
    }
}

impl TryFrom<Scalar> for Float32 {
    type Error = Error;

    fn try_from(scalar: Scalar) -> (r: Result<Float32, Error>)
        ensures
            r is Ok <==> <Float32 as ScalarConvert>::accepts(scalar@),
            r matches Ok(value) ==> value.as_scalar() == scalar@,
            r matches Err(error) ==> is_conversion_error(
                error,
                <Float32 as ScalarConvert>::rejection(scalar@),
            ),
    {
        <Float32 as ScalarConvert>::from_scalar(scalar)
    }
}

impl TryFromSpecImpl<Scalar> for Float32 {
    open spec fn obeys_try_from_spec() -> bool {
        false
    }

    open spec fn try_from_spec(scalar: Scalar) -> Result<Float32, Error> {
        arbitrary()
    }
}

impl TryFrom<Scalar> for Float64 {
    type Error = Error;

    fn try_from(scalar: Scalar) -> (r: Result<Float64, Error>)
        ensures
            r is Ok <==> <Float64 as ScalarConvert>::accepts(scalar@),
            r matches Ok(value) ==> value.as_scalar() == scalar@,
            r matches Err(error) ==> is_conversion_error(
                error,
                <Float64 as ScalarConvert>::rejection(scalar@),
            ),
    {
        <Float64 as ScalarConvert>::from_scalar(scalar)
    }
}

impl TryFromSpecImpl<Scalar> for Float64 {
    open spec fn obeys_try_from_spec() -> bool {
        false
    }

    open spec fn try_from_spec(scalar: Scalar) -> Result<Float64, Error> {
        arbitrary()
    }
}

impl TryFrom<Scalar> for bytes::Bytes {
    type Error = Error;

    fn try_from(scalar: Scalar) -> (r: Result<bytes::Bytes, Error>)
        ensures
            r is Ok <==> <bytes::Bytes as ScalarConvert>::accepts(scalar@),
            r matches Ok(value) ==> value.as_scalar() == scalar@,
            r matches Err(error) ==> is_conversion_error(
                error,
                <bytes::Bytes as ScalarConvert>::rejection(scalar@),
            ),
    {
        <bytes::Bytes as ScalarConvert>::from_scalar(scalar)
    }
}

impl TryFromSpecImpl<Scalar> for bytes::Bytes {
    open spec fn obeys_try_from_spec() -> bool {
        false
    }

    open spec fn try_from_spec(scalar: Scalar) -> Result<bytes::Bytes, Error> {
        arbitrary()
    }
}

impl<T: ScalarConvert> TryFrom<Scalar> for Vec<T> {
    type Error = Error;

    fn try_from(scalar: Scalar) -> (r: Result<Vec<T>, Error>)
        ensures
            r is Ok <==> <Vec<T> as ScalarConvert>::accepts(scalar@),
            r matches Ok(value) ==> value.as_scalar() == scalar@,
            r matches Err(error) ==> is_conversion_error(
                error,
                <Vec<T> as ScalarConvert>::rejection(scalar@),
            ),
    {
        <Vec<T> as ScalarConvert>::from_scalar(scalar)
    }
}

impl<T: ScalarConvert> TryFromSpecImpl<Scalar> for Vec<T> {
    open spec fn obeys_try_from_spec() -> bool {
        false
    }

    open spec fn try_from_spec(scalar: Scalar) -> Result<Vec<T>, Error> {
        arbitrary()
    }
}

impl<T: IntoScalar> TryFrom<Scalar> for Option<T> {
    type Error = Error;

    fn try_from(scalar: Scalar) -> (r: Result<Option<T>, Error>)
        ensures
            r is Ok <==> <Option<T> as ScalarConvert>::accepts(scalar@),
            r matches Ok(value) ==> value.as_scalar() == scalar@,
            r matches Err(error) ==> is_conversion_error(
                error,
                <Option<T> as ScalarConvert>::rejection(scalar@),
            ),
    {
        <Option<T> as ScalarConvert>::from_scalar(scalar)
    }
}

impl<T: IntoScalar> TryFromSpecImpl<Scalar> for Option<T> {
    open spec fn obeys_try_from_spec() -> bool {
        false
    }

    open spec fn try_from_spec(scalar: Scalar) -> Result<Option<T>, Error> {
        arbitrary()
    }
}

impl TryFrom<Scalar> for DecimalData {
    type Error = Error;

    fn try_from(scalar: Scalar) -> (r: Result<DecimalData, Error>)
        ensures
            match scalar {
                Scalar::Decimal(value) => r == Ok::<DecimalData, Error>(value),
                _ => r matches Err(error) && is_conversion_error(
                    error,
                    mismatch("DecimalData"@, scalar@),
                ),
            },
    {
        match scalar {
            Scalar::Decimal(value) => Ok(value),
            other => Err(other.conversion_error("DecimalData")),
        }
    }
}

impl TryFromSpecImpl<Scalar> for DecimalData {
    open spec fn obeys_try_from_spec() -> bool {
        false
    }

    open spec fn try_from_spec(scalar: Scalar) -> Result<DecimalData, Error> {
        arbitrary()
    }
}

impl TryFrom<Scalar> for ArrayData {
    type Error = Error;

    fn try_from(scalar: Scalar) -> (r: Result<ArrayData, Error>)
        ensures
            match scalar {
                Scalar::Array(value) => r == Ok::<ArrayData, Error>(value),
                _ => r matches Err(error) && is_conversion_error(
                    error,
                    mismatch("ArrayData"@, scalar@),
                ),
            },
    {
        match scalar {
            Scalar::Array(value) => Ok(value),
            other => Err(other.conversion_error("ArrayData")),
        }
    }
}

impl TryFromSpecImpl<Scalar> for ArrayData {
    open spec fn obeys_try_from_spec() -> bool {
        false
    }

    open spec fn try_from_spec(scalar: Scalar) -> Result<ArrayData, Error> {
        arbitrary()
    }
}

impl TryFrom<Scalar> for MapData {
    type Error = Error;

    fn try_from(scalar: Scalar) -> (r: Result<MapData, Error>)
        ensures
            match scalar {
                Scalar::Mapping(value) => r == Ok::<MapData, Error>(value),
                _ => r matches Err(error) && is_conversion_error(
                    error,
                    mismatch("MapData"@, scalar@),
                ),
            },
    {
        match scalar {
            Scalar::Mapping(value) => Ok(value),
            other => Err(other.conversion_error("MapData")),
        }
    }
}

impl TryFromSpecImpl<Scalar> for MapData {
    open spec fn obeys_try_from_spec() -> bool {
        false
    }

    open spec fn try_from_spec(scalar: Scalar) -> Result<MapData, Error> {
        arbitrary()
    }
}

impl TryFrom<Scalar> for StructData {
    type Error = Error;

    fn try_from(scalar: Scalar) -> (r: Result<StructData, Error>)
        ensures
            match scalar {
                Scalar::Struct(value) => r == Ok::<StructData, Error>(value),
                _ => r matches Err(error) && is_conversion_error(
                    error,
                    mismatch("StructData"@, scalar@),
                ),
            },
    {
        match scalar {
            Scalar::Struct(value) => Ok(value),
            other => Err(other.conversion_error("StructData")),
        }
    }
}

impl TryFromSpecImpl<Scalar> for StructData {
    open spec fn obeys_try_from_spec() -> bool {
        false
    }

    open spec fn try_from_spec(scalar: Scalar) -> Result<StructData, Error> {
        arbitrary()
    }
}

} // verus!
