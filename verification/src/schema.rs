//! The data types of table columns.

use vstd::prelude::*;
use vstd::std_specs::cmp::PartialEqSpecImpl;

use crate::error::{DeltaResult, Error};
use crate::text::{decimal, push_decimal, same_text};

verus! {

// ---------------------------------------------------------------------------------------------
// Primitive types
// ---------------------------------------------------------------------------------------------

/// The precision and scale of decimals: at most `precision` digits, `scale` of them after the
/// point.
#[derive(Debug, Clone, Copy, PartialEq, Eq, Structural)]
pub struct DecimalType {
    precision: u8,
    scale: u8,
}

impl DecimalType {
    /// The number of digits.
    pub closed spec fn precision_spec(self) -> u8 {
        self.precision
    }

    /// The number of digits after the point.
    pub closed spec fn scale_spec(self) -> u8 {
        self.scale
    }

    /// There is at least one digit and there are at most 38; no more of them are after the point
    /// than there are.
    pub open spec fn valid(precision: u8, scale: u8) -> bool {
        0 < precision <= 38 && scale <= precision
    }

    /// The type's digits are within the limits.
    #[verifier::type_invariant]
    pub closed spec fn wf(self) -> bool {
        Self::valid(self.precision, self.scale)
    }

    /// The decimal type with that precision and scale.
    pub fn try_new(precision: u8, scale: u8) -> (r: DeltaResult<DecimalType>)
        ensures
            r is Ok <==> Self::valid(precision, scale),
            r matches Ok(ty) ==> ty.precision_spec() == precision && ty.scale_spec() == scale,
            r matches Err(error) ==> error matches Error::InvalidDecimal(message) && message@ == if 0
                < precision <= 38 {
                "scale must be in range 0.."@ + decimal(precision as int) + " inclusive, found: "@
                    + decimal(scale as int)
            } else {
                "precision must be in range 1..38 inclusive, found: "@ + decimal(precision as int)
            },
    {
        if precision == 0 || precision > 38 {
            let mut message: String = "precision must be in range 1..38 inclusive, found: ".to_owned();
            push_decimal(&mut message, precision as i128);
            return Err(Error::InvalidDecimal(message));
        }
        if scale > precision {
            let mut message: String = "scale must be in range 0..".to_owned();
            push_decimal(&mut message, precision as i128);
            message.append(" inclusive, found: ");
            push_decimal(&mut message, scale as i128);
            return Err(Error::InvalidDecimal(message));
        }
        Ok(DecimalType { precision, scale })
    }

    /// The number of digits.
    pub fn precision(&self) -> (r: u8)
        ensures
            r == self.precision_spec(),
            0 < r <= 38,
    {
        proof {
            use_type_invariant(self);
        }
        self.precision
    }

    /// The number of digits after the point.
    pub fn scale(&self) -> (r: u8)
        ensures
            r == self.scale_spec(),
            r <= self.precision_spec() <= 38,
    {
        proof {
            use_type_invariant(self);
        }
        self.scale
    }

    /// Two decimal types are the same when their precision and scale are.
    pub broadcast proof fn lemma_ext(self, other: DecimalType)
        requires
            self.precision_spec() == other.precision_spec(),
            self.scale_spec() == other.scale_spec(),
        ensures
            #![trigger self.precision_spec(), other.precision_spec()]
            self == other,
    {
    }
}

/// A type without parts.
#[derive(Debug, Clone, Copy, PartialEq, Eq, Structural)]
pub enum PrimitiveType {
    /// UTF-8 text.
    String,
    /// A signed 64-bit integer.
    Long,
    /// A signed 32-bit integer.
    Integer,
    /// A signed 16-bit integer.
    Short,
    /// A signed 8-bit integer.
    Byte,
    /// A 32-bit floating-point number.
    Float,
    /// A 64-bit floating-point number.
    Double,
    /// True or false.
    Boolean,
    /// Bytes.
    Binary,
    /// A calendar date.
    Date,
    /// Microseconds since the Unix epoch, adjusted to UTC.
    Timestamp,
    /// Microseconds since the Unix epoch, without a time zone.
    TimestampNtz,
    /// A number of months.
    IntervalYearMonth,
    /// A number of microseconds.
    IntervalDayTime,
    /// No value but null.
    Void,
    /// A decimal.
    Decimal(DecimalType),
}

impl PrimitiveType {
    /// The name of the type in schemas and messages.
    pub open spec fn name_spec(self) -> Seq<char> {
        match self {
            PrimitiveType::String => "string"@,
            PrimitiveType::Long => "long"@,
            PrimitiveType::Integer => "integer"@,
            PrimitiveType::Short => "short"@,
            PrimitiveType::Byte => "byte"@,
            PrimitiveType::Float => "float"@,
            PrimitiveType::Double => "double"@,
            PrimitiveType::Boolean => "boolean"@,
            PrimitiveType::Binary => "binary"@,
            PrimitiveType::Date => "date"@,
            PrimitiveType::Timestamp => "timestamp"@,
            PrimitiveType::TimestampNtz => "timestamp_ntz"@,
            PrimitiveType::IntervalYearMonth => "interval year to month"@,
            PrimitiveType::IntervalDayTime => "interval day to second"@,
            PrimitiveType::Void => "void"@,
            PrimitiveType::Decimal(ty) => "decimal("@ + decimal(ty.precision_spec() as int) + ","@
                + decimal(ty.scale_spec() as int) + ")"@,
        }
    }

    /// The name of the type in schemas and messages.
    pub fn name(&self) -> (r: String)
        ensures
            r@ == self.name_spec(),
    {
        match self {
            PrimitiveType::String => "string".to_owned(),
            PrimitiveType::Long => "long".to_owned(),
            PrimitiveType::Integer => "integer".to_owned(),
            PrimitiveType::Short => "short".to_owned(),
            PrimitiveType::Byte => "byte".to_owned(),
            PrimitiveType::Float => "float".to_owned(),
            PrimitiveType::Double => "double".to_owned(),
            PrimitiveType::Boolean => "boolean".to_owned(),
            PrimitiveType::Binary => "binary".to_owned(),
            PrimitiveType::Date => "date".to_owned(),
            PrimitiveType::Timestamp => "timestamp".to_owned(),
            PrimitiveType::TimestampNtz => "timestamp_ntz".to_owned(),
            PrimitiveType::IntervalYearMonth => "interval year to month".to_owned(),
            PrimitiveType::IntervalDayTime => "interval day to second".to_owned(),
            PrimitiveType::Void => "void".to_owned(),
            PrimitiveType::Decimal(ty) => {
                let mut name: String = "decimal(".to_owned();
                push_decimal(&mut name, ty.precision() as i128);
                name.append(",");
                push_decimal(&mut name, ty.scale() as i128);
                name.append(")");
                name
            },
        }
    }

    /// The decimal type with that precision and scale.
    pub fn decimal(precision: u8, scale: u8) -> (r: DeltaResult<PrimitiveType>)
        ensures
            r is Ok <==> DecimalType::valid(precision, scale),
            r matches Ok(ty) ==> ty is Decimal && ty->0.precision_spec() == precision
                && ty->0.scale_spec() == scale,
            r matches Err(error) ==> error is InvalidDecimal,
    {
        match DecimalType::try_new(precision, scale) {
            Ok(ty) => Ok(PrimitiveType::Decimal(ty)),
            Err(error) => Err(error),
        }
    }
}

// ---------------------------------------------------------------------------------------------
// Field metadata
// ---------------------------------------------------------------------------------------------

/// A value in the metadata of a field.
#[derive(Debug)]
pub enum MetadataValue {
    /// A number.
    Number(i64),
    /// Text.
    String(String),
    /// True or false.
    Boolean(bool),
    /// Any other JSON value, as JSON text.
    Other(String),
}

/// What a metadata value is.
pub enum MetadataView {
    /// A number.
    Number(i64),
    /// Text.
    String(Seq<char>),
    /// True or false.
    Boolean(bool),
    /// Any other JSON value, as JSON text.
    Other(Seq<char>),
}

/// `true` or `false`.
pub open spec fn bool_text(b: bool) -> Seq<char> {
    if b {
        "true"@
    } else {
        "false"@
    }
}

/// `true` or `false`.
pub fn bool_str(b: bool) -> (r: &'static str)
    ensures
        r@ == bool_text(b),
{
    if b {
        "true"
    } else {
        "false"
    }
}

impl MetadataView {
    /// The value as text.
    pub open spec fn text(self) -> Seq<char> {
        match self {
            MetadataView::Number(n) => decimal(n as int),
            MetadataView::String(s) => s,
            MetadataView::Boolean(b) => bool_text(b),
            MetadataView::Other(s) => s,
        }
    }
}

impl View for MetadataValue {
    type V = MetadataView;

    open spec fn view(&self) -> MetadataView {
        match self {
            MetadataValue::Number(n) => MetadataView::Number(*n),
            MetadataValue::String(s) => MetadataView::String(s@),
            MetadataValue::Boolean(b) => MetadataView::Boolean(*b),
            MetadataValue::Other(s) => MetadataView::Other(s@),
        }
    }
}

impl Clone for MetadataValue {
    fn clone(&self) -> (r: MetadataValue)
        ensures
            r@ == self@,
    {
        match self {
            MetadataValue::Number(n) => MetadataValue::Number(*n),
            MetadataValue::String(s) => MetadataValue::String(s.clone()),
            MetadataValue::Boolean(b) => MetadataValue::Boolean(*b),
            MetadataValue::Other(s) => MetadataValue::Other(s.clone()),
        }
    }
}

impl MetadataValue {
    /// The value as text.
    pub fn to_string(&self) -> (r: String)
        ensures
            r@ == self@.text(),
    {
        match self {
            MetadataValue::Number(n) => crate::text::decimal_string(*n as i128),
            MetadataValue::String(s) => s.clone(),
            MetadataValue::Boolean(b) => bool_str(*b).to_owned(),
            MetadataValue::Other(s) => s.clone(),
        }
    }

    /// Whether two values are the same.
    pub fn same(&self, other: &MetadataValue) -> (r: bool)
        ensures
            r == (self@ == other@),
    {
        match (self, other) {
            (MetadataValue::Number(a), MetadataValue::Number(b)) => *a == *b,
            (MetadataValue::String(a), MetadataValue::String(b)) => *a == *b,
            (MetadataValue::Boolean(a), MetadataValue::Boolean(b)) => *a == *b,
            (MetadataValue::Other(a), MetadataValue::Other(b)) => *a == *b,
            _ => false,
        }
    }
}

/// One entry of the metadata of a field.
#[derive(Debug)]
pub struct MetadataEntry {
    /// The entry's key.
    pub key: String,
    /// The entry's value.
    pub value: MetadataValue,
}

/// The value of the first entry with a key.
pub open spec fn metadata_at(entries: Seq<MetadataEntry>, key: Seq<char>) -> Option<MetadataView>
    decreases entries.len(),
{
    if entries.len() == 0 {
        None
    } else if entries.first().key@ == key {
        Some(entries.first().value@)
    } else {
        metadata_at(entries.drop_first(), key)
    }
}

/// The metadata that some entries make up.
pub open spec fn metadata_view(entries: Seq<MetadataEntry>) -> Map<Seq<char>, MetadataView> {
    Map::new(
        |key: Seq<char>| metadata_at(entries, key) is Some,
        |key: Seq<char>| metadata_at(entries, key)->Some_0,
    )
}

/// A key has a value exactly when some entry has the key, and then it is that of the first one.
pub proof fn lemma_metadata_at(entries: Seq<MetadataEntry>, key: Seq<char>)
    ensures
        metadata_at(entries, key) is Some <==> exists|i: int|
            0 <= i < entries.len() && (#[trigger] entries[i]).key@ == key,
    decreases entries.len(),
{
    if entries.len() > 0 {
        let rest = entries.drop_first();
        lemma_metadata_at(rest, key);
        if metadata_at(rest, key) is Some {
            let i = choose|i: int| 0 <= i < rest.len() && (#[trigger] rest[i]).key@ == key;
            assert(entries[i + 1].key@ == key);
        }
        if exists|i: int| 0 <= i < entries.len() && (#[trigger] entries[i]).key@ == key {
            let i = choose|i: int| 0 <= i < entries.len() && (#[trigger] entries[i]).key@ == key;
            if i > 0 {
                assert(rest[i - 1].key@ == key);
            }
        }
    }
}

/// The value of a key, if there is one.
pub fn metadata_get<'a>(entries: &'a [MetadataEntry], key: &str) -> (r: Option<&'a MetadataValue>)
    ensures
        r is Some <==> metadata_at(entries@, key@) is Some,
        r matches Some(value) ==> metadata_at(entries@, key@) == Some(value@),
{
    let mut i: usize = 0;
    assert(entries@.skip(0) =~= entries@);
    while i < entries.len()
        invariant
            i <= entries.len(),
            metadata_at(entries@, key@) == metadata_at(entries@.skip(i as int), key@),
        decreases entries.len() - i,
    {
        assert(entries@.skip(i as int).drop_first() =~= entries@.skip(i + 1));
        if same_text(entries[i].key.as_str(), key) {
            return Some(&entries[i].value);
        }
        i += 1;
    }
    None
}

/// Whether each entry of the first list has, in both, the same value.
fn metadata_within(entries: &[MetadataEntry], other: &[MetadataEntry]) -> (r: bool)
    ensures
        r == forall|i: int|
            #![trigger entries@[i]]
            0 <= i < entries@.len() ==> metadata_at(entries@, entries@[i].key@) == metadata_at(
                other@,
                entries@[i].key@,
            ),
{
    let mut i: usize = 0;
    while i < entries.len()
        invariant
            i <= entries.len(),
            forall|j: int|
                #![trigger entries@[j]]
                0 <= j < i ==> metadata_at(entries@, entries@[j].key@) == metadata_at(
                    other@,
                    entries@[j].key@,
                ),
        decreases entries.len() - i,
    {
        let key: &str = entries[i].key.as_str();
        let same: bool = match (metadata_get(entries, key), metadata_get(other, key)) {
            (Some(a), Some(b)) => a.same(b),
            (None, None) => true,
            _ => false,
        };
        if !same {
            assert(metadata_at(entries@, entries@[i as int].key@) != metadata_at(
                other@,
                entries@[i as int].key@,
            ));
            return false;
        }
        i += 1;
    }
    true
}

/// Whether two lists of entries make up the same metadata.
pub fn metadata_same(a: &[MetadataEntry], b: &[MetadataEntry]) -> (r: bool)
    ensures
        r == (metadata_view(a@) == metadata_view(b@)),
{
    let r: bool = metadata_within(a, b) && metadata_within(b, a);
    proof {
        if r {
            assert forall|key: Seq<char>| metadata_at(a@, key) == metadata_at(b@, key) by {
                lemma_metadata_at(a@, key);
                lemma_metadata_at(b@, key);
                if metadata_at(a@, key) is Some {
                    let i = choose|i: int| 0 <= i < a@.len() && (#[trigger] a@[i]).key@ == key;
                    assert(metadata_at(a@, a@[i].key@) == metadata_at(b@, a@[i].key@));
                } else if metadata_at(b@, key) is Some {
                    let i = choose|i: int| 0 <= i < b@.len() && (#[trigger] b@[i]).key@ == key;
                    assert(metadata_at(b@, b@[i].key@) == metadata_at(a@, b@[i].key@));
                }
            }
            assert(metadata_view(a@) =~= metadata_view(b@));
        }
        if metadata_view(a@) == metadata_view(b@) {
            assert forall|key: Seq<char>| metadata_at(a@, key) == metadata_at(b@, key) by {
                assert(metadata_view(a@).dom().contains(key) == metadata_view(b@).dom().contains(
                    key,
                ));
                assert(metadata_view(a@)[key] == metadata_view(b@)[key]);
            }
        }
    }
    r
}

/// A list of entries equal to this one.
pub fn metadata_clone(entries: &[MetadataEntry]) -> (r: Vec<MetadataEntry>)
    ensures
        metadata_view(r@) == metadata_view(entries@),
        r@.len() == entries@.len(),
        forall|i: int|
            0 <= i < r@.len() ==> (#[trigger] r@[i]).key@ == entries@[i].key@ && r@[i].value@
                == entries@[i].value@,
{
    let mut r: Vec<MetadataEntry> = Vec::new();
    let mut i: usize = 0;
    while i < entries.len()
        invariant
            i <= entries.len(),
            r@.len() == i,
            forall|j: int|
                0 <= j < i ==> (#[trigger] r@[j]).key@ == entries@[j].key@ && r@[j].value@
                    == entries@[j].value@,
        decreases entries.len() - i,
    {
        r.push(MetadataEntry { key: entries[i].key.clone(), value: entries[i].value.clone() });
        i += 1;
    }
    proof {
        assert forall|key: Seq<char>| metadata_at(r@, key) == metadata_at(entries@, key) by {
            lemma_metadata_at_same(r@, entries@, key);
        }
        assert(metadata_view(r@) =~= metadata_view(entries@));
    }
    r
}

proof fn lemma_metadata_at_same(a: Seq<MetadataEntry>, b: Seq<MetadataEntry>, key: Seq<char>)
    requires
        a.len() == b.len(),
        forall|j: int|
            0 <= j < a.len() ==> (#[trigger] a[j]).key@ == b[j].key@ && a[j].value@ == b[j].value@,
    ensures
        metadata_at(a, key) == metadata_at(b, key),
    decreases a.len(),
{
    if a.len() > 0 {
        assert(a[0].key@ == b[0].key@);
        assert forall|j: int| 0 <= j < a.drop_first().len() implies (
        #[trigger] a.drop_first()[j]).key@ == b.drop_first()[j].key@ && a.drop_first()[j].value@
            == b.drop_first()[j].value@ by {
            assert(a[j + 1].key@ == b[j + 1].key@);
        }
        lemma_metadata_at_same(a.drop_first(), b.drop_first(), key);
    }
}

// ---------------------------------------------------------------------------------------------
// Data types
// ---------------------------------------------------------------------------------------------

/// The type of a column, a field or a value.
#[derive(Debug)]
pub enum DataType {
    /// A type without parts.
    Primitive(PrimitiveType),
    /// A list of values of one type.
    Array(Box<ArrayType>),
    /// A value for each of some fields.
    Struct(Box<StructType>),
    /// Values under keys.
    Mapping(Box<MapType>),
    /// Semi-structured data, held in the given fields.
    Variant(Box<StructType>),
}

/// The type of a list.
#[derive(Debug)]
pub struct ArrayType {
    /// The type of the elements.
    pub element_type: DataType,
    /// Whether elements may be null.
    pub contains_null: bool,
}

/// The type of values under keys.
#[derive(Debug)]
pub struct MapType {
    /// The type of the keys.
    pub key_type: DataType,
    /// The type of the values.
    pub value_type: DataType,
    /// Whether values may be null.
    pub value_contains_null: bool,
}

/// A field of a struct.
#[derive(Debug)]
pub struct StructField {
    /// The name of the field.
    pub name: String,
    /// Its type.
    pub data_type: DataType,
    /// Whether its value may be null.
    pub nullable: bool,
    /// Its metadata.
    pub metadata: Vec<MetadataEntry>,
}

/// The type of a struct.
#[derive(Debug)]
pub struct StructType {
    /// The fields, in order.
    pub fields: Vec<StructField>,
}

/// What a data type is.
#[verifier::ext_equal]
pub enum TypeView {
    /// A type without parts.
    Primitive(PrimitiveType),
    /// A list of elements of a type, which may be null or not.
    Array(Box<TypeView>, bool),
    /// A value for each of some fields.
    Struct(Seq<FieldView>),
    /// Keys of a type, values of a type, and whether the values may be null.
    Mapping(Box<TypeView>, Box<TypeView>, bool),
    /// Semi-structured data, held in the given fields.
    Variant(Seq<FieldView>),
}

/// What a field of a struct is.
#[verifier::ext_equal]
pub struct FieldView {
    /// The name of the field.
    pub name: Seq<char>,
    /// Its type.
    pub ty: TypeView,
    /// Whether its value may be null.
    pub nullable: bool,
    /// Its metadata.
    pub metadata: Map<Seq<char>, MetadataView>,
}

impl DataType {
    /// What the type is.
    pub open spec fn view(&self) -> TypeView
        decreases self,
    {
        match self {
            DataType::Primitive(ty) => TypeView::Primitive(*ty),
            DataType::Array(ty) => ty.view(),
            DataType::Struct(ty) => TypeView::Struct(ty.view()),
            DataType::Mapping(ty) => ty.view(),
            DataType::Variant(ty) => TypeView::Variant(ty.view()),
        }
    }
}

impl ArrayType {
    /// What the type is.
    pub open spec fn view(&self) -> TypeView
        decreases self,
    {
        TypeView::Array(Box::new(self.element_type.view()), self.contains_null)
    }
}

impl MapType {
    /// What the type is.
    pub open spec fn view(&self) -> TypeView
        decreases self,
    {
        TypeView::Mapping(
            Box::new(self.key_type.view()),
            Box::new(self.value_type.view()),
            self.value_contains_null,
        )
    }
}

impl StructField {
    /// What the field is.
    pub open spec fn view(&self) -> FieldView
        decreases self,
    {
        FieldView {
            name: self.name@,
            ty: self.data_type.view(),
            nullable: self.nullable,
            metadata: metadata_view(self.metadata@),
        }
    }
}

impl StructType {
    /// What the fields are.
    pub open spec fn view(&self) -> Seq<FieldView>
        decreases self,
    {
        fields_view(self.fields@)
    }
}

/// What some fields are.
pub open spec fn fields_view(fields: Seq<StructField>) -> Seq<FieldView>
    decreases fields,
{
    Seq::new(
        fields.len(),
        |i: int|
            if 0 <= i < fields.len() {
                fields[i].view()
            } else {
                arbitrary()
            },
    )
}

impl TypeView {
    /// The type as text.
    pub open spec fn text(self) -> Seq<char>
        decreases self, 0nat,
    {
        match self {
            TypeView::Primitive(ty) => ty.name_spec(),
            TypeView::Array(element, _) => "array<"@ + element.text() + ">"@,
            TypeView::Struct(fields) => "struct<"@ + fields_text(fields, fields.len()) + ">"@,
            TypeView::Mapping(key, value, _) => "map<"@ + key.text() + ", "@ + value.text() + ">"@,
            TypeView::Variant(_) => "variant"@,
        }
    }

    /// What kind of type it is: the name of a primitive type, or which sort of parts it has.
    pub open spec fn kind_name(self) -> Seq<char> {
        match self {
            TypeView::Primitive(ty) => ty.name_spec(),
            TypeView::Array(_, _) => "array"@,
            TypeView::Struct(_) => "struct"@,
            TypeView::Mapping(_, _, _) => "map"@,
            TypeView::Variant(_) => "variant"@,
        }
    }
}

/// The first `n` fields as text.
pub open spec fn fields_text(fields: Seq<FieldView>, n: nat) -> Seq<char>
    decreases fields, n,
{
    if n == 0 || n > fields.len() {
        Seq::empty()
    } else {
        let before = if n == 1 {
            Seq::empty()
        } else {
            fields_text(fields, (n - 1) as nat) + ", "@
        };
        before + fields[n - 1].name + ": "@ + fields[n - 1].ty.text()
    }
}

impl Clone for DataType {
    fn clone(&self) -> (r: DataType)
        ensures
            r@ == self@,
        decreases self,
    {
        match self {
            DataType::Primitive(ty) => DataType::Primitive(*ty),
            DataType::Array(ty) => DataType::Array(Box::new((**ty).clone())),
            DataType::Struct(ty) => DataType::Struct(Box::new((**ty).clone())),
            DataType::Mapping(ty) => DataType::Mapping(Box::new((**ty).clone())),
            DataType::Variant(ty) => DataType::Variant(Box::new((**ty).clone())),
        }
    }
}

impl DataType {
    /// The primitive type as a data type.
    pub fn primitive(ty: PrimitiveType) -> (r: DataType)
        ensures
            r@ == TypeView::Primitive(ty),
    {
        DataType::Primitive(ty)
    }

    /// The decimal type with that precision and scale.
    pub fn decimal(precision: u8, scale: u8) -> (r: DeltaResult<DataType>)
        ensures
            r is Ok <==> DecimalType::valid(precision, scale),
            r matches Ok(ty) ==> ty matches DataType::Primitive(PrimitiveType::Decimal(d))
                && d.precision_spec() == precision && d.scale_spec() == scale,
            r matches Err(error) ==> error is InvalidDecimal,
    {
        match PrimitiveType::decimal(precision, scale) {
            Ok(ty) => Ok(DataType::Primitive(ty)),
            Err(error) => Err(error),
        }
    }

    /// Whether two types are the same.
    pub fn same(&self, other: &DataType) -> (r: bool)
        ensures
            r == (self@ == other@),
        decreases self,
    {
        match (self, other) {
            (DataType::Primitive(a), DataType::Primitive(b)) => *a == *b,
            (DataType::Array(a), DataType::Array(b)) => a.same(b),
            (DataType::Struct(a), DataType::Struct(b)) => a.same(b),
            (DataType::Mapping(a), DataType::Mapping(b)) => a.same(b),
            (DataType::Variant(a), DataType::Variant(b)) => a.same(b),
            _ => false,
        }
    }

    /// The type as text.
    pub fn to_string(&self) -> (r: String)
        ensures
            r@ == self@.text(),
        decreases self,
    {
        match self {
            DataType::Primitive(ty) => ty.name(),
            DataType::Array(ty) => {
                let mut text: String = "array<".to_owned();
                text.append(ty.element_type.to_string().as_str());
                text.append(">");
                text
            },
            DataType::Struct(ty) => {
                let mut text: String = "struct<".to_owned();
                text.append(fields_to_string(ty.fields.as_slice()).as_str());
                text.append(">");
                text
            },
            DataType::Mapping(ty) => {
                let mut text: String = "map<".to_owned();
                text.append(ty.key_type.to_string().as_str());
                text.append(", ");
                text.append(ty.value_type.to_string().as_str());
                text.append(">");
                text
            },
            DataType::Variant(_) => "variant".to_owned(),
        }
    }

    /// What kind of type it is: the name of a primitive type, or which sort of parts it has.
    pub fn kind_name(&self) -> (r: String)
        ensures
            r@ == self@.kind_name(),
    {
        match self {
            DataType::Primitive(ty) => ty.name(),
            DataType::Array(_) => "array".to_owned(),
            DataType::Struct(_) => "struct".to_owned(),
            DataType::Mapping(_) => "map".to_owned(),
            DataType::Variant(_) => "variant".to_owned(),
        }
    }
}

/// Some fields as text.
fn fields_to_string(fields: &[StructField]) -> (r: String)
    ensures
        r@ == fields_text(fields_view(fields@), fields@.len()),
    decreases fields@,
{
    let mut text: String = String::new();
    let mut i: usize = 0;
    while i < fields.len()
        invariant
            i <= fields.len(),
            text@ == fields_text(fields_view(fields@), i as nat),
        decreases fields.len() - i,
    {
        let ghost before = text@;
        if i > 0 {
            text.append(", ");
        }
        text.append(fields[i].name.as_str());
        text.append(": ");
        assert(decreases_to!(fields@ => fields@[i as int]));
        text.append(fields[i].data_type.to_string().as_str());
        i += 1;
        assert(text@ =~= fields_text(fields_view(fields@), i as nat));
    }
    text
}

impl Clone for ArrayType {
    fn clone(&self) -> (r: ArrayType)
        ensures
            r@ == self@,
            r.contains_null == self.contains_null,
            r.element_type@ == self.element_type@,
        decreases self,
    {
        ArrayType { element_type: self.element_type.clone(), contains_null: self.contains_null }
    }
}

impl ArrayType {
    /// The type of lists of `element_type`.
    pub fn new(element_type: DataType, contains_null: bool) -> (r: ArrayType)
        ensures
            r == (ArrayType { element_type, contains_null }),
    {
        ArrayType { element_type, contains_null }
    }

    /// The type of the elements.
    pub fn element_type(&self) -> (r: &DataType)
        ensures
            *r == self.element_type,
    {
        &self.element_type
    }

    /// Whether elements may be null.
    pub fn contains_null(&self) -> (r: bool)
        ensures
            r == self.contains_null,
    {
        self.contains_null
    }

    /// Whether two types are the same.
    pub fn same(&self, other: &ArrayType) -> (r: bool)
        ensures
            r == (self@ == other@),
        decreases self,
    {
        self.contains_null == other.contains_null && self.element_type.same(&other.element_type)
    }
}

impl Clone for MapType {
    fn clone(&self) -> (r: MapType)
        ensures
            r@ == self@,
            r.value_contains_null == self.value_contains_null,
            r.key_type@ == self.key_type@,
            r.value_type@ == self.value_type@,
        decreases self,
    {
        MapType {
            key_type: self.key_type.clone(),
            value_type: self.value_type.clone(),
            value_contains_null: self.value_contains_null,
        }
    }
}

impl MapType {
    /// The type of values of `value_type` under keys of `key_type`.
    pub fn new(key_type: DataType, value_type: DataType, value_contains_null: bool) -> (r: MapType)
        ensures
            r == (MapType { key_type, value_type, value_contains_null }),
    {
        MapType { key_type, value_type, value_contains_null }
    }

    /// The type of the keys.
    pub fn key_type(&self) -> (r: &DataType)
        ensures
            *r == self.key_type,
    {
        &self.key_type
    }

    /// The type of the values.
    pub fn value_type(&self) -> (r: &DataType)
        ensures
            *r == self.value_type,
    {
        &self.value_type
    }

    /// Whether values may be null.
    pub fn value_contains_null(&self) -> (r: bool)
        ensures
            r == self.value_contains_null,
    {
        self.value_contains_null
    }

    /// Whether two types are the same.
    pub fn same(&self, other: &MapType) -> (r: bool)
        ensures
            r == (self@ == other@),
        decreases self,
    {
        self.value_contains_null == other.value_contains_null && self.key_type.same(
            &other.key_type,
        ) && self.value_type.same(&other.value_type)
    }
}

impl Clone for StructField {
    fn clone(&self) -> (r: StructField)
        ensures
            r@ == self@,
        decreases self,
    {
        StructField {
            name: self.name.clone(),
            data_type: self.data_type.clone(),
            nullable: self.nullable,
            metadata: metadata_clone(self.metadata.as_slice()),
        }
    }
}

impl StructField {
    /// A field without metadata.
    pub fn new(name: &str, data_type: DataType, nullable: bool) -> (r: StructField)
        ensures
            r.name@ == name@,
            r.data_type == data_type,
            r.nullable == nullable,
            r.metadata@.len() == 0,
    {
        StructField { name: name.to_owned(), data_type, nullable, metadata: Vec::new() }
    }

    /// A field whose value may be null.
    pub fn nullable(name: &str, data_type: DataType) -> (r: StructField)
        ensures
            r.name@ == name@,
            r.data_type == data_type,
            r.nullable,
            r.metadata@.len() == 0,
    {
        StructField::new(name, data_type, true)
    }

    /// A field whose value may not be null.
    pub fn not_null(name: &str, data_type: DataType) -> (r: StructField)
        ensures
            r.name@ == name@,
            r.data_type == data_type,
            !r.nullable,
            r.metadata@.len() == 0,
    {
        StructField::new(name, data_type, false)
    }

    /// The name of the field.
    pub fn name(&self) -> (r: &str)
        ensures
            r@ == self.name@,
    {
        self.name.as_str()
    }

    /// The type of the field.
    pub fn data_type(&self) -> (r: &DataType)
        ensures
            *r == self.data_type,
    {
        &self.data_type
    }

    /// Whether the field's value may be null.
    pub fn is_nullable(&self) -> (r: bool)
        ensures
            r == self.nullable,
    {
        self.nullable
    }

    /// Whether two fields are the same.
    pub fn same(&self, other: &StructField) -> (r: bool)
        ensures
            r == (self@ == other@),
        decreases self,
    {
        self.name == other.name && self.nullable == other.nullable && self.data_type.same(
            &other.data_type,
        ) && metadata_same(self.metadata.as_slice(), other.metadata.as_slice())
    }
}

/// Fields equal to these.
pub fn fields_clone(fields: &[StructField]) -> (r: Vec<StructField>)
    ensures
        fields_view(r@) == fields_view(fields@),
    decreases fields@,
{
    let mut r: Vec<StructField> = Vec::new();
    let mut i: usize = 0;
    while i < fields.len()
        invariant
            i <= fields.len(),
            r@.len() == i,
            forall|j: int| 0 <= j < i ==> (#[trigger] r@[j])@ == fields@[j]@,
        decreases fields.len() - i,
    {
        assert(decreases_to!(fields@ => fields@[i as int]));
        r.push(fields[i].clone());
        i += 1;
    }
    assert(fields_view(r@) =~= fields_view(fields@));
    r
}

/// Whether two lists hold the same fields.
pub fn fields_same(a: &[StructField], b: &[StructField]) -> (r: bool)
    ensures
        r == (fields_view(a@) == fields_view(b@)),
    decreases a@,
{
    if a.len() != b.len() {
        assert(fields_view(a@).len() != fields_view(b@).len());
        return false;
    }
    let mut i: usize = 0;
    while i < a.len()
        invariant
            i <= a.len(),
            a.len() == b.len(),
            forall|j: int| 0 <= j < i ==> (#[trigger] a@[j])@ == b@[j]@,
        decreases a.len() - i,
    {
        assert(decreases_to!(a@ => a@[i as int]));
        if !a[i].same(&b[i]) {
            assert(fields_view(a@)[i as int] != fields_view(b@)[i as int]);
            return false;
        }
        i += 1;
    }
    assert(fields_view(a@) =~= fields_view(b@));
    true
}

impl Clone for StructType {
    fn clone(&self) -> (r: StructType)
        ensures
            r@ == self@,
        decreases self,
    {
        StructType { fields: fields_clone(self.fields.as_slice()) }
    }
}

impl StructType {
    /// The struct type with those fields.
    pub fn new(fields: Vec<StructField>) -> (r: StructType)
        ensures
            r.fields == fields,
    {
        StructType { fields }
    }

    /// How many fields there are.
    pub fn num_fields(&self) -> (r: usize)
        ensures
            r == self.fields@.len(),
    {
        self.fields.len()
    }

    /// The position of the first field with a name.
    pub open spec fn field_index(self, name: Seq<char>) -> Option<int> {
        field_index_from(self.fields@, name, 0)
    }

    /// The position of the first field with a name, if there is one.
    pub fn index_of(&self, name: &str) -> (r: Option<usize>)
        ensures
            match (r, self.field_index(name@)) {
                (Some(i), Some(j)) => i == j && i < self.fields@.len() && self.fields@[j].name@
                    == name@,
                (None, None) => true,
                _ => false,
            },
    {
        let mut i: usize = 0;
        while i < self.fields.len()
            invariant
                i <= self.fields.len(),
                self.field_index(name@) == field_index_from(self.fields@, name@, i as int),
            decreases self.fields.len() - i,
        {
            if same_text(self.fields[i].name.as_str(), name) {
                return Some(i);
            }
            i += 1;
        }
        None
    }

    /// Whether two types are the same.
    pub fn same(&self, other: &StructType) -> (r: bool)
        ensures
            r == (self@ == other@),
        decreases self,
    {
        fields_same(self.fields.as_slice(), other.fields.as_slice())
    }
}

/// The position of the first field with a name, at or after position `from`.
pub open spec fn field_index_from(
    fields: Seq<StructField>,
    name: Seq<char>,
    from: int,
) -> Option<int>
    decreases fields.len() - from,
{
    if from >= fields.len() {
        None
    } else if fields[from].name@ == name {
        Some(from)
    } else {
        field_index_from(fields, name, from + 1)
    }
}

impl PartialEq for MetadataValue {
    fn eq(&self, other: &MetadataValue) -> (r: bool) {
        self.same(other)
    }
}

impl PartialEqSpecImpl for MetadataValue {
    open spec fn obeys_eq_spec() -> bool {
        true
    }

    open spec fn eq_spec(&self, other: &MetadataValue) -> bool {
        self@ == other@
    }
}

impl PartialEq for DataType {
    fn eq(&self, other: &DataType) -> (r: bool) {
        self.same(other)
    }
}

impl PartialEqSpecImpl for DataType {
    open spec fn obeys_eq_spec() -> bool {
        true
    }

    open spec fn eq_spec(&self, other: &DataType) -> bool {
        self@ == other@
    }
}

impl PartialEq for ArrayType {
    fn eq(&self, other: &ArrayType) -> (r: bool) {
        self.same(other)
    }
}

impl PartialEqSpecImpl for ArrayType {
    open spec fn obeys_eq_spec() -> bool {
        true
    }

    open spec fn eq_spec(&self, other: &ArrayType) -> bool {
        self@ == other@
    }
}

impl PartialEq for MapType {
    fn eq(&self, other: &MapType) -> (r: bool) {
        self.same(other)
    }
}

impl PartialEqSpecImpl for MapType {
    open spec fn obeys_eq_spec() -> bool {
        true
    }

    open spec fn eq_spec(&self, other: &MapType) -> bool {
        self@ == other@
    }
}

impl PartialEq for StructField {
    fn eq(&self, other: &StructField) -> (r: bool) {
        self.same(other)
    }
}

impl PartialEqSpecImpl for StructField {
    open spec fn obeys_eq_spec() -> bool {
        true
    }

    open spec fn eq_spec(&self, other: &StructField) -> bool {
        self@ == other@
    }
}

impl PartialEq for StructType {
    fn eq(&self, other: &StructType) -> (r: bool) {
        self.same(other)
    }
}

impl PartialEqSpecImpl for StructType {
    open spec fn obeys_eq_spec() -> bool {
        true
    }

    open spec fn eq_spec(&self, other: &StructType) -> bool {
        self@ == other@
    }
}

} // verus!
