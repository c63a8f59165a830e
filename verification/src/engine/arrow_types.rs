//! Arrow's data types, as far as the library looks into them.

use vstd::prelude::*;
use vstd::std_specs::cmp::PartialEqSpecImpl;

use crate::schema::PrimitiveType;
use crate::text::{decimal, push_decimal, same_text};

verus! {

/// The unit that a time is counted in.
#[derive(Debug, Clone, Copy, PartialEq, Eq, Structural)]
pub enum TimeUnit {
    /// Seconds.
    Second,
    /// Milliseconds.
    Millisecond,
    /// Microseconds.
    Microsecond,
    /// Nanoseconds.
    Nanosecond,
}

/// An Arrow data type: which one it is, and how Arrow writes it.
///
/// The text comes with the type from Arrow. It is not derived from the kind, and two types are the
/// same only where both agree.
#[derive(Debug)]
pub struct ArrowDataType {
    /// Which type it is.
    pub kind: ArrowKind,
    /// The type as text.
    pub text: String,
}

/// Which type an Arrow data type is.
#[derive(Debug)]
pub enum ArrowKind {
    /// Nothing but nulls.
    Null,
    /// True or false.
    Boolean,
    /// Signed integers of 8 bits.
    Int8,
    /// Signed integers of 16 bits.
    Int16,
    /// Signed integers of 32 bits.
    Int32,
    /// Signed integers of 64 bits.
    Int64,
    /// Floating-point numbers of 32 bits.
    Float32,
    /// Floating-point numbers of 64 bits.
    Float64,
    /// Times since the Unix epoch, in a time zone or in none.
    Timestamp(TimeUnit, Option<String>),
    /// Days since the Unix epoch.
    Date32,
    /// Decimals of 128 bits, with a precision and a scale.
    Decimal128(u8, i8),
    /// Another numeric or temporal type.
    OtherPrimitive,
    /// Text.
    Utf8,
    /// Text, with offsets of 64 bits.
    LargeUtf8,
    /// Text, in views.
    Utf8View,
    /// Bytes.
    Binary,
    /// Bytes, with offsets of 64 bits.
    LargeBinary,
    /// Bytes, in views.
    BinaryView,
    /// Lists.
    List(Box<ArrowField>),
    /// Lists, with offsets of 64 bits.
    LargeList(Box<ArrowField>),
    /// Lists, in views.
    ListView(Box<ArrowField>),
    /// Lists, in views with offsets of 64 bits.
    LargeListView(Box<ArrowField>),
    /// Structs.
    Struct(Vec<ArrowField>),
    /// Maps, as lists of structs of a key and a value.
    Entries(Box<ArrowField>),
    /// Any other type.
    Other,
}

/// A field of an Arrow type.
#[derive(Debug)]
pub struct ArrowField {
    /// The name of the field.
    pub name: String,
    /// Its type.
    pub data_type: ArrowDataType,
    /// Whether it may be null.
    pub nullable: bool,
    /// Its metadata.
    pub metadata: Vec<ArrowMetadataEntry>,
}

/// One entry of the metadata of a field.
#[derive(Debug)]
pub struct ArrowMetadataEntry {
    /// The entry's key.
    pub key: String,
    /// The entry's value.
    pub value: String,
}

/// What an Arrow data type is.
#[verifier::ext_equal]
pub struct ArrowView {
    /// Which type it is.
    pub kind: ArrowKindView,
    /// The type as text.
    pub text: Seq<char>,
}

/// Which type an Arrow data type is.
#[verifier::ext_equal]
pub enum ArrowKindView {
    /// Nothing but nulls.
    Null,
    /// True or false.
    Boolean,
    /// Signed integers of 8 bits.
    Int8,
    /// Signed integers of 16 bits.
    Int16,
    /// Signed integers of 32 bits.
    Int32,
    /// Signed integers of 64 bits.
    Int64,
    /// Floating-point numbers of 32 bits.
    Float32,
    /// Floating-point numbers of 64 bits.
    Float64,
    /// Times since the Unix epoch, in a time zone or in none.
    Timestamp(TimeUnit, Option<Seq<char>>),
    /// Days since the Unix epoch.
    Date32,
    /// Decimals of 128 bits, with a precision and a scale.
    Decimal128(u8, i8),
    /// Another numeric or temporal type.
    OtherPrimitive,
    /// Text.
    Utf8,
    /// Text, with offsets of 64 bits.
    LargeUtf8,
    /// Text, in views.
    Utf8View,
    /// Bytes.
    Binary,
    /// Bytes, with offsets of 64 bits.
    LargeBinary,
    /// Bytes, in views.
    BinaryView,
    /// Lists.
    List(Box<ArrowFieldView>),
    /// Lists, with offsets of 64 bits.
    LargeList(Box<ArrowFieldView>),
    /// Lists, in views.
    ListView(Box<ArrowFieldView>),
    /// Lists, in views with offsets of 64 bits.
    LargeListView(Box<ArrowFieldView>),
    /// Structs.
    Struct(Seq<ArrowFieldView>),
    /// Maps, as lists of structs of a key and a value.
    Entries(Box<ArrowFieldView>),
    /// Any other type.
    Other,
}

/// What a field of an Arrow type is.
#[verifier::ext_equal]
pub struct ArrowFieldView {
    /// The name of the field.
    pub name: Seq<char>,
    /// Its type.
    pub ty: ArrowView,
    /// Whether it may be null.
    pub nullable: bool,
    /// Its metadata.
    pub metadata: Map<Seq<char>, Seq<char>>,
}

/// The value of the first entry with a key.
pub open spec fn arrow_metadata_at(
    entries: Seq<ArrowMetadataEntry>,
    key: Seq<char>,
) -> Option<Seq<char>>
    decreases entries.len(),
{
    if entries.len() == 0 {
        None
    } else if entries.first().key@ == key {
        Some(entries.first().value@)
    } else {
        arrow_metadata_at(entries.drop_first(), key)
    }
}

/// The metadata that some entries make up.
pub open spec fn arrow_metadata_view(entries: Seq<ArrowMetadataEntry>) -> Map<
    Seq<char>,
    Seq<char>,
> {
    Map::new(
        |key: Seq<char>| arrow_metadata_at(entries, key) is Some,
        |key: Seq<char>| arrow_metadata_at(entries, key)->Some_0,
    )
}

/// A key has a value exactly when some entry has the key.
pub proof fn lemma_arrow_metadata_at(entries: Seq<ArrowMetadataEntry>, key: Seq<char>)
    ensures
        arrow_metadata_at(entries, key) is Some <==> exists|i: int|
            0 <= i < entries.len() && (#[trigger] entries[i]).key@ == key,
    decreases entries.len(),
{
    if entries.len() > 0 {
        let rest = entries.drop_first();
        lemma_arrow_metadata_at(rest, key);
        if arrow_metadata_at(rest, key) is Some {
            let i = choose|i: int| 0 <= i < rest.len() && (#[trigger] rest[i]).key@ == key;
            assert(entries[i + 1].key@ == key);
        }
        if exists|i: int| 0 <= i < entries.len() && (#[trigger] entries[i]).key@ == key {
            let i = choose|i: int| 0 <= i < entries.len() && (#[trigger] entries[i]).key@ == key;
            if i > 0 {
                assert(rest[i - 1].key@ == key);
            }
        }
    }
}

/// The value of a key, if there is one.
pub fn arrow_metadata_get<'a>(entries: &'a [ArrowMetadataEntry], key: &str) -> (r: Option<&'a str>)
    ensures
        r is Some <==> arrow_metadata_at(entries@, key@) is Some,
        r matches Some(value) ==> arrow_metadata_at(entries@, key@) == Some(value@),
{
    let mut i: usize = 0;
    assert(entries@.skip(0) =~= entries@);
    while i < entries.len()
        invariant
            i <= entries.len(),
            arrow_metadata_at(entries@, key@) == arrow_metadata_at(
                entries@.skip(i as int),
                key@,
            ),
        decreases entries.len() - i,
    {
        assert(entries@.skip(i as int).drop_first() =~= entries@.skip(i + 1));
        if same_text(entries[i].key.as_str(), key) {
            return Some(entries[i].value.as_str());
        }
        i += 1;
    }
    None
}

impl ArrowDataType {
    /// What the type is.
    pub open spec fn view(&self) -> ArrowView
        decreases self,
    {
        ArrowView { kind: self.kind.view(), text: self.text@ }
    }
}

impl ArrowKind {
    /// Which type it is.
    pub open spec fn view(&self) -> ArrowKindView
        decreases self,
    {
        match self {
            ArrowKind::Null => ArrowKindView::Null,
            ArrowKind::Boolean => ArrowKindView::Boolean,
            ArrowKind::Int8 => ArrowKindView::Int8,
            ArrowKind::Int16 => ArrowKindView::Int16,
            ArrowKind::Int32 => ArrowKindView::Int32,
            ArrowKind::Int64 => ArrowKindView::Int64,
            ArrowKind::Float32 => ArrowKindView::Float32,
            ArrowKind::Float64 => ArrowKindView::Float64,
            ArrowKind::Timestamp(unit, zone) => ArrowKindView::Timestamp(
                *unit,
                match zone {
                    Some(zone) => Some(zone@),
                    None => None,
                },
            ),
            ArrowKind::Date32 => ArrowKindView::Date32,
            ArrowKind::Decimal128(precision, scale) => ArrowKindView::Decimal128(
                *precision,
                *scale,
            ),
            ArrowKind::OtherPrimitive => ArrowKindView::OtherPrimitive,
            ArrowKind::Utf8 => ArrowKindView::Utf8,
            ArrowKind::LargeUtf8 => ArrowKindView::LargeUtf8,
            ArrowKind::Utf8View => ArrowKindView::Utf8View,
            ArrowKind::Binary => ArrowKindView::Binary,
            ArrowKind::LargeBinary => ArrowKindView::LargeBinary,
            ArrowKind::BinaryView => ArrowKindView::BinaryView,
            ArrowKind::List(field) => ArrowKindView::List(Box::new(field.view())),
            ArrowKind::LargeList(field) => ArrowKindView::LargeList(Box::new(field.view())),
            ArrowKind::ListView(field) => ArrowKindView::ListView(Box::new(field.view())),
            ArrowKind::LargeListView(field) => ArrowKindView::LargeListView(
                Box::new(field.view()),
            ),
            ArrowKind::Struct(fields) => ArrowKindView::Struct(arrow_fields_view(fields@)),
            ArrowKind::Entries(field) => ArrowKindView::Entries(Box::new(field.view())),
            ArrowKind::Other => ArrowKindView::Other,
        }
    }
}

impl ArrowField {
    /// What the field is.
    pub open spec fn view(&self) -> ArrowFieldView
        decreases self,
    {
        ArrowFieldView {
            name: self.name@,
            ty: self.data_type.view(),
            nullable: self.nullable,
            metadata: arrow_metadata_view(self.metadata@),
        }
    }
}

/// What some fields are.
pub open spec fn arrow_fields_view(fields: Seq<ArrowField>) -> Seq<ArrowFieldView>
    decreases fields,
{
    Seq::new(
        fields.len(),
        |i: int|
            if 0 <= i < fields.len() {
                fields[i].view()
            } else {
                arbitrary()
            },
    )
}

/// Whether each entry of the first list has, in both, the same value.
fn arrow_metadata_within(entries: &[ArrowMetadataEntry], other: &[ArrowMetadataEntry]) -> (r: bool)
    ensures
        r == forall|i: int|
            #![trigger entries@[i]]
            0 <= i < entries@.len() ==> arrow_metadata_at(entries@, entries@[i].key@)
                == arrow_metadata_at(other@, entries@[i].key@),
{
    let mut i: usize = 0;
    while i < entries.len()
        invariant
            i <= entries.len(),
            forall|j: int|
                #![trigger entries@[j]]
                0 <= j < i ==> arrow_metadata_at(entries@, entries@[j].key@) == arrow_metadata_at(
                    other@,
                    entries@[j].key@,
                ),
        decreases entries.len() - i,
    {
        let key: &str = entries[i].key.as_str();
        let same: bool = match (arrow_metadata_get(entries, key), arrow_metadata_get(other, key)) {
            (Some(a), Some(b)) => same_text(a, b),
            (None, None) => true,
            _ => false,
        };
        if !same {
            assert(arrow_metadata_at(entries@, entries@[i as int].key@) != arrow_metadata_at(
                other@,
                entries@[i as int].key@,
            ));
            return false;
        }
        i += 1;
    }
    true
}

/// Whether two lists of entries make up the same metadata.
pub fn arrow_metadata_same(a: &[ArrowMetadataEntry], b: &[ArrowMetadataEntry]) -> (r: bool)
    ensures
        r == (arrow_metadata_view(a@) == arrow_metadata_view(b@)),
{
    let r: bool = arrow_metadata_within(a, b) && arrow_metadata_within(b, a);
    proof {
        if r {
            assert forall|key: Seq<char>|
                arrow_metadata_at(a@, key) == arrow_metadata_at(b@, key) by {
                lemma_arrow_metadata_at(a@, key);
                lemma_arrow_metadata_at(b@, key);
                if arrow_metadata_at(a@, key) is Some {
                    let i = choose|i: int| 0 <= i < a@.len() && (#[trigger] a@[i]).key@ == key;
                    assert(arrow_metadata_at(a@, a@[i].key@) == arrow_metadata_at(b@, a@[i].key@));
                } else if arrow_metadata_at(b@, key) is Some {
                    let i = choose|i: int| 0 <= i < b@.len() && (#[trigger] b@[i]).key@ == key;
                    assert(arrow_metadata_at(b@, b@[i].key@) == arrow_metadata_at(a@, b@[i].key@));
                }
            }
            assert(arrow_metadata_view(a@) =~= arrow_metadata_view(b@));
        }
        if arrow_metadata_view(a@) == arrow_metadata_view(b@) {
            assert forall|key: Seq<char>|
                arrow_metadata_at(a@, key) == arrow_metadata_at(b@, key) by {
                assert(arrow_metadata_view(a@).dom().contains(key) == arrow_metadata_view(
                    b@,
                ).dom().contains(key));
                assert(arrow_metadata_view(a@)[key] == arrow_metadata_view(b@)[key]);
            }
        }
    }
    r
}

impl ArrowDataType {
    /// Whether two types are the same.
    pub fn same(&self, other: &ArrowDataType) -> (r: bool)
        ensures
            r == (self@ == other@),
        decreases self,
    {
        same_text(self.text.as_str(), other.text.as_str()) && self.kind.same(&other.kind)
    }
}

impl ArrowKind {
    /// Whether two types are the same.
    pub fn same(&self, other: &ArrowKind) -> (r: bool)
        ensures
            r == (self@ == other@),
        decreases self,
    {
        match (self, other) {
            (ArrowKind::Null, ArrowKind::Null) => true,
            (ArrowKind::Boolean, ArrowKind::Boolean) => true,
            (ArrowKind::Int8, ArrowKind::Int8) => true,
            (ArrowKind::Int16, ArrowKind::Int16) => true,
            (ArrowKind::Int32, ArrowKind::Int32) => true,
            (ArrowKind::Int64, ArrowKind::Int64) => true,
            (ArrowKind::Float32, ArrowKind::Float32) => true,
            (ArrowKind::Float64, ArrowKind::Float64) => true,
            (ArrowKind::Timestamp(unit, zone), ArrowKind::Timestamp(other_unit, other_zone)) => {
                *unit == *other_unit && match (zone, other_zone) {
                    (Some(a), Some(b)) => same_text(a.as_str(), b.as_str()),
                    (None, None) => true,
                    _ => false,
                }
            },
            (ArrowKind::Date32, ArrowKind::Date32) => true,
            (ArrowKind::Decimal128(p, s), ArrowKind::Decimal128(other_p, other_s)) => *p
                == *other_p && *s == *other_s,
            (ArrowKind::OtherPrimitive, ArrowKind::OtherPrimitive) => true,
            (ArrowKind::Utf8, ArrowKind::Utf8) => true,
            (ArrowKind::LargeUtf8, ArrowKind::LargeUtf8) => true,
            (ArrowKind::Utf8View, ArrowKind::Utf8View) => true,
            (ArrowKind::Binary, ArrowKind::Binary) => true,
            (ArrowKind::LargeBinary, ArrowKind::LargeBinary) => true,
            (ArrowKind::BinaryView, ArrowKind::BinaryView) => true,
            (ArrowKind::List(a), ArrowKind::List(b)) => a.same(b),
            (ArrowKind::LargeList(a), ArrowKind::LargeList(b)) => a.same(b),
            (ArrowKind::ListView(a), ArrowKind::ListView(b)) => a.same(b),
            (ArrowKind::LargeListView(a), ArrowKind::LargeListView(b)) => a.same(b),
            (ArrowKind::Struct(a), ArrowKind::Struct(b)) => arrow_fields_same(a, b),
            (ArrowKind::Entries(a), ArrowKind::Entries(b)) => a.same(b),
            (ArrowKind::Other, ArrowKind::Other) => true,
            _ => false,
        }
    }
}

impl ArrowField {
    /// A field without metadata.
    pub fn new(name: &str, data_type: ArrowDataType, nullable: bool) -> (r: ArrowField)
        ensures
            r.name@ == name@,
            r.data_type == data_type,
            r.nullable == nullable,
            r.metadata@.len() == 0,
    {
        ArrowField { name: name.to_owned(), data_type, nullable, metadata: Vec::new() }
    }

    /// Whether two fields are the same.
    pub fn same(&self, other: &ArrowField) -> (r: bool)
        ensures
            r == (self@ == other@),
        decreases self,
    {
        same_text(self.name.as_str(), other.name.as_str()) && self.nullable == other.nullable
            && self.data_type.same(&other.data_type) && arrow_metadata_same(
            self.metadata.as_slice(),
            other.metadata.as_slice(),
        )
    }
}

/// Whether two lists hold the same fields.
pub fn arrow_fields_same(a: &Vec<ArrowField>, b: &Vec<ArrowField>) -> (r: bool)
    ensures
        r == (arrow_fields_view(a@) == arrow_fields_view(b@)),
    decreases a,
{
    if a.len() != b.len() {
        assert(arrow_fields_view(a@).len() != arrow_fields_view(b@).len());
        return false;
    }
    let mut i: usize = 0;
    while i < a.len()
        invariant
            i <= a.len(),
            a.len() == b.len(),
            forall|j: int| 0 <= j < i ==> (#[trigger] a@[j])@ == b@[j]@,
        decreases a.len() - i,
    {
        assert(decreases_to!(a => a@ ));
        assert(decreases_to!(a@ => a@[i as int]));
        if !a[i].same(&b[i]) {
            assert(arrow_fields_view(a@)[i as int] != arrow_fields_view(b@)[i as int]);
            return false;
        }
        i += 1;
    }
    assert(arrow_fields_view(a@) =~= arrow_fields_view(b@));
    true
}

impl PartialEq for ArrowDataType {
    fn eq(&self, other: &ArrowDataType) -> (r: bool) {
        self.same(other)
    }
}

impl PartialEqSpecImpl for ArrowDataType {
    open spec fn obeys_eq_spec() -> bool {
        true
    }

    open spec fn eq_spec(&self, other: &ArrowDataType) -> bool {
        self@ == other@
    }
}

impl ArrowKindView {
    /// Whether the type is numeric or temporal.
    pub open spec fn is_primitive(self) -> bool {
        match self {
            ArrowKindView::Int8 => true,
            ArrowKindView::Int16 => true,
            ArrowKindView::Int32 => true,
            ArrowKindView::Int64 => true,
            ArrowKindView::Float32 => true,
            ArrowKindView::Float64 => true,
            ArrowKindView::Timestamp(_, _) => true,
            ArrowKindView::Date32 => true,
            ArrowKindView::Decimal128(_, _) => true,
            ArrowKindView::OtherPrimitive => true,
            _ => false,
        }
    }
}

impl ArrowDataType {
    /// Whether the type is numeric or temporal.
    pub fn is_primitive(&self) -> (r: bool)
        ensures
            r == self@.kind.is_primitive(),
    {
        matches!(
            self.kind,
            ArrowKind::Int8 | ArrowKind::Int16 | ArrowKind::Int32 | ArrowKind::Int64
                | ArrowKind::Float32 | ArrowKind::Float64 | ArrowKind::Timestamp(_, _)
                | ArrowKind::Date32 | ArrowKind::Decimal128(_, _) | ArrowKind::OtherPrimitive
        )
    }
}

// ---------------------------------------------------------------------------------------------
// The Arrow types of primitive types
// ---------------------------------------------------------------------------------------------

/// The Arrow type in which values of a primitive type are held.
pub open spec fn arrow_of(ty: PrimitiveType) -> ArrowView {
    match ty {
        PrimitiveType::String => ArrowView { kind: ArrowKindView::Utf8, text: "Utf8"@ },
        PrimitiveType::Long => ArrowView { kind: ArrowKindView::Int64, text: "Int64"@ },
        PrimitiveType::Integer => ArrowView { kind: ArrowKindView::Int32, text: "Int32"@ },
        PrimitiveType::Short => ArrowView { kind: ArrowKindView::Int16, text: "Int16"@ },
        PrimitiveType::Byte => ArrowView { kind: ArrowKindView::Int8, text: "Int8"@ },
        PrimitiveType::Float => ArrowView { kind: ArrowKindView::Float32, text: "Float32"@ },
        PrimitiveType::Double => ArrowView { kind: ArrowKindView::Float64, text: "Float64"@ },
        PrimitiveType::Boolean => ArrowView { kind: ArrowKindView::Boolean, text: "Boolean"@ },
        PrimitiveType::Binary => ArrowView { kind: ArrowKindView::Binary, text: "Binary"@ },
        PrimitiveType::Date => ArrowView { kind: ArrowKindView::Date32, text: "Date32"@ },
        PrimitiveType::Timestamp => ArrowView {
            kind: ArrowKindView::Timestamp(TimeUnit::Microsecond, Some("UTC"@)),
            text: "Timestamp(µs, \"UTC\")"@,
        },
        PrimitiveType::TimestampNtz => ArrowView {
            kind: ArrowKindView::Timestamp(TimeUnit::Microsecond, None),
            text: "Timestamp(µs)"@,
        },
        PrimitiveType::IntervalYearMonth => ArrowView {
            kind: ArrowKindView::Int32,
            text: "Int32"@,
        },
        PrimitiveType::IntervalDayTime => ArrowView { kind: ArrowKindView::Int64, text: "Int64"@ },
        PrimitiveType::Void => ArrowView { kind: ArrowKindView::Null, text: "Null"@ },
        PrimitiveType::Decimal(d) => ArrowView {
            kind: ArrowKindView::Decimal128(d.precision_spec(), d.scale_spec() as i8),
            text: "Decimal128("@ + decimal(d.precision_spec() as int) + ", "@ + decimal(
                d.scale_spec() as int,
            ) + ")"@,
        },
    }
}

/// The Arrow type in which values of a primitive type are held.
pub fn arrow_from_primitive(ty: PrimitiveType) -> (r: ArrowDataType)
    ensures
        r@ == arrow_of(ty),
{
    match ty {
        PrimitiveType::String => ArrowDataType { kind: ArrowKind::Utf8, text: "Utf8".to_owned() },
        PrimitiveType::Long => ArrowDataType { kind: ArrowKind::Int64, text: "Int64".to_owned() },
        PrimitiveType::Integer => ArrowDataType {
            kind: ArrowKind::Int32,
            text: "Int32".to_owned(),
        },
        PrimitiveType::Short => ArrowDataType { kind: ArrowKind::Int16, text: "Int16".to_owned() },
        PrimitiveType::Byte => ArrowDataType { kind: ArrowKind::Int8, text: "Int8".to_owned() },
        PrimitiveType::Float => ArrowDataType {
            kind: ArrowKind::Float32,
            text: "Float32".to_owned(),
        },
        PrimitiveType::Double => ArrowDataType {
            kind: ArrowKind::Float64,
            text: "Float64".to_owned(),
        },
        PrimitiveType::Boolean => ArrowDataType {
            kind: ArrowKind::Boolean,
            text: "Boolean".to_owned(),
        },
        PrimitiveType::Binary => ArrowDataType {
            kind: ArrowKind::Binary,
            text: "Binary".to_owned(),
        },
        PrimitiveType::Date => ArrowDataType { kind: ArrowKind::Date32, text: "Date32".to_owned() },
        PrimitiveType::Timestamp => ArrowDataType {
            kind: ArrowKind::Timestamp(TimeUnit::Microsecond, Some("UTC".to_owned())),
            text: "Timestamp(µs, \"UTC\")".to_owned(),
        },
        PrimitiveType::TimestampNtz => ArrowDataType {
            kind: ArrowKind::Timestamp(TimeUnit::Microsecond, None),
            text: "Timestamp(µs)".to_owned(),
        },
        PrimitiveType::IntervalYearMonth => ArrowDataType {
            kind: ArrowKind::Int32,
            text: "Int32".to_owned(),
        },
        PrimitiveType::IntervalDayTime => ArrowDataType {
            kind: ArrowKind::Int64,
            text: "Int64".to_owned(),
        },
        PrimitiveType::Void => ArrowDataType { kind: ArrowKind::Null, text: "Null".to_owned() },
        PrimitiveType::Decimal(d) => {
            let mut text: String = "Decimal128(".to_owned();
            push_decimal(&mut text, d.precision() as i128);
            text.append(", ");
            push_decimal(&mut text, d.scale() as i128);
            text.append(")");
            ArrowDataType {
                kind: ArrowKind::Decimal128(d.precision(), d.scale() as i8),
                text,
            }
        },
    }
}

} // verus!
