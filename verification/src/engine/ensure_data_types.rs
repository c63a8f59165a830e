//! Whether Arrow data can be read as a data type.

use vstd::prelude::*;
use vstd::std_specs::cmp::PartialEqSpecImpl;

use crate::engine::arrow_types::{
    arrow_fields_view, arrow_from_primitive, arrow_metadata_get, arrow_metadata_view, arrow_of, ArrowDataType,
    ArrowField, ArrowFieldView, ArrowKind, ArrowKindView, ArrowMetadataEntry, ArrowView, TimeUnit,
};
use crate::error::{DeltaResult, Error};
use crate::expressions::column_names::names_view;
use crate::schema::{
    bool_str, bool_text, metadata_get, metadata_view, DataType, FieldView, MapType, MetadataEntry,
    MetadataValue, MetadataView, PrimitiveType, StructField, StructType, TypeView,
};
use crate::text::{decimal, push_decimal, quoted, quoted_text, same_text};

verus! {

/// How closely the types of struct fields are looked at.
#[derive(Debug, Clone, Copy, PartialEq, Eq, Structural)]
pub enum ValidationMode {
    /// Types only. Struct fields are matched by position; nullability and metadata do not matter.
    TypesOnly,
    /// Types, with struct fields matched by name; nullability and metadata do not matter.
    TypesAndNames,
    /// Types, names, nullability and metadata.
    Full,
}

/// How an Arrow type fits a data type.
#[derive(Debug)]
pub enum DataTypeCompat {
    /// The types are the same.
    Identical,
    /// The data has to be cast to this type.
    NeedsCast(ArrowDataType),
    /// The types fit, part by part.
    Nested,
}

/// How an Arrow type fits a data type.
#[verifier::ext_equal]
pub enum CompatView {
    /// The types are the same.
    Identical,
    /// The data has to be cast to this type.
    NeedsCast(ArrowView),
    /// The types fit, part by part.
    Nested,
}

impl View for DataTypeCompat {
    type V = CompatView;

    open spec fn view(&self) -> CompatView {
        match self {
            DataTypeCompat::Identical => CompatView::Identical,
            DataTypeCompat::NeedsCast(ty) => CompatView::NeedsCast(ty@),
            DataTypeCompat::Nested => CompatView::Nested,
        }
    }
}

impl PartialEq for DataTypeCompat {
    fn eq(&self, other: &DataTypeCompat) -> (r: bool) {
        match (self, other) {
            (DataTypeCompat::Identical, DataTypeCompat::Identical) => true,
            (DataTypeCompat::NeedsCast(a), DataTypeCompat::NeedsCast(b)) => a.same(b),
            (DataTypeCompat::Nested, DataTypeCompat::Nested) => true,
            _ => false,
        }
    }
}

impl PartialEqSpecImpl for DataTypeCompat {
    open spec fn obeys_eq_spec() -> bool {
        true
    }

    open spec fn eq_spec(&self, other: &DataTypeCompat) -> bool {
        self@ == other@
    }
}

/// Why an Arrow type does not fit a data type.
pub enum Mismatch {
    /// The types differ, as the text says.
    Types(Seq<char>),
    /// The types agree on what they hold but not on whether it may be null, as the text says.
    Nullability(Seq<char>),
    /// The metadata of the field with that name are the first ones, those of the Arrow field the
    /// second ones.
    Metadata(Seq<char>, Map<Seq<char>, MetadataView>, Map<Seq<char>, Seq<char>>),
}

/// Whether an error reports a mismatch.
pub open spec fn reports(error: Error, mismatch: Mismatch) -> bool {
    match mismatch {
        Mismatch::Types(message) => error matches Error::Arrow(m) && m@ == message,
        Mismatch::Nullability(message) => error matches Error::Generic(m) && m@ == message,
        Mismatch::Metadata(name, kernel, arrow) => error matches Error::Generic(m)
            && reports_metadata(m@, name, kernel, arrow),
    }
}

// ---------------------------------------------------------------------------------------------
// Casts
// ---------------------------------------------------------------------------------------------

/// The precision and the scale of decimals that hold every value of a type.
pub open spec fn decimal_form(source: ArrowKindView) -> Option<(int, int)> {
    match source {
        ArrowKindView::Decimal128(precision, scale) => Some((precision as int, scale as int)),
        ArrowKindView::Int8 => Some((3, 0)),
        ArrowKindView::Int16 => Some((5, 0)),
        ArrowKindView::Int32 => Some((10, 0)),
        ArrowKindView::Int64 => Some((20, 0)),
        _ => None,
    }
}

/// Whether every value of a type is a decimal of a precision and a scale: there are as many digits
/// after the point, and as many before it.
pub open spec fn upcasts_to_decimal(source: ArrowKindView, precision: int, scale: int) -> bool {
    match decimal_form(source) {
        Some((source_precision, source_scale)) => precision >= source_precision && scale
            >= source_scale && precision - source_precision >= scale - source_scale,
        None => false,
    }
}

/// Whether data of one type can be cast to another without loss, or read as the other because the
/// two are stored alike.
pub open spec fn castable(source: ArrowKindView, target: ArrowKindView) -> bool {
    match (source, target) {
        (ArrowKindView::Timestamp(_, _), ArrowKindView::Timestamp(_, _)) => true,
        (ArrowKindView::Int8, ArrowKindView::Int16) => true,
        (ArrowKindView::Int8, ArrowKindView::Int32) => true,
        (ArrowKindView::Int8, ArrowKindView::Int64) => true,
        (ArrowKindView::Int8, ArrowKindView::Float64) => true,
        (ArrowKindView::Int16, ArrowKindView::Int32) => true,
        (ArrowKindView::Int16, ArrowKindView::Int64) => true,
        (ArrowKindView::Int16, ArrowKindView::Float64) => true,
        (ArrowKindView::Int32, ArrowKindView::Int64) => true,
        (ArrowKindView::Int32, ArrowKindView::Float64) => true,
        (ArrowKindView::Float32, ArrowKindView::Float64) => true,
        (_, ArrowKindView::Decimal128(precision, scale)) => upcasts_to_decimal(
            source,
            precision as int,
            scale as int,
        ),
        (ArrowKindView::Date32, ArrowKindView::Timestamp(_, None)) => true,
        (ArrowKindView::Int32, ArrowKindView::Date32) => true,
        (ArrowKindView::Int64, ArrowKindView::Timestamp(TimeUnit::Microsecond, _)) => true,
        _ => false,
    }
}

/// The text that says which type was expected and which one there is.
pub open spec fn incorrect(expected: Seq<char>, actual: Seq<char>) -> Seq<char> {
    "Incorrect datatype. Expected "@ + expected + ", got "@ + actual
}

/// How data of one type fits another.
pub open spec fn cast_compat(target: ArrowView, source: ArrowView) -> Result<CompatView, Mismatch> {
    if source == target {
        Ok(CompatView::Identical)
    } else if castable(source.kind, target.kind) {
        Ok(CompatView::NeedsCast(target))
    } else {
        Err(Mismatch::Types(incorrect(target.text, source.text)))
    }
}

fn incorrect_error(expected: &str, actual: &str) -> (r: Error)
    ensures
        reports(r, Mismatch::Types(incorrect(expected@, actual@))),
{
    let mut message: String = "Incorrect datatype. Expected ".to_owned();
    message.append(expected);
    message.append(", got ");
    message.append(actual);
    Error::Arrow(message)
}

/// Whether every value of a type can be cast, without loss, to a decimal with the given precision
/// and scale.
pub fn can_upcast_to_decimal(
    source_type: &ArrowDataType,
    target_precision: u8,
    target_scale: i8,
) -> (r: bool)
    ensures
        r == upcasts_to_decimal(
            source_type@.kind,
            target_precision as int,
            target_scale as int,
        ),
{
    let (source_precision, source_scale): (u8, i8) = match &source_type.kind {
        ArrowKind::Decimal128(precision, scale) => (*precision, *scale),
        ArrowKind::Int8 => (3, 0),
        ArrowKind::Int16 => (5, 0),
        ArrowKind::Int32 => (10, 0),
        ArrowKind::Int64 => (20, 0),
        _ => return false,
    };
    target_precision >= source_precision && target_scale >= source_scale && (target_precision
        - source_precision) as i16 >= target_scale as i16 - source_scale as i16
}

/// How data of a type fits the type that is asked for.
pub fn check_cast_compat(target_type: ArrowDataType, source_type: &ArrowDataType) -> (r: DeltaResult<
    DataTypeCompat,
>)
    ensures
        match (r, cast_compat(target_type@, source_type@)) {
            (Ok(compat), Ok(expected)) => compat@ == expected,
            (Err(error), Err(mismatch)) => reports(error, mismatch),
            _ => false,
        },
{
    if source_type.same(&target_type) {
        return Ok(DataTypeCompat::Identical);
    }
    let castable: bool = match (&source_type.kind, &target_type.kind) {
        (ArrowKind::Timestamp(_, _), ArrowKind::Timestamp(_, _)) => true,
        (
            ArrowKind::Int8,
            ArrowKind::Int16 | ArrowKind::Int32 | ArrowKind::Int64 | ArrowKind::Float64,
        ) => true,
        (ArrowKind::Int16, ArrowKind::Int32 | ArrowKind::Int64 | ArrowKind::Float64) => true,
        (ArrowKind::Int32, ArrowKind::Int64 | ArrowKind::Float64) => true,
        (ArrowKind::Float32, ArrowKind::Float64) => true,
        (_, ArrowKind::Decimal128(precision, scale)) => can_upcast_to_decimal(
            source_type,
            *precision,
            *scale,
        ),
        (ArrowKind::Date32, ArrowKind::Timestamp(_, None)) => true,
        // Dates and times may have been stored as plain integers.
        (ArrowKind::Int32, ArrowKind::Date32) => true,
        (ArrowKind::Int64, ArrowKind::Timestamp(TimeUnit::Microsecond, _)) => true,
        _ => false,
    };
    if castable {
        Ok(DataTypeCompat::NeedsCast(target_type))
    } else {
        Err(incorrect_error(target_type.text.as_str(), source_type.text.as_str()))
    }
}

// ---------------------------------------------------------------------------------------------
// Nullability and metadata
// ---------------------------------------------------------------------------------------------

/// The mismatch of two nullabilities, if they are looked at and differ.
pub open spec fn nullability_mismatch(
    mode: ValidationMode,
    desc: Seq<char>,
    kernel: bool,
    arrow: bool,
) -> Option<Mismatch> {
    if mode is Full && kernel != arrow {
        Some(
            Mismatch::Nullability(
                desc + " has nullability "@ + bool_text(kernel) + " in kernel and "@ + bool_text(
                    arrow,
                ) + " in arrow"@,
            ),
        )
    } else {
        None
    }
}

/// Whether the metadata of a field, written as text, are the metadata of an Arrow field.
pub open spec fn same_metadata(
    kernel: Map<Seq<char>, MetadataView>,
    arrow: Map<Seq<char>, Seq<char>>,
) -> bool {
    kernel.map_values(|value: MetadataView| value.text()) == arrow
}

/// How the value of a metadata entry is written behind its key.
pub open spec fn metadata_value_text(value: MetadataView) -> Seq<char> {
    match value {
        MetadataView::Number(n) => ": Number("@ + decimal(n as int) + ")"@,
        MetadataView::String(s) => ": String("@ + quoted_text(s) + ")"@,
        MetadataView::Boolean(b) => ": Boolean("@ + bool_text(b) + ")"@,
        MetadataView::Other(s) => ": Other("@ + s + ")"@,
    }
}

/// The first `n` metadata entries of a field, separated by commas.
pub open spec fn metadata_list(entries: Seq<MetadataEntry>, n: nat) -> Seq<char>
    decreases n,
{
    if n == 0 {
        Seq::empty()
    } else {
        let before = if n == 1 {
            Seq::empty()
        } else {
            metadata_list(entries, (n - 1) as nat) + ", "@
        };
        before + quoted_text(entries[n - 1].key@) + metadata_value_text(entries[n - 1].value@)
    }
}

/// The first `n` metadata entries of an Arrow field, separated by commas.
pub open spec fn arrow_metadata_list(entries: Seq<ArrowMetadataEntry>, n: nat) -> Seq<char>
    decreases n,
{
    if n == 0 {
        Seq::empty()
    } else {
        let before = if n == 1 {
            Seq::empty()
        } else {
            arrow_metadata_list(entries, (n - 1) as nat) + ", "@
        };
        before + quoted_text(entries[n - 1].key@) + ": "@ + quoted_text(entries[n - 1].value@)
    }
}

/// How the metadata of a field are written.
pub open spec fn metadata_text(entries: Seq<MetadataEntry>) -> Seq<char> {
    "{"@ + metadata_list(entries, entries.len()) + "}"@
}

/// How the metadata of an Arrow field are written.
pub open spec fn arrow_metadata_text(entries: Seq<ArrowMetadataEntry>) -> Seq<char> {
    "{"@ + arrow_metadata_list(entries, entries.len()) + "}"@
}

/// What is said of a field whose metadata differ.
pub open spec fn metadata_message(
    name: Seq<char>,
    kernel: Seq<MetadataEntry>,
    arrow: Seq<ArrowMetadataEntry>,
) -> Seq<char> {
    "Field "@ + name + " has metadata "@ + metadata_text(kernel) + " in kernel and "@
        + arrow_metadata_text(arrow) + " in arrow"@
}

/// Whether a text says that the metadata of a field differ, with both of them listed in some order.
pub open spec fn reports_metadata(
    text: Seq<char>,
    name: Seq<char>,
    kernel: Map<Seq<char>, MetadataView>,
    arrow: Map<Seq<char>, Seq<char>>,
) -> bool {
    exists|kernel_entries: Seq<MetadataEntry>, arrow_entries: Seq<ArrowMetadataEntry>|
        metadata_view(kernel_entries) == kernel && arrow_metadata_view(arrow_entries) == arrow
            && text == #[trigger] metadata_message(name, kernel_entries, arrow_entries)
}

/// The mismatch of two fields with the same name in what is not their type.
pub open spec fn field_mismatch(
    mode: ValidationMode,
    kernel: FieldView,
    arrow: ArrowFieldView,
) -> Option<Mismatch> {
    match nullability_mismatch(mode, kernel.name, kernel.nullable, arrow.nullable) {
        Some(mismatch) => Some(mismatch),
        None => if mode is Full && !same_metadata(kernel.metadata, arrow.metadata) {
            Some(Mismatch::Metadata(kernel.name, kernel.metadata, arrow.metadata))
        } else {
            None
        },
    }
}

fn ensure_nullability(
    mode: ValidationMode,
    desc: &str,
    kernel_field_is_nullable: bool,
    arrow_field_is_nullable: bool,
) -> (r: DeltaResult<()>)
    ensures
        match (
            r,
            nullability_mismatch(mode, desc@, kernel_field_is_nullable, arrow_field_is_nullable),
        ) {
            (Ok(_), None) => true,
            (Err(error), Some(mismatch)) => reports(error, mismatch),
            _ => false,
        },
{
    if mode == ValidationMode::Full && kernel_field_is_nullable != arrow_field_is_nullable {
        let mut message: String = desc.to_owned();
        message.append(" has nullability ");
        message.append(bool_str(kernel_field_is_nullable));
        message.append(" in kernel and ");
        message.append(bool_str(arrow_field_is_nullable));
        message.append(" in arrow");
        Err(Error::Generic(message))
    } else {
        Ok(())
    }
}

/// Whether the metadata of a field, written as text, are the metadata of an Arrow field.
pub fn metadata_eq(
    kernel_metadata: &[MetadataEntry],
    arrow_metadata: &[ArrowMetadataEntry],
) -> (r: bool)
    ensures
        r == same_metadata(
            metadata_view(kernel_metadata@),
            arrow_metadata_view(arrow_metadata@),
        ),
{
    let ghost kernel = metadata_view(kernel_metadata@);
    let ghost arrow = arrow_metadata_view(arrow_metadata@);
    let ghost texts = kernel.map_values(|value: MetadataView| value.text());
    let mut i: usize = 0;
    while i < kernel_metadata.len()
        invariant
            i <= kernel_metadata.len(),
            kernel == metadata_view(kernel_metadata@),
            arrow == arrow_metadata_view(arrow_metadata@),
            texts == kernel.map_values(|value: MetadataView| value.text()),
            forall|j: int|
                #![trigger kernel_metadata@[j]]
                0 <= j < i ==> {
                    let key = kernel_metadata@[j].key@;
                    arrow.contains_key(key) && texts[key] == arrow[key]
                },
        decreases kernel_metadata.len() - i,
    {
        let key: &str = kernel_metadata[i].key.as_str();
        proof {
            crate::schema::lemma_metadata_at(kernel_metadata@, key@);
            assert(kernel_metadata@[i as int].key@ == key@);
            assert(texts.contains_key(key@));
            assert(texts[key@] == kernel[key@].text());
        }
        let same: bool = match (metadata_get(kernel_metadata, key), arrow_metadata_get(
            arrow_metadata,
            key,
        )) {
            (Some(value), Some(text)) => same_text(value.to_string().as_str(), text),
            _ => false,
        };
        if !same {
            assert(!(arrow.contains_key(key@) && texts[key@] == arrow[key@]));
            return false;
        }
        i += 1;
    }
    let mut i: usize = 0;
    while i < arrow_metadata.len()
        invariant
            i <= arrow_metadata.len(),
            kernel == metadata_view(kernel_metadata@),
            arrow == arrow_metadata_view(arrow_metadata@),
            texts == kernel.map_values(|value: MetadataView| value.text()),
            forall|j: int|
                #![trigger arrow_metadata@[j]]
                0 <= j < i ==> texts.contains_key(arrow_metadata@[j].key@),
        decreases arrow_metadata.len() - i,
    {
        let key: &str = arrow_metadata[i].key.as_str();
        if metadata_get(kernel_metadata, key).is_none() {
            proof {
                crate::engine::arrow_types::lemma_arrow_metadata_at(arrow_metadata@, key@);
                assert(arrow_metadata@[i as int].key@ == key@);
                assert(arrow.contains_key(key@) && !texts.contains_key(key@));
            }
            return false;
        }
        i += 1;
    }
    proof {
        assert forall|key: Seq<char>|
            #![trigger texts.contains_key(key)]
            #![trigger arrow.contains_key(key)]
            texts.contains_key(key) == arrow.contains_key(key) && (texts.contains_key(key)
                ==> texts[key] == arrow[key]) by {
            crate::schema::lemma_metadata_at(kernel_metadata@, key);
            crate::engine::arrow_types::lemma_arrow_metadata_at(arrow_metadata@, key);
            if texts.contains_key(key) {
                let j = choose|j: int|
                    0 <= j < kernel_metadata@.len() && (#[trigger] kernel_metadata@[j]).key@ == key;
                assert(kernel_metadata@[j].key@ == key);
            }
            if arrow.contains_key(key) {
                let j = choose|j: int|
                    0 <= j < arrow_metadata@.len() && (#[trigger] arrow_metadata@[j]).key@ == key;
                assert(texts.contains_key(arrow_metadata@[j].key@));
            }
        }
        assert(texts =~= arrow);
    }
    true
}

/// Adds what the metadata of a field are.
fn push_metadata(out: &mut String, entries: &[MetadataEntry])
    ensures
        final(out)@ == old(out)@ + metadata_text(entries@),
{
    out.append("{");
    let mut i: usize = 0;
    while i < entries.len()
        invariant
            i <= entries.len(),
            out@ == old(out)@ + "{"@ + metadata_list(entries@, i as nat),
        decreases entries.len() - i,
    {
        if i > 0 {
            out.append(", ");
        }
        out.append(quoted(entries[i].key.as_str()).as_str());
        match &entries[i].value {
            MetadataValue::Number(n) => {
                out.append(": Number(");
                push_decimal(out, *n as i128);
            },
            MetadataValue::String(s) => {
                out.append(": String(");
                out.append(quoted(s.as_str()).as_str());
            },
            MetadataValue::Boolean(b) => {
                out.append(": Boolean(");
                out.append(bool_str(*b));
            },
            MetadataValue::Other(s) => {
                out.append(": Other(");
                out.append(s.as_str());
            },
        }
        out.append(")");
        i += 1;
        assert(out@ =~= old(out)@ + "{"@ + metadata_list(entries@, i as nat));
    }
    out.append("}");
}

/// Adds what the metadata of an Arrow field are.
fn push_arrow_metadata(out: &mut String, entries: &[ArrowMetadataEntry])
    ensures
        final(out)@ == old(out)@ + arrow_metadata_text(entries@),
{
    out.append("{");
    let mut i: usize = 0;
    while i < entries.len()
        invariant
            i <= entries.len(),
            out@ == old(out)@ + "{"@ + arrow_metadata_list(entries@, i as nat),
        decreases entries.len() - i,
    {
        if i > 0 {
            out.append(", ");
        }
        out.append(quoted(entries[i].key.as_str()).as_str());
        out.append(": ");
        out.append(quoted(entries[i].value.as_str()).as_str());
        i += 1;
        assert(out@ =~= old(out)@ + "{"@ + arrow_metadata_list(entries@, i as nat));
    }
    out.append("}");
}

fn ensure_nullability_and_metadata(
    mode: ValidationMode,
    kernel_field: &StructField,
    arrow_field: &ArrowField,
) -> (r: DeltaResult<()>)
    ensures
        match (r, field_mismatch(mode, kernel_field@, arrow_field@)) {
            (Ok(_), None) => true,
            (Err(error), Some(mismatch)) => reports(error, mismatch),
            _ => false,
        },
{
    match ensure_nullability(
        mode,
        kernel_field.name.as_str(),
        kernel_field.nullable,
        arrow_field.nullable,
    ) {
        Err(error) => {
            return Err(error);
        },
        Ok(_) => {},
    }
    if mode == ValidationMode::Full && !metadata_eq(
        kernel_field.metadata.as_slice(),
        arrow_field.metadata.as_slice(),
    ) {
        let mut message: String = "Field ".to_owned();
        message.append(kernel_field.name.as_str());
        message.append(" has metadata ");
        push_metadata(&mut message, kernel_field.metadata.as_slice());
        message.append(" in kernel and ");
        push_arrow_metadata(&mut message, arrow_field.metadata.as_slice());
        message.append(" in arrow");
        assert(message@ == metadata_message(
            kernel_field.name@,
            kernel_field.metadata@,
            arrow_field.metadata@,
        ));
        assert(reports_metadata(
            message@,
            kernel_field.name@,
            kernel_field@.metadata,
            arrow_field@.metadata,
        ));
        Err(Error::Generic(message))
    } else {
        Ok(())
    }
}

// ---------------------------------------------------------------------------------------------
// Types
// ---------------------------------------------------------------------------------------------

/// Whether values of a primitive type are held, as they are, in an Arrow type that is neither
/// numeric nor temporal.
pub open spec fn held_as_is(ty: PrimitiveType, arrow: ArrowKindView) -> bool {
    match ty {
        PrimitiveType::Boolean => arrow is Boolean,
        PrimitiveType::String => arrow is Utf8 || arrow is LargeUtf8 || arrow is Utf8View,
        PrimitiveType::Binary => arrow is Binary || arrow is LargeBinary || arrow is BinaryView,
        PrimitiveType::Void => arrow is Null,
        _ => false,
    }
}

/// How Arrow writes the type that variants are held in.
pub open spec fn variant_text() -> Seq<char> {
    "Struct(\"metadata\": non-null Binary, \"value\": non-null Binary)"@
}

/// The position of the first field with a name, at or after position `from`.
pub open spec fn kernel_field_from(fields: Seq<FieldView>, name: Seq<char>, from: int) -> Option<
    int,
>
    decreases fields.len() - from,
{
    if from >= fields.len() {
        None
    } else if fields[from].name == name {
        Some(from)
    } else {
        kernel_field_from(fields, name, from + 1)
    }
}

/// The position of the first Arrow field with a name, at or after position `from`.
pub open spec fn arrow_field_from(fields: Seq<ArrowFieldView>, name: Seq<char>, from: int) -> Option<
    int,
>
    decreases fields.len() - from,
{
    if from >= fields.len() {
        None
    } else if fields[from].name == name {
        Some(from)
    } else {
        arrow_field_from(fields, name, from + 1)
    }
}

/// Names, with a comma and a space between each and the next.
pub open spec fn joined(names: Seq<Seq<char>>) -> Seq<char>
    decreases names.len(),
{
    if names.len() == 0 {
        ""@
    } else if names.len() == 1 {
        names[0]
    } else {
        joined(names.drop_last()) + ", "@ + names.last()
    }
}

/// The names of the first `n` Arrow fields that no field has.
pub open spec fn unexpected_names(
    kernel: Seq<FieldView>,
    arrow: Seq<ArrowFieldView>,
    n: nat,
) -> Seq<Seq<char>>
    decreases n,
{
    if n == 0 {
        Seq::empty()
    } else {
        let rest = unexpected_names(kernel, arrow, (n - 1) as nat);
        let name = arrow[n - 1].name;
        if kernel_field_from(kernel, name, 0) is None {
            rest.push(name)
        } else {
            rest
        }
    }
}

/// The names of the first `n` fields that no Arrow field has, five of them at most.
pub open spec fn missing_names(
    kernel: Seq<FieldView>,
    arrow: Seq<ArrowFieldView>,
    n: nat,
) -> Seq<Seq<char>>
    decreases n,
{
    if n == 0 {
        Seq::empty()
    } else {
        let rest = missing_names(kernel, arrow, (n - 1) as nat);
        let name = kernel[n - 1].name;
        if rest.len() < 5 && arrow_field_from(arrow, name, 0) is None {
            rest.push(name)
        } else {
            rest
        }
    }
}

/// How many of the first `n` Arrow fields have the name of a field.
pub open spec fn found_count(kernel: Seq<FieldView>, arrow: Seq<ArrowFieldView>, n: nat) -> nat
    decreases n,
{
    if n == 0 {
        0
    } else {
        let rest = found_count(kernel, arrow, (n - 1) as nat);
        if kernel_field_from(kernel, arrow[n - 1].name, 0) is Some {
            rest + 1
        } else {
            rest
        }
    }
}

/// How an Arrow type fits a data type.
pub open spec fn compat(kernel: TypeView, arrow: ArrowView, mode: ValidationMode) -> Result<
    CompatView,
    Mismatch,
>
    decreases arrow, 0nat, 0nat,
{
    let incorrect_type = Err(Mismatch::Types(incorrect(kernel.text(), arrow.text)));
    match kernel {
        TypeView::Primitive(ty) => if arrow.kind.is_primitive() {
            cast_compat(arrow_of(ty), arrow)
        } else if held_as_is(ty, arrow.kind) {
            Ok(CompatView::Identical)
        } else {
            incorrect_type
        },
        TypeView::Variant(fields) => match arrow.kind {
            ArrowKindView::Struct(arrow_fields) => variant_compat(fields, arrow_fields, mode),
            _ => Err(Mismatch::Types(incorrect(variant_text(), arrow.text))),
        },
        TypeView::Array(element, nullable) => match arrow.kind {
            ArrowKindView::List(field) => list_compat(*element, nullable, *field, mode),
            ArrowKindView::LargeList(field) => list_compat(*element, nullable, *field, mode),
            ArrowKindView::ListView(field) => list_compat(*element, nullable, *field, mode),
            ArrowKindView::LargeListView(field) => list_compat(*element, nullable, *field, mode),
            _ => incorrect_type,
        },
        TypeView::Mapping(key, value, nullable) => match arrow.kind {
            ArrowKindView::Entries(entry) => match entry.ty.kind {
                ArrowKindView::Struct(fields) => entries_compat(
                    *key,
                    *value,
                    nullable,
                    fields,
                    mode,
                ),
                _ => Err(Mismatch::Types("Arrow map type wasn't a struct."@)),
            },
            _ => incorrect_type,
        },
        TypeView::Struct(fields) => match arrow.kind {
            ArrowKindView::Struct(arrow_fields) => struct_compat(fields, arrow_fields, mode),
            _ => incorrect_type,
        },
    }
}

/// How a list of Arrow data fits an array of elements.
pub open spec fn list_compat(
    element: TypeView,
    nullable: bool,
    field: ArrowFieldView,
    mode: ValidationMode,
) -> Result<CompatView, Mismatch>
    decreases field, 0nat, 0nat,
{
    match nullability_mismatch(mode, "List"@, nullable, field.nullable) {
        Some(mismatch) => Err(mismatch),
        None => compat(element, field.ty, mode),
    }
}

/// How the fields of Arrow map entries fit keys and values.
pub open spec fn entries_compat(
    key: TypeView,
    value: TypeView,
    nullable: bool,
    fields: Seq<ArrowFieldView>,
    mode: ValidationMode,
) -> Result<CompatView, Mismatch>
    decreases fields, 0nat, 0nat,
{
    if fields.len() != 2 {
        Err(Mismatch::Types("Arrow map type didn't have expected key/value fields"@))
    } else {
        match compat(key, fields[0].ty, mode) {
            Err(mismatch) => Err(mismatch),
            Ok(_) => match nullability_mismatch(mode, "Map"@, nullable, fields[1].nullable) {
                Some(mismatch) => Err(mismatch),
                None => match compat(value, fields[1].ty, mode) {
                    Err(mismatch) => Err(mismatch),
                    Ok(_) => Ok(CompatView::Nested),
                },
            },
        }
    }
}

/// How the fields of an Arrow struct fit those of a variant.
pub open spec fn variant_compat(
    kernel: Seq<FieldView>,
    arrow: Seq<ArrowFieldView>,
    mode: ValidationMode,
) -> Result<CompatView, Mismatch>
    decreases arrow, 1nat, 0nat,
{
    if arrow.len() != kernel.len() {
        Err(
            Mismatch::Types(
                "Variant struct has "@ + decimal(arrow.len() as int) + " fields, expected "@
                    + decimal(kernel.len() as int) + " (unexpected: ["@ + joined(
                    unexpected_names(kernel, arrow, arrow.len()),
                ) + "])"@,
            ),
        )
    } else {
        match variant_mismatch(kernel, arrow, kernel.len(), mode) {
            Some(mismatch) => Err(mismatch),
            None => Ok(CompatView::Nested),
        }
    }
}

/// The first mismatch among the first `n` fields of a variant.
pub open spec fn variant_mismatch(
    kernel: Seq<FieldView>,
    arrow: Seq<ArrowFieldView>,
    n: nat,
    mode: ValidationMode,
) -> Option<Mismatch>
    decreases arrow, 0nat, n,
{
    if n == 0 {
        None
    } else {
        match variant_mismatch(kernel, arrow, (n - 1) as nat, mode) {
            Some(mismatch) => Some(mismatch),
            None => match arrow_field_from(arrow, kernel[n - 1].name, 0) {
                None => Some(
                    Mismatch::Types(
                        "Variant struct is missing field `"@ + kernel[n - 1].name + "`"@,
                    ),
                ),
                Some(i) => if 0 <= i < arrow.len() {
                    match compat(kernel[n - 1].ty, arrow[i].ty, mode) {
                        Err(mismatch) => Some(mismatch),
                        Ok(_) => None,
                    }
                } else {
                    None
                },
            },
        }
    }
}

/// How the fields of an Arrow struct fit those of a struct.
pub open spec fn struct_compat(
    kernel: Seq<FieldView>,
    arrow: Seq<ArrowFieldView>,
    mode: ValidationMode,
) -> Result<CompatView, Mismatch>
    decreases arrow, 1nat, 0nat,
{
    if mode is TypesOnly {
        if kernel.len() != arrow.len() {
            Err(
                Mismatch::Types(
                    "Struct field count mismatch: expected "@ + decimal(kernel.len() as int)
                        + ", got "@ + decimal(arrow.len() as int),
                ),
            )
        } else {
            match position_mismatch(kernel, arrow, arrow.len(), mode) {
                Some(mismatch) => Err(mismatch),
                None => Ok(CompatView::Nested),
            }
        }
    } else {
        match name_mismatch(kernel, arrow, arrow.len(), mode) {
            Some(mismatch) => Err(mismatch),
            None => if kernel.len() != found_count(kernel, arrow, arrow.len()) {
                Err(
                    Mismatch::Types(
                        "Missing Struct fields "@ + joined(
                            missing_names(kernel, arrow, kernel.len()),
                        ) + " (Up to five missing fields shown)"@,
                    ),
                )
            } else {
                Ok(CompatView::Nested)
            },
        }
    }
}

/// The first mismatch among the first `n` fields, matched by position.
pub open spec fn position_mismatch(
    kernel: Seq<FieldView>,
    arrow: Seq<ArrowFieldView>,
    n: nat,
    mode: ValidationMode,
) -> Option<Mismatch>
    decreases arrow, 0nat, n,
{
    if n == 0 || n > arrow.len() {
        None
    } else {
        match position_mismatch(kernel, arrow, (n - 1) as nat, mode) {
            Some(mismatch) => Some(mismatch),
            None => match compat(kernel[n - 1].ty, arrow[n - 1].ty, mode) {
                Err(mismatch) => Some(mismatch),
                Ok(_) => None,
            },
        }
    }
}

/// The first mismatch among the first `n` Arrow fields, matched by name. Those that no field has
/// the name of do not matter.
pub open spec fn name_mismatch(
    kernel: Seq<FieldView>,
    arrow: Seq<ArrowFieldView>,
    n: nat,
    mode: ValidationMode,
) -> Option<Mismatch>
    decreases arrow, 0nat, n,
{
    if n == 0 || n > arrow.len() {
        None
    } else {
        match name_mismatch(kernel, arrow, (n - 1) as nat, mode) {
            Some(mismatch) => Some(mismatch),
            None => match kernel_field_from(kernel, arrow[n - 1].name, 0) {
                None => None,
                Some(i) => match field_mismatch(mode, kernel[i], arrow[n - 1]) {
                    Some(mismatch) => Some(mismatch),
                    None => match compat(kernel[i].ty, arrow[n - 1].ty, mode) {
                        Err(mismatch) => Some(mismatch),
                        Ok(_) => None,
                    },
                },
            },
        }
    }
}

proof fn lemma_field_names(fields: Seq<StructField>, name: Seq<char>, from: int)
    requires
        0 <= from,
    ensures
        kernel_field_from(crate::schema::fields_view(fields), name, from)
            == crate::schema::field_index_from(fields, name, from),
    decreases fields.len() - from,
{
    if from < fields.len() {
        lemma_field_names(fields, name, from + 1);
    }
}

/// The position of the first Arrow field with a name, if there is one.
fn arrow_index_of(fields: &Vec<ArrowField>, name: &str) -> (r: Option<usize>)
    ensures
        match (r, arrow_field_from(arrow_fields_view(fields@), name@, 0)) {
            (Some(i), Some(j)) => i == j && i < fields@.len(),
            (None, None) => true,
            _ => false,
        },
{
    let mut i: usize = 0;
    while i < fields.len()
        invariant
            i <= fields.len(),
            arrow_field_from(arrow_fields_view(fields@), name@, 0) == arrow_field_from(
                arrow_fields_view(fields@),
                name@,
                i as int,
            ),
        decreases fields.len() - i,
    {
        if same_text(fields[i].name.as_str(), name) {
            return Some(i);
        }
        i += 1;
    }
    None
}

/// Names, with a comma and a space between each and the next.
fn join(names: &Vec<String>) -> (r: String)
    ensures
        r@ == joined(names_view(names@)),
{
    let mut r: String = "".to_owned();
    let mut i: usize = 0;
    assert(names_view(names@).take(0) =~= Seq::<Seq<char>>::empty());
    while i < names.len()
        invariant
            i <= names.len(),
            r@ == joined(names_view(names@).take(i as int)),
        decreases names.len() - i,
    {
        let ghost done = names_view(names@).take(i as int);
        let ghost next = names_view(names@).take(i + 1);
        assert(next.drop_last() =~= done);
        if i > 0 {
            r.append(", ");
        } else {
            proof {
                reveal_strlit("");
            }
        }
        r.append(names[i].as_str());
        assert(r@ =~= joined(next));
        i += 1;
    }
    assert(names_view(names@).take(i as int) =~= names_view(names@));
    r
}

/// The names of the Arrow fields that no field of a variant has.
fn unexpected_field_names(kernel: &StructType, arrow: &Vec<ArrowField>) -> (r: Vec<String>)
    ensures
        names_view(r@) == unexpected_names(
            kernel@,
            arrow_fields_view(arrow@),
            arrow@.len(),
        ),
{
    let mut r: Vec<String> = Vec::new();
    let mut i: usize = 0;
    assert(names_view(r@) =~= Seq::<Seq<char>>::empty());
    while i < arrow.len()
        invariant
            i <= arrow.len(),
            names_view(r@) == unexpected_names(kernel@, arrow_fields_view(arrow@), i as nat),
        decreases arrow.len() - i,
    {
        let ghost done = r@;
        let name: &str = arrow[i].name.as_str();
        proof {
            lemma_field_names(kernel.fields@, name@, 0);
        }
        if kernel.index_of(name).is_none() {
            r.push(name.to_owned());
            assert(names_view(r@) =~= names_view(done).push(name@));
        }
        i += 1;
    }
    r
}

/// The names of the fields that no Arrow field has, five of them at most.
fn missing_field_names(kernel: &StructType, arrow: &Vec<ArrowField>) -> (r: Vec<String>)
    ensures
        names_view(r@) == missing_names(kernel@, arrow_fields_view(arrow@), kernel@.len()),
{
    let mut r: Vec<String> = Vec::new();
    let mut i: usize = 0;
    assert(names_view(r@) =~= Seq::<Seq<char>>::empty());
    while i < kernel.fields.len()
        invariant
            i <= kernel.fields.len(),
            names_view(r@) == missing_names(kernel@, arrow_fields_view(arrow@), i as nat),
        decreases kernel.fields.len() - i,
    {
        let ghost done = r@;
        let name: &str = kernel.fields[i].name.as_str();
        if r.len() < 5 && arrow_index_of(arrow, name).is_none() {
            r.push(name.to_owned());
            assert(names_view(r@) =~= names_view(done).push(name@));
        }
        i += 1;
    }
    r
}

/// Whether an Arrow type fits a data type, and how.
///
/// Arrow fields that the data type has no field for do not matter, unless struct fields are
/// matched by position.
pub fn ensure_data_types(
    kernel_type: &DataType,
    arrow_type: &ArrowDataType,
    mode: ValidationMode,
) -> (r: DeltaResult<DataTypeCompat>)
    ensures
        match (r, compat(kernel_type@, arrow_type@, mode)) {
            (Ok(r), Ok(expected)) => r@ == expected,
            (Err(error), Err(mismatch)) => reports(error, mismatch),
            _ => false,
        },
    decreases arrow_type, 0nat,
{
    match (kernel_type, &arrow_type.kind) {
        (DataType::Primitive(ty), kind) => {
            if arrow_type.is_primitive() {
                return check_cast_compat(arrow_from_primitive(*ty), arrow_type);
            }
            // Booleans, text, bytes and nulls are no primitive types to Arrow.
            let held: bool = match (ty, kind) {
                (PrimitiveType::Boolean, ArrowKind::Boolean) => true,
                (
                    PrimitiveType::String,
                    ArrowKind::Utf8 | ArrowKind::LargeUtf8 | ArrowKind::Utf8View,
                ) => true,
                (
                    PrimitiveType::Binary,
                    ArrowKind::Binary | ArrowKind::LargeBinary | ArrowKind::BinaryView,
                ) => true,
                (PrimitiveType::Void, ArrowKind::Null) => true,
                _ => false,
            };
            if held {
                return Ok(DataTypeCompat::Identical);
            }
        },
        (DataType::Variant(fields), ArrowKind::Struct(arrow_fields)) => {
            return ensure_variant(fields, arrow_fields, mode);
        },
        (DataType::Variant(_), _) => {
            return Err(
                incorrect_error(
                    "Struct(\"metadata\": non-null Binary, \"value\": non-null Binary)",
                    arrow_type.text.as_str(),
                ),
            );
        },
        (
            DataType::Array(array_type),
            ArrowKind::List(field) | ArrowKind::LargeList(field) | ArrowKind::ListView(field)
            | ArrowKind::LargeListView(field),
        ) => {
            match ensure_nullability(mode, "List", array_type.contains_null, field.nullable) {
                Err(error) => {
                    return Err(error);
                },
                Ok(_) => {},
            }
            return ensure_data_types(&array_type.element_type, &field.data_type, mode);
        },
        (DataType::Mapping(map_type), ArrowKind::Entries(entry)) => {
            assert(entry@.ty.kind == entry.data_type.kind@);
            return match &entry.data_type.kind {
                ArrowKind::Struct(fields) => ensure_entries(map_type, fields, mode),
                _ => Err(Error::Arrow("Arrow map type wasn't a struct.".to_owned())),
            };
        },
        (DataType::Struct(fields), ArrowKind::Struct(arrow_fields)) => {
            return match mode {
                ValidationMode::TypesOnly => ensure_fields_by_position(fields, arrow_fields, mode),
                ValidationMode::TypesAndNames | ValidationMode::Full => ensure_fields_by_name(
                    fields,
                    arrow_fields,
                    mode,
                ),
            };
        },
        _ => {},
    }
    Err(incorrect_error(kernel_type.to_string().as_str(), arrow_type.text.as_str()))
}

/// Whether the fields of Arrow map entries fit the keys and the values of a map.
fn ensure_entries(map_type: &MapType, fields: &Vec<ArrowField>, mode: ValidationMode) -> (r:
    DeltaResult<DataTypeCompat>)
    ensures
        match (
            r,
            entries_compat(
                map_type.key_type@,
                map_type.value_type@,
                map_type.value_contains_null,
                arrow_fields_view(fields@),
                mode,
            ),
        ) {
            (Ok(r), Ok(expected)) => r@ == expected,
            (Err(error), Err(mismatch)) => reports(error, mismatch),
            _ => false,
        },
    decreases fields, 1nat,
{
    if fields.len() != 2 {
        return Err(
            Error::Arrow("Arrow map type didn't have expected key/value fields".to_owned()),
        );
    }
    assert(decreases_to!(fields => fields@));
    assert(decreases_to!(fields@ => fields@[0]));
    assert(decreases_to!(fields@ => fields@[1]));
    match ensure_data_types(&map_type.key_type, &fields[0].data_type, mode) {
        Err(error) => {
            return Err(error);
        },
        Ok(_) => {},
    }
    match ensure_nullability(mode, "Map", map_type.value_contains_null, fields[1].nullable) {
        Err(error) => {
            return Err(error);
        },
        Ok(_) => {},
    }
    match ensure_data_types(&map_type.value_type, &fields[1].data_type, mode) {
        Err(error) => Err(error),
        Ok(_) => Ok(DataTypeCompat::Nested),
    }
}

/// Whether the fields of an Arrow struct are those of a variant.
fn ensure_variant(
    variant_fields: &StructType,
    arrow_fields: &Vec<ArrowField>,
    mode: ValidationMode,
) -> (r: DeltaResult<DataTypeCompat>)
    ensures
        match (r, variant_compat(variant_fields@, arrow_fields_view(arrow_fields@), mode)) {
            (Ok(r), Ok(expected)) => r@ == expected,
            (Err(error), Err(mismatch)) => reports(error, mismatch),
            _ => false,
        },
    decreases arrow_fields, 1nat,
{
    if arrow_fields.len() != variant_fields.num_fields() {
        let mut message: String = "Variant struct has ".to_owned();
        push_decimal(&mut message, arrow_fields.len() as i128);
        message.append(" fields, expected ");
        push_decimal(&mut message, variant_fields.num_fields() as i128);
        message.append(" (unexpected: [");
        message.append(join(&unexpected_field_names(variant_fields, arrow_fields)).as_str());
        message.append("])");
        return Err(Error::Arrow(message));
    }
    let mut i: usize = 0;
    while i < variant_fields.fields.len()
        invariant
            i <= variant_fields.fields.len(),
            arrow_fields@.len() == variant_fields@.len(),
            variant_mismatch(variant_fields@, arrow_fields_view(arrow_fields@), i as nat, mode)
                is None,
        decreases variant_fields.fields.len() - i,
    {
        let kernel_field: &StructField = &variant_fields.fields[i];
        let ghost so_far = variant_mismatch(
            variant_fields@,
            arrow_fields_view(arrow_fields@),
            (i + 1) as nat,
            mode,
        );
        match arrow_index_of(arrow_fields, kernel_field.name.as_str()) {
            None => {
                let mut message: String = "Variant struct is missing field `".to_owned();
                message.append(kernel_field.name.as_str());
                message.append("`");
                let error: Error = Error::Arrow(message);
                proof {
                    assert(so_far is Some && reports(error, so_far->Some_0));
                    lemma_variant_mismatch_stays(
                        variant_fields@,
                        arrow_fields_view(arrow_fields@),
                        (i + 1) as nat,
                        variant_fields@.len(),
                        mode,
                    );
                }
                return Err(error);
            },
            Some(j) => {
                assert(decreases_to!(arrow_fields => arrow_fields@));
                assert(decreases_to!(arrow_fields@ => arrow_fields@[j as int]));
                match ensure_data_types(
                    &kernel_field.data_type,
                    &arrow_fields[j].data_type,
                    mode,
                ) {
                    Err(error) => {
                        proof {
                            assert(so_far is Some && reports(error, so_far->Some_0));
                            lemma_variant_mismatch_stays(
                                variant_fields@,
                                arrow_fields_view(arrow_fields@),
                                (i + 1) as nat,
                                variant_fields@.len(),
                                mode,
                            );
                        }
                        return Err(error);
                    },
                    Ok(_) => {},
                }
            },
        }
        i += 1;
    }
    Ok(DataTypeCompat::Nested)
}

/// Whether the fields of an Arrow struct fit those of a struct, position by position.
fn ensure_fields_by_position(
    kernel_fields: &StructType,
    arrow_fields: &Vec<ArrowField>,
    mode: ValidationMode,
) -> (r: DeltaResult<DataTypeCompat>)
    requires
        mode is TypesOnly,
    ensures
        match (r, struct_compat(kernel_fields@, arrow_fields_view(arrow_fields@), mode)) {
            (Ok(r), Ok(expected)) => r@ == expected,
            (Err(error), Err(mismatch)) => reports(error, mismatch),
            _ => false,
        },
    decreases arrow_fields, 1nat,
{
    if kernel_fields.num_fields() != arrow_fields.len() {
        let mut message: String = "Struct field count mismatch: expected ".to_owned();
        push_decimal(&mut message, kernel_fields.num_fields() as i128);
        message.append(", got ");
        push_decimal(&mut message, arrow_fields.len() as i128);
        return Err(Error::Arrow(message));
    }
    let mut i: usize = 0;
    while i < arrow_fields.len()
        invariant
            i <= arrow_fields.len(),
            arrow_fields@.len() == kernel_fields@.len(),
            mode is TypesOnly,
            position_mismatch(kernel_fields@, arrow_fields_view(arrow_fields@), i as nat, mode)
                is None,
        decreases arrow_fields.len() - i,
    {
        let ghost so_far = position_mismatch(
            kernel_fields@,
            arrow_fields_view(arrow_fields@),
            (i + 1) as nat,
            mode,
        );
        assert(decreases_to!(arrow_fields => arrow_fields@));
        assert(decreases_to!(arrow_fields@ => arrow_fields@[i as int]));
        match ensure_data_types(
            &kernel_fields.fields[i].data_type,
            &arrow_fields[i].data_type,
            mode,
        ) {
            Err(error) => {
                proof {
                    assert(so_far is Some && reports(error, so_far->Some_0));
                    lemma_position_mismatch_stays(
                        kernel_fields@,
                        arrow_fields_view(arrow_fields@),
                        (i + 1) as nat,
                        arrow_fields@.len(),
                        mode,
                    );
                }
                return Err(error);
            },
            Ok(_) => {},
        }
        i += 1;
    }
    Ok(DataTypeCompat::Nested)
}

/// Whether the fields of an Arrow struct fit those of a struct, name by name.
fn ensure_fields_by_name(
    kernel_fields: &StructType,
    arrow_fields: &Vec<ArrowField>,
    mode: ValidationMode,
) -> (r: DeltaResult<DataTypeCompat>)
    requires
        !(mode is TypesOnly),
    ensures
        match (r, struct_compat(kernel_fields@, arrow_fields_view(arrow_fields@), mode)) {
            (Ok(r), Ok(expected)) => r@ == expected,
            (Err(error), Err(mismatch)) => reports(error, mismatch),
            _ => false,
        },
    decreases arrow_fields, 1nat,
{
    let mut found_fields: usize = 0;
    let mut i: usize = 0;
    while i < arrow_fields.len()
        invariant
            i <= arrow_fields.len(),
            !(mode is TypesOnly),
            found_fields <= i,
            found_fields == found_count(
                kernel_fields@,
                arrow_fields_view(arrow_fields@),
                i as nat,
            ),
            name_mismatch(kernel_fields@, arrow_fields_view(arrow_fields@), i as nat, mode)
                is None,
        decreases arrow_fields.len() - i,
    {
        let arrow_field: &ArrowField = &arrow_fields[i];
        let ghost so_far = name_mismatch(
            kernel_fields@,
            arrow_fields_view(arrow_fields@),
            (i + 1) as nat,
            mode,
        );
        proof {
            lemma_field_names(kernel_fields.fields@, arrow_field.name@, 0);
        }
        match kernel_fields.index_of(arrow_field.name.as_str()) {
            None => {},
            Some(j) => {
                let kernel_field: &StructField = &kernel_fields.fields[j];
                assert(kernel_fields@[j as int] == kernel_field@);
                assert(decreases_to!(arrow_fields => arrow_fields@));
                assert(decreases_to!(arrow_fields@ => arrow_fields@[i as int]));
                let checked: DeltaResult<()> = ensure_nullability_and_metadata(
                    mode,
                    kernel_field,
                    arrow_field,
                );
                let problem: Option<Error> = match checked {
                    Err(error) => Some(error),
                    Ok(_) => match ensure_data_types(
                        &kernel_field.data_type,
                        &arrow_field.data_type,
                        mode,
                    ) {
                        Err(error) => Some(error),
                        Ok(_) => None,
                    },
                };
                match problem {
                    Some(error) => {
                        proof {
                            assert(so_far is Some && reports(error, so_far->Some_0));
                            lemma_name_mismatch_stays(
                                kernel_fields@,
                                arrow_fields_view(arrow_fields@),
                                (i + 1) as nat,
                                arrow_fields@.len(),
                                mode,
                            );
                        }
                        return Err(error);
                    },
                    None => {},
                }
                found_fields += 1;
            },
        }
        i += 1;
    }
    if kernel_fields.num_fields() != found_fields {
        let mut message: String = "Missing Struct fields ".to_owned();
        message.append(join(&missing_field_names(kernel_fields, arrow_fields)).as_str());
        message.append(" (Up to five missing fields shown)");
        return Err(Error::Arrow(message));
    }
    Ok(DataTypeCompat::Nested)
}

proof fn lemma_variant_mismatch_stays(
    kernel: Seq<FieldView>,
    arrow: Seq<ArrowFieldView>,
    n: nat,
    m: nat,
    mode: ValidationMode,
)
    requires
        n <= m,
        variant_mismatch(kernel, arrow, n, mode) is Some,
    ensures
        variant_mismatch(kernel, arrow, m, mode) == variant_mismatch(kernel, arrow, n, mode),
    decreases m,
{
    if n < m {
        lemma_variant_mismatch_stays(kernel, arrow, n, (m - 1) as nat, mode);
    }
}

proof fn lemma_position_mismatch_stays(
    kernel: Seq<FieldView>,
    arrow: Seq<ArrowFieldView>,
    n: nat,
    m: nat,
    mode: ValidationMode,
)
    requires
        n <= m <= arrow.len(),
        position_mismatch(kernel, arrow, n, mode) is Some,
    ensures
        position_mismatch(kernel, arrow, m, mode) == position_mismatch(kernel, arrow, n, mode),
    decreases m,
{
    if n < m {
        lemma_position_mismatch_stays(kernel, arrow, n, (m - 1) as nat, mode);
    }
}

proof fn lemma_name_mismatch_stays(
    kernel: Seq<FieldView>,
    arrow: Seq<ArrowFieldView>,
    n: nat,
    m: nat,
    mode: ValidationMode,
)
    requires
        n <= m <= arrow.len(),
        name_mismatch(kernel, arrow, n, mode) is Some,
    ensures
        name_mismatch(kernel, arrow, m, mode) == name_mismatch(kernel, arrow, n, mode),
    decreases m,
{
    if n < m {
        lemma_name_mismatch_stays(kernel, arrow, n, (m - 1) as nat, mode);
    }
}

} // verus!
