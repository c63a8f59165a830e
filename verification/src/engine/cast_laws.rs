//! Which stored types can be read as which types, case by case.

use vstd::prelude::*;

use crate::engine::arrow_types::{
    arrow_metadata_at, arrow_metadata_view, arrow_of, ArrowFieldView, ArrowKindView,
    ArrowMetadataEntry, ArrowView, TimeUnit,
};
use crate::engine::ensure_data_types::{
    cast_compat, castable, compat, decimal_form, field_mismatch, same_metadata, CompatView,
    Mismatch, ValidationMode,
};
use crate::schema::{FieldView, MetadataView, PrimitiveType, TypeView};

verus! {

/// How many bits an integer type has.
pub open spec fn integer_bits(kind: ArrowKindView) -> Option<int> {
    match kind {
        ArrowKindView::Int8 => Some(8),
        ArrowKindView::Int16 => Some(16),
        ArrowKindView::Int32 => Some(32),
        ArrowKindView::Int64 => Some(64),
        _ => None,
    }
}

/// Integers are cast only to wider ones, and to 64-bit floating-point numbers where those hold every
/// value.
pub proof fn law_integers_are_only_widened(source: ArrowKindView, target: ArrowKindView)
    requires
        integer_bits(source) is Some,
    ensures
        integer_bits(target) is Some ==> (castable(source, target) <==> integer_bits(source)->0
            < integer_bits(target)->0),
        castable(source, ArrowKindView::Float64) <==> integer_bits(source)->0 <= 32,
        !castable(source, ArrowKindView::Float32),
        !castable(source, ArrowKindView::Boolean),
        !castable(source, ArrowKindView::Utf8),
        castable(source, ArrowKindView::Date32) <==> integer_bits(source)->0 == 32,
{
}

/// Floating-point numbers are only widened, and are cast to nothing else.
pub proof fn law_floats_are_only_widened(target: ArrowKindView)
    ensures
        castable(ArrowKindView::Float32, target) <==> target is Float64,
        !castable(ArrowKindView::Float64, target),
{
}

/// Times are read in any unit and zone; days only without a zone, and 64-bit integers only as
/// microseconds.
pub proof fn law_times_and_days_are_cast_to_times(
    unit: TimeUnit,
    other: TimeUnit,
    zone: Option<Seq<char>>,
    another: Option<Seq<char>>,
)
    ensures
        castable(
            ArrowKindView::Timestamp(unit, zone),
            ArrowKindView::Timestamp(other, another),
        ),
        castable(ArrowKindView::Date32, ArrowKindView::Timestamp(unit, zone)) <==> zone is None,
        castable(ArrowKindView::Int64, ArrowKindView::Timestamp(unit, zone)) <==> unit
            is Microsecond,
        !castable(ArrowKindView::Timestamp(unit, zone), ArrowKindView::Date32),
        !castable(ArrowKindView::Timestamp(unit, zone), ArrowKindView::Int64),
        !castable(ArrowKindView::Int32, ArrowKindView::Timestamp(unit, zone)),
        !castable(ArrowKindView::Date32, ArrowKindView::Int32),
{
}

/// A cast to a decimal needs room for the digits of the source on both sides of the point: those of
/// the integer types, or those of another decimal. Nothing else is cast to a decimal.
pub proof fn law_decimals_need_room_on_both_sides(
    source: ArrowKindView,
    precision: u8,
    scale: i8,
    from_precision: u8,
    from_scale: i8,
)
    ensures
        castable(
            ArrowKindView::Decimal128(from_precision, from_scale),
            ArrowKindView::Decimal128(precision, scale),
        ) <==> precision >= from_precision && scale >= from_scale && precision - scale
            >= from_precision - from_scale,
        castable(ArrowKindView::Int8, ArrowKindView::Decimal128(precision, scale)) <==> scale >= 0
            && precision - scale >= 3,
        castable(ArrowKindView::Int16, ArrowKindView::Decimal128(precision, scale)) <==> scale >= 0
            && precision - scale >= 5,
        castable(ArrowKindView::Int32, ArrowKindView::Decimal128(precision, scale)) <==> scale >= 0
            && precision - scale >= 10,
        castable(ArrowKindView::Int64, ArrowKindView::Decimal128(precision, scale)) <==> scale >= 0
            && precision - scale >= 20,
        integer_bits(source) is None && !(source is Decimal128) ==> !castable(
            source,
            ArrowKindView::Decimal128(precision, scale),
        ) && decimal_form(source) is None,
{
}

/// Texts, bytes, booleans and nested data are cast to nothing.
pub proof fn law_other_types_are_not_cast(source: ArrowKindView, target: ArrowKindView)
    requires
        integer_bits(source) is None,
        !(source is Float32 || source is Date32 || source is Timestamp || source is Decimal128),
    ensures
        !castable(source, target),
{
}

/// A cast is asked for exactly where two types differ and one can be cast to the other; the type to
/// cast to is the one that is expected.
pub proof fn law_cast_is_asked_for_where_types_differ(target: ArrowView, source: ArrowView)
    ensures
        source == target ==> cast_compat(target, source) == Ok::<CompatView, Mismatch>(
            CompatView::Identical,
        ),
        source != target && castable(source.kind, target.kind) ==> cast_compat(target, source)
            == Ok::<CompatView, Mismatch>(CompatView::NeedsCast(target)),
        source != target && !castable(source.kind, target.kind) ==> cast_compat(target, source)
            is Err,
{
}

/// The type that values of each primitive type are held in.
pub proof fn law_primitive_types_are_held_in_their_own(ty: PrimitiveType)
    ensures
        arrow_of(ty).kind == match ty {
            PrimitiveType::String => ArrowKindView::Utf8,
            PrimitiveType::Long => ArrowKindView::Int64,
            PrimitiveType::Integer => ArrowKindView::Int32,
            PrimitiveType::Short => ArrowKindView::Int16,
            PrimitiveType::Byte => ArrowKindView::Int8,
            PrimitiveType::Float => ArrowKindView::Float32,
            PrimitiveType::Double => ArrowKindView::Float64,
            PrimitiveType::Boolean => ArrowKindView::Boolean,
            PrimitiveType::Binary => ArrowKindView::Binary,
            PrimitiveType::Date => ArrowKindView::Date32,
            PrimitiveType::Timestamp => ArrowKindView::Timestamp(
                TimeUnit::Microsecond,
                Some("UTC"@),
            ),
            PrimitiveType::TimestampNtz => ArrowKindView::Timestamp(TimeUnit::Microsecond, None),
            PrimitiveType::IntervalYearMonth => ArrowKindView::Int32,
            PrimitiveType::IntervalDayTime => ArrowKindView::Int64,
            PrimitiveType::Void => ArrowKindView::Null,
            PrimitiveType::Decimal(d) => ArrowKindView::Decimal128(
                d.precision_spec(),
                d.scale_spec() as i8,
            ),
        },
{
}

/// Texts and bytes can be held in any of the three forms of each, as they are; booleans in booleans
/// only, and numbers in none of these.
pub proof fn law_texts_and_bytes_in_any_form(arrow: ArrowView, mode: ValidationMode)
    requires
        !arrow.kind.is_primitive(),
    ensures
        compat(TypeView::Primitive(PrimitiveType::String), arrow, mode) is Ok <==> arrow.kind
            is Utf8 || arrow.kind is LargeUtf8 || arrow.kind is Utf8View,
        compat(TypeView::Primitive(PrimitiveType::Binary), arrow, mode) is Ok <==> arrow.kind
            is Binary || arrow.kind is LargeBinary || arrow.kind is BinaryView,
        compat(TypeView::Primitive(PrimitiveType::Boolean), arrow, mode) is Ok <==> arrow.kind
            is Boolean,
        compat(TypeView::Primitive(PrimitiveType::Void), arrow, mode) is Ok <==> arrow.kind is Null,
        compat(TypeView::Primitive(PrimitiveType::Integer), arrow, mode) is Err,
        compat(TypeView::Primitive(PrimitiveType::Long), arrow, mode) is Err,
        compat(TypeView::Primitive(PrimitiveType::Date), arrow, mode) is Err,
        compat(TypeView::Primitive(PrimitiveType::Timestamp), arrow, mode) is Err,
{
}

/// A list fits as its elements do, whatever kind of list it is, where nullability agrees or is not
/// looked at.
pub proof fn law_lists_fit_as_their_elements(
    element: TypeView,
    nullable: bool,
    field: ArrowFieldView,
    text: Seq<char>,
    mode: ValidationMode,
)
    ensures
        !(mode is Full) || nullable == field.nullable ==> compat(
            TypeView::Array(Box::new(element), nullable),
            ArrowView { kind: ArrowKindView::List(Box::new(field)), text },
            mode,
        ) == compat(element, field.ty, mode),
        !(mode is Full) || nullable == field.nullable ==> compat(
            TypeView::Array(Box::new(element), nullable),
            ArrowView { kind: ArrowKindView::LargeList(Box::new(field)), text },
            mode,
        ) == compat(element, field.ty, mode),
        mode is Full && nullable != field.nullable ==> compat(
            TypeView::Array(Box::new(element), nullable),
            ArrowView { kind: ArrowKindView::List(Box::new(field)), text },
            mode,
        ) is Err,
{
    reveal_with_fuel(compat, 2);
}

/// A map fits where its keys and its values do, and nullability of the values agrees or is not looked
/// at.
pub proof fn law_maps_fit_by_keys_and_values(
    key: TypeView,
    value: TypeView,
    nullable: bool,
    entry: ArrowFieldView,
    fields: Seq<ArrowFieldView>,
    text: Seq<char>,
    mode: ValidationMode,
)
    requires
        entry.ty.kind == ArrowKindView::Struct(fields),
        fields.len() == 2,
    ensures
        compat(
            TypeView::Mapping(Box::new(key), Box::new(value), nullable),
            ArrowView { kind: ArrowKindView::Entries(Box::new(entry)), text },
            mode,
        ) is Ok <==> compat(key, fields[0].ty, mode) is Ok && compat(value, fields[1].ty, mode)
            is Ok && (mode is Full ==> nullable == fields[1].nullable),
{
    reveal_with_fuel(compat, 2);
}

/// Fields agree beside their types unless everything is looked at and they differ in whether they may
/// be null or in their metadata.
pub proof fn law_fields_agree_beside_their_types(
    mode: ValidationMode,
    kernel: FieldView,
    arrow: ArrowFieldView,
)
    ensures
        !(mode is Full) ==> field_mismatch(mode, kernel, arrow) is None,
        mode is Full ==> (field_mismatch(mode, kernel, arrow) is None <==> kernel.nullable
            == arrow.nullable && same_metadata(kernel.metadata, arrow.metadata)),
{
}

/// Metadata are the same where they have the same keys, and under each key the same text.
pub proof fn law_metadata_are_compared_as_texts(
    kernel: Map<Seq<char>, MetadataView>,
    arrow: Map<Seq<char>, Seq<char>>,
)
    ensures
        same_metadata(kernel, arrow) <==> (forall|key: Seq<char>| #[trigger]
            kernel.dom().contains(key) <==> arrow.dom().contains(key)) && forall|key: Seq<char>|
            #[trigger] kernel.dom().contains(key) ==> kernel[key].text() == arrow[key],
{
    let texts = kernel.map_values(|value: MetadataView| value.text());
    assert(texts.dom() =~= kernel.dom());
    assert forall|key: Seq<char>| kernel.dom().contains(key) implies texts[key]
        == kernel[key].text() by {}
    if (forall|key: Seq<char>| #[trigger] kernel.dom().contains(key) <==> arrow.dom().contains(key))
        && forall|key: Seq<char>| #[trigger]
        kernel.dom().contains(key) ==> kernel[key].text() == arrow[key] {
        assert(texts =~= arrow) by {
            assert(texts.dom() =~= arrow.dom());
            assert forall|key: Seq<char>| texts.dom().contains(key) implies texts[key]
                == arrow[key] by {
                assert(kernel.dom().contains(key));
            }
        }
    }
    if same_metadata(kernel, arrow) {
        assert forall|key: Seq<char>| #[trigger] kernel.dom().contains(key) implies kernel[
            key
        ].text() == arrow[key] by {
            assert(texts[key] == kernel[key].text());
        }
    }
}

/// Metadata of an Arrow field have a key exactly where an entry has it, with the text of the first
/// such entry.
pub proof fn law_arrow_metadata_hold_the_first_entry(
    entries: Seq<ArrowMetadataEntry>,
    key: Seq<char>,
    k: int,
)
    requires
        0 <= k < entries.len(),
        entries[k].key@ == key,
        forall|j: int| 0 <= j < k ==> (#[trigger] entries[j]).key@ != key,
    ensures
        arrow_metadata_view(entries).dom().contains(key),
        arrow_metadata_view(entries)[key] == entries[k].value@,
{
    lemma_first_entry(entries, key, k);
}

proof fn lemma_first_entry(entries: Seq<ArrowMetadataEntry>, key: Seq<char>, k: int)
    requires
        0 <= k < entries.len(),
        entries[k].key@ == key,
        forall|j: int| 0 <= j < k ==> (#[trigger] entries[j]).key@ != key,
    ensures
        arrow_metadata_at(entries, key) == Some(entries[k].value@),
    decreases k,
{
    assert(entries.first() == entries[0]);
    if k > 0 {
        let rest = entries.drop_first();
        assert forall|j: int| 0 <= j < k - 1 implies (#[trigger] rest[j]).key@ != key by {
            assert(rest[j] == entries[j + 1]);
        }
        assert(rest[k - 1] == entries[k]);
        lemma_first_entry(rest, key, k - 1);
    }
}

/// Without an entry for a key, metadata have none.
pub proof fn law_arrow_metadata_hold_nothing_else(
    entries: Seq<ArrowMetadataEntry>,
    key: Seq<char>,
)
    requires
        forall|j: int| 0 <= j < entries.len() ==> (#[trigger] entries[j]).key@ != key,
    ensures
        !arrow_metadata_view(entries).dom().contains(key),
    decreases entries.len(),
{
    if entries.len() > 0 {
        assert(entries.first() == entries[0]);
        let rest = entries.drop_first();
        assert forall|j: int| 0 <= j < rest.len() implies (#[trigger] rest[j]).key@ != key by {
            assert(rest[j] == entries[j + 1]);
        }
        law_arrow_metadata_hold_nothing_else(rest, key);
    }
}

} // verus!
