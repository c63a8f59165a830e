//! Which field a name leads to, and what metadata hold.

use vstd::prelude::*;

use crate::schema::{
    field_index_from, fields_text, metadata_at, metadata_view, DecimalType, FieldView,
    MetadataEntry, PrimitiveType, StructField, StructType, TypeView,
};
use crate::text::decimal;

verus! {

proof fn lemma_field_index(fields: Seq<StructField>, name: Seq<char>, from: int)
    requires
        0 <= from <= fields.len(),
    ensures
        match field_index_from(fields, name, from) {
            Some(i) => from <= i < fields.len() && fields[i].name@ == name && forall|j: int|
                from <= j < i ==> (#[trigger] fields[j]).name@ != name,
            None => forall|j: int| from <= j < fields.len() ==> (#[trigger] fields[j]).name@ != name,
        },
    decreases fields.len() - from,
{
    if from < fields.len() && fields[from].name@ != name {
        lemma_field_index(fields, name, from + 1);
    }
}

/// A name leads to the first field with that name, and nowhere only where there is none.
pub proof fn law_name_leads_to_the_first_field(schema: StructType, name: Seq<char>)
    ensures
        match schema.field_index(name) {
            Some(i) => 0 <= i < schema.fields@.len() && schema.fields@[i].name@ == name && forall|
                j: int,
            |
                0 <= j < i ==> (#[trigger] schema.fields@[j]).name@ != name,
            None => forall|j: int|
                0 <= j < schema.fields@.len() ==> (#[trigger] schema.fields@[j]).name@ != name,
        },
{
    lemma_field_index(schema.fields@, name, 0);
}

/// Metadata have a key exactly where an entry has it, with the value of the first such entry.
pub proof fn law_metadata_hold_the_first_entry(entries: Seq<MetadataEntry>, key: Seq<char>, k: int)
    requires
        0 <= k < entries.len(),
        entries[k].key@ == key,
        forall|j: int| 0 <= j < k ==> (#[trigger] entries[j]).key@ != key,
    ensures
        metadata_view(entries).dom().contains(key),
        metadata_view(entries)[key] == entries[k].value@,
{
    lemma_first_entry(entries, key, k);
}

proof fn lemma_first_entry(entries: Seq<MetadataEntry>, key: Seq<char>, k: int)
    requires
        0 <= k < entries.len(),
        entries[k].key@ == key,
        forall|j: int| 0 <= j < k ==> (#[trigger] entries[j]).key@ != key,
    ensures
        metadata_at(entries, key) == Some(entries[k].value@),
    decreases k,
{
    assert(entries.first() == entries[0]);
    if k > 0 {
        let rest = entries.drop_first();
        assert forall|j: int| 0 <= j < k - 1 implies (#[trigger] rest[j]).key@ != key by {
            assert(rest[j] == entries[j + 1]);
        }
        assert(rest[k - 1] == entries[k]);
        lemma_first_entry(rest, key, k - 1);
    }
}

/// Without an entry for a key, metadata have none.
pub proof fn law_metadata_hold_nothing_else(entries: Seq<MetadataEntry>, key: Seq<char>)
    requires
        forall|j: int| 0 <= j < entries.len() ==> (#[trigger] entries[j]).key@ != key,
    ensures
        !metadata_view(entries).dom().contains(key),
    decreases entries.len(),
{
    if entries.len() > 0 {
        assert(entries.first() == entries[0]);
        let rest = entries.drop_first();
        assert forall|j: int| 0 <= j < rest.len() implies (#[trigger] rest[j]).key@ != key by {
            assert(rest[j] == entries[j + 1]);
        }
        law_metadata_hold_nothing_else(rest, key);
    }
}

/// Decimals have from 1 to 38 digits, and no more after the point than there are.
pub proof fn law_decimal_limits(precision: u8, scale: u8)
    ensures
        DecimalType::valid(precision, scale) <==> 1 <= precision && precision <= 38 && scale
            <= precision,
{
}

/// How types are written: primitive types by their names, decimals with their precision and scale,
/// and nested types with those of their parts.
pub proof fn law_types_as_text(
    element: TypeView,
    key: TypeView,
    nullable: bool,
    fields: Seq<FieldView>,
    ty: DecimalType,
)
    ensures
        TypeView::Primitive(PrimitiveType::String).text() == "string"@,
        TypeView::Primitive(PrimitiveType::Long).text() == "long"@,
        TypeView::Primitive(PrimitiveType::Integer).text() == "integer"@,
        TypeView::Primitive(PrimitiveType::Short).text() == "short"@,
        TypeView::Primitive(PrimitiveType::Byte).text() == "byte"@,
        TypeView::Primitive(PrimitiveType::Float).text() == "float"@,
        TypeView::Primitive(PrimitiveType::Double).text() == "double"@,
        TypeView::Primitive(PrimitiveType::Boolean).text() == "boolean"@,
        TypeView::Primitive(PrimitiveType::Binary).text() == "binary"@,
        TypeView::Primitive(PrimitiveType::Date).text() == "date"@,
        TypeView::Primitive(PrimitiveType::Timestamp).text() == "timestamp"@,
        TypeView::Primitive(PrimitiveType::TimestampNtz).text() == "timestamp_ntz"@,
        TypeView::Primitive(PrimitiveType::Decimal(ty)).text() == "decimal("@ + decimal(
            ty.precision_spec() as int,
        ) + ","@ + decimal(ty.scale_spec() as int) + ")"@,
        TypeView::Array(Box::new(element), nullable).text() == "array<"@ + element.text() + ">"@,
        TypeView::Mapping(Box::new(key), Box::new(element), nullable).text() == "map<"@ + key.text()
            + ", "@ + element.text() + ">"@,
        fields.len() == 1 ==> TypeView::Struct(fields).text() == "struct<"@ + (Seq::<char>::empty()
            + fields[0].name + ": "@ + fields[0].ty.text()) + ">"@,
{
    if fields.len() == 1 {
        assert(fields_text(fields, 1) == Seq::<char>::empty() + fields[0].name + ": "@
            + fields[0].ty.text());
    }
}

} // verus!
