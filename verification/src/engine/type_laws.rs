//! What holds of every Arrow type that fits a data type.

use vstd::prelude::*;

use crate::engine::arrow_types::{arrow_of, ArrowFieldView, ArrowKindView, ArrowView};
use crate::engine::ensure_data_types::{
    arrow_field_from, compat, decimal_form, found_count, kernel_field_from, missing_names,
    name_mismatch, position_mismatch, same_metadata, struct_compat, upcasts_to_decimal,
    variant_compat, variant_mismatch, CompatView, Mismatch, ValidationMode,
};
use crate::expressions::scalars::{abs, pow10};
use crate::schema::{FieldView, PrimitiveType, TypeView};

verus! {

proof fn lemma_pow10_adds(a: nat, b: nat)
    ensures
        pow10(a + b) == pow10(a) * pow10(b),
        pow10(b) > 0,
    decreases b,
{
    if b > 0 {
        lemma_pow10_adds(a, (b - 1) as nat);
        let p = pow10(a);
        let q = pow10((b - 1) as nat);
        assert(p * (10 * q) == 10 * (p * q)) by (nonlinear_arith);
        assert(pow10(a + b) == 10 * pow10((a + b - 1) as nat));
        assert((a + b - 1) as nat == a + (b - 1) as nat);
    } else {
        assert(pow10(b) == 1);
    }
}

/// A cast to a decimal keeps every value: a number of as many digits as the source can hold, moved
/// to the scale of the target, has no more digits than the target can hold.
pub proof fn law_decimal_upcast_keeps_every_value(
    source: ArrowKindView,
    precision: nat,
    scale: int,
    unscaled: int,
)
    requires
        upcasts_to_decimal(source, precision as int, scale),
        decimal_form(source) matches Some((p, _)) && abs(unscaled) < pow10(p as nat),
    ensures
        decimal_form(source) matches Some((_, s)) && abs(unscaled * pow10((scale - s) as nat))
            < pow10(precision),
{
    let (p, s) = decimal_form(source)->Some_0;
    let shift = (scale - s) as nat;
    let spare = (precision - p - shift) as nat;
    lemma_pow10_adds(p as nat, shift);
    lemma_pow10_adds((p + shift) as nat, spare);
    let a = abs(unscaled);
    let b = pow10(p as nat);
    let c = pow10(shift);
    let d = pow10(spare);
    assert(abs(unscaled * c) == a * c) by (nonlinear_arith)
        requires
            a == abs(unscaled),
            c > 0,
            abs(unscaled) == if unscaled < 0 { -unscaled } else { unscaled },
            abs(unscaled * c) == if unscaled * c < 0 { -(unscaled * c) } else { unscaled * c },
    ;
    assert(a * c < b * c) by (nonlinear_arith)
        requires
            a < b,
            c > 0,
    ;
    assert(b * c <= (b * c) * d) by (nonlinear_arith)
        requires
            d >= 1,
            b * c >= 0,
    ;
    assert(p + shift + spare == precision);
}

/// The Arrow type that values of a primitive type are held in fits that type, in every mode.
pub proof fn law_own_arrow_type_fits(ty: PrimitiveType, mode: ValidationMode)
    ensures
        compat(TypeView::Primitive(ty), arrow_of(ty), mode) == Ok::<
            CompatView,
            Mismatch,
        >(CompatView::Identical),
{
}

/// A type that fits when nullability and metadata are looked at fits, in the same way, when they
/// are not.
pub proof fn law_full_check_is_stricter(kernel: TypeView, arrow: ArrowView)
    requires
        compat(kernel, arrow, ValidationMode::Full) is Ok,
    ensures
        compat(kernel, arrow, ValidationMode::TypesAndNames) == compat(
            kernel,
            arrow,
            ValidationMode::Full,
        ),
    decreases arrow, 1nat,
{
    match (kernel, arrow.kind) {
        (TypeView::Variant(fields), ArrowKindView::Struct(arrow_fields)) => {
            assert(variant_compat(fields, arrow_fields, ValidationMode::Full) is Ok);
            lemma_variant_stricter(fields, arrow_fields, fields.len());
        },
        (TypeView::Array(element, _), ArrowKindView::List(field)) => {
            law_full_check_is_stricter(*element, field.ty);
        },
        (TypeView::Array(element, _), ArrowKindView::LargeList(field)) => {
            law_full_check_is_stricter(*element, field.ty);
        },
        (TypeView::Array(element, _), ArrowKindView::ListView(field)) => {
            law_full_check_is_stricter(*element, field.ty);
        },
        (TypeView::Array(element, _), ArrowKindView::LargeListView(field)) => {
            law_full_check_is_stricter(*element, field.ty);
        },
        (TypeView::Mapping(key, value, _), ArrowKindView::Entries(entry)) => {
            match entry.ty.kind {
                ArrowKindView::Struct(fields) => {
                    if fields.len() == 2 {
                        assert(decreases_to!(fields => fields[0]));
                        assert(decreases_to!(fields => fields[1]));
                        law_full_check_is_stricter(*key, fields[0].ty);
                        law_full_check_is_stricter(*value, fields[1].ty);
                    }
                },
                _ => {},
            }
        },
        (TypeView::Struct(fields), ArrowKindView::Struct(arrow_fields)) => {
            assert(struct_compat(fields, arrow_fields, ValidationMode::Full) is Ok);
            lemma_names_stricter(fields, arrow_fields, arrow_fields.len());
        },
        _ => {},
    }
}

proof fn lemma_variant_stricter(kernel: Seq<FieldView>, arrow: Seq<ArrowFieldView>, n: nat)
    requires
        variant_mismatch(kernel, arrow, n, ValidationMode::Full) is None,
    ensures
        variant_mismatch(kernel, arrow, n, ValidationMode::TypesAndNames) is None,
    decreases arrow, n,
{
    if n > 0 {
        lemma_variant_stricter(kernel, arrow, (n - 1) as nat);
        match arrow_field_from(arrow, kernel[n - 1].name, 0) {
            Some(i) => {
                if 0 <= i < arrow.len() {
                    assert(decreases_to!(arrow => arrow[i]));
                    law_full_check_is_stricter(kernel[n - 1].ty, arrow[i].ty);
                }
            },
            None => {},
        }
    }
}

proof fn lemma_names_stricter(kernel: Seq<FieldView>, arrow: Seq<ArrowFieldView>, n: nat)
    requires
        name_mismatch(kernel, arrow, n, ValidationMode::Full) is None,
    ensures
        name_mismatch(kernel, arrow, n, ValidationMode::TypesAndNames) is None,
    decreases arrow, n,
{
    if 0 < n <= arrow.len() {
        lemma_names_stricter(kernel, arrow, (n - 1) as nat);
        match kernel_field_from(kernel, arrow[n - 1].name, 0) {
            Some(i) => {
                assert(decreases_to!(arrow => arrow[n - 1]));
                law_full_check_is_stricter(kernel[i].ty, arrow[n - 1].ty);
            },
            None => {},
        }
    }
}

/// Where struct fields are matched by name, an Arrow field that no field has the name of makes no
/// difference, wherever it stands.
pub proof fn law_unselected_fields_do_not_matter(
    kernel: Seq<FieldView>,
    arrow: Seq<ArrowFieldView>,
    position: int,
    extra: ArrowFieldView,
    mode: ValidationMode,
)
    requires
        !(mode is TypesOnly),
        0 <= position <= arrow.len(),
        forall|i: int| 0 <= i < kernel.len() ==> (#[trigger] kernel[i]).name != extra.name,
    ensures
        struct_compat(kernel, arrow.insert(position, extra), mode) == struct_compat(
            kernel,
            arrow,
            mode,
        ),
{
    let more = arrow.insert(position, extra);
    lemma_name_absent(kernel, extra.name, 0);
    lemma_extra_before(kernel, arrow, position, extra, position as nat, mode);
    lemma_extra_after(kernel, arrow, position, extra, arrow.len(), mode);
    assert forall|i: int| 0 <= i < kernel.len() implies (arrow_field_from(
        more,
        (#[trigger] kernel[i]).name,
        0,
    ) is None) == (arrow_field_from(arrow, kernel[i].name, 0) is None) by {
        lemma_arrow_found(more, kernel[i].name, 0);
        lemma_arrow_found(arrow, kernel[i].name, 0);
        if arrow_field_from(arrow, kernel[i].name, 0) is Some {
            let j = choose|j: int|
                0 <= j < arrow.len() && (#[trigger] arrow[j]).name == kernel[i].name;
            assert(more[if j < position { j } else { j + 1 }].name == kernel[i].name);
        }
        if arrow_field_from(more, kernel[i].name, 0) is Some {
            let j = choose|j: int|
                0 <= j < more.len() && (#[trigger] more[j]).name == kernel[i].name;
            assert(j != position);
            assert(arrow[if j < position { j } else { j - 1 }].name == kernel[i].name);
        }
    }
    lemma_same_missing(kernel, arrow, more, kernel.len());
}

proof fn lemma_name_absent(kernel: Seq<FieldView>, name: Seq<char>, from: int)
    requires
        0 <= from,
        forall|i: int| 0 <= i < kernel.len() ==> (#[trigger] kernel[i]).name != name,
    ensures
        kernel_field_from(kernel, name, from) is None,
    decreases kernel.len() - from,
{
    if from < kernel.len() {
        lemma_name_absent(kernel, name, from + 1);
    }
}

proof fn lemma_arrow_found(arrow: Seq<ArrowFieldView>, name: Seq<char>, from: int)
    requires
        0 <= from,
    ensures
        arrow_field_from(arrow, name, from) is Some <==> exists|j: int|
            from <= j < arrow.len() && (#[trigger] arrow[j]).name == name,
    decreases arrow.len() - from,
{
    if from < arrow.len() {
        lemma_arrow_found(arrow, name, from + 1);
        if arrow[from].name == name {
            assert(arrow[from].name == name);
        }
    }
}

proof fn lemma_same_missing(
    kernel: Seq<FieldView>,
    a: Seq<ArrowFieldView>,
    b: Seq<ArrowFieldView>,
    n: nat,
)
    requires
        n <= kernel.len(),
        forall|i: int|
            0 <= i < kernel.len() ==> (arrow_field_from(b, (#[trigger] kernel[i]).name, 0) is None)
                == (arrow_field_from(a, kernel[i].name, 0) is None),
    ensures
        missing_names(kernel, a, n) == missing_names(kernel, b, n),
    decreases n,
{
    if n > 0 {
        lemma_same_missing(kernel, a, b, (n - 1) as nat);
        assert(kernel[n - 1].name == kernel[n - 1].name);
    }
}

proof fn lemma_extra_before(
    kernel: Seq<FieldView>,
    arrow: Seq<ArrowFieldView>,
    position: int,
    extra: ArrowFieldView,
    n: nat,
    mode: ValidationMode,
)
    requires
        0 <= position <= arrow.len(),
        n <= position,
    ensures
        name_mismatch(kernel, arrow.insert(position, extra), n, mode) == name_mismatch(
            kernel,
            arrow,
            n,
            mode,
        ),
        found_count(kernel, arrow.insert(position, extra), n) == found_count(kernel, arrow, n),
    decreases n,
{
    if n > 0 {
        lemma_extra_before(kernel, arrow, position, extra, (n - 1) as nat, mode);
        assert(arrow.insert(position, extra)[n - 1] == arrow[n - 1]);
    }
}

proof fn lemma_extra_after(
    kernel: Seq<FieldView>,
    arrow: Seq<ArrowFieldView>,
    position: int,
    extra: ArrowFieldView,
    n: nat,
    mode: ValidationMode,
)
    requires
        0 <= position <= n <= arrow.len(),
        kernel_field_from(kernel, extra.name, 0) is None,
    ensures
        name_mismatch(kernel, arrow.insert(position, extra), n + 1, mode) == name_mismatch(
            kernel,
            arrow,
            n,
            mode,
        ),
        found_count(kernel, arrow.insert(position, extra), n + 1) == found_count(
            kernel,
            arrow,
            n,
        ),
    decreases n,
{
    let more = arrow.insert(position, extra);
    if n == position {
        lemma_extra_before(kernel, arrow, position, extra, n, mode);
        assert(more[n as int] == extra);
    } else {
        lemma_extra_after(kernel, arrow, position, extra, (n - 1) as nat, mode);
        assert(more[n as int] == arrow[n - 1]);
    }
}

// ---------------------------------------------------------------------------------------------
// Fields that are matched by name
// ---------------------------------------------------------------------------------------------

/// Whether an Arrow field is the one that a field asks for, and fits it.
pub open spec fn field_fits(kernel: FieldView, arrow: ArrowFieldView, mode: ValidationMode) -> bool {
    &&& arrow.name == kernel.name
    &&& compat(kernel.ty, arrow.ty, mode) is Ok
    &&& mode is Full ==> arrow.nullable == kernel.nullable && same_metadata(
        kernel.metadata,
        arrow.metadata,
    )
}

/// Whether a field finds an Arrow field with its name that fits it.
pub open spec fn finds_its_own(
    kernel: FieldView,
    arrow: Seq<ArrowFieldView>,
    mode: ValidationMode,
) -> bool {
    exists|j: int| 0 <= j < arrow.len() && #[trigger] field_fits(kernel, arrow[j], mode)
}

/// Whether an Arrow field has a name.
spec fn finds_name(name: Seq<char>, arrow: Seq<ArrowFieldView>) -> bool {
    exists|j: int| 0 <= j < arrow.len() && (#[trigger] arrow[j]).name == name
}

/// No two fields have the same name.
pub open spec fn kernel_names_differ(fields: Seq<FieldView>) -> bool {
    forall|i: int, j: int|
        #![trigger fields[i], fields[j]]
        0 <= i < j < fields.len() ==> fields[i].name != fields[j].name
}

/// No two Arrow fields have the same name.
pub open spec fn arrow_names_differ(fields: Seq<ArrowFieldView>) -> bool {
    forall|i: int, j: int|
        #![trigger fields[i], fields[j]]
        0 <= i < j < fields.len() ==> fields[i].name != fields[j].name
}

proof fn lemma_kernel_found(kernel: Seq<FieldView>, name: Seq<char>, from: int)
    requires
        0 <= from,
    ensures
        match kernel_field_from(kernel, name, from) {
            Some(i) => from <= i < kernel.len() && kernel[i].name == name,
            None => forall|i: int|
                from <= i < kernel.len() ==> (#[trigger] kernel[i]).name != name,
        },
    decreases kernel.len() - from,
{
    if from < kernel.len() {
        lemma_kernel_found(kernel, name, from + 1);
    }
}

/// There is no mismatch among the first `n` Arrow fields exactly when each of them fits the first
/// field with its name, if there is one.
proof fn lemma_no_name_mismatch(
    kernel: Seq<FieldView>,
    arrow: Seq<ArrowFieldView>,
    n: nat,
    mode: ValidationMode,
)
    requires
        n <= arrow.len(),
    ensures
        name_mismatch(kernel, arrow, n, mode) is None <==> forall|j: int|
            0 <= j < n ==> (kernel_field_from(kernel, (#[trigger] arrow[j]).name, 0) matches Some(i)
                ==> field_fits(kernel[i], arrow[j], mode)),
    decreases n,
{
    if n > 0 {
        lemma_no_name_mismatch(kernel, arrow, (n - 1) as nat, mode);
        let last = arrow[n - 1];
        lemma_kernel_found(kernel, last.name, 0);
        if let Some(i) = kernel_field_from(kernel, last.name, 0) {
            assert(name_mismatch(kernel, arrow, n, mode) is None <==> name_mismatch(
                kernel,
                arrow,
                (n - 1) as nat,
                mode,
            ) is None && field_fits(kernel[i], last, mode));
        }
    }
}

/// The positions of the first fields with the names of the first `n` Arrow fields.
spec fn found_positions(
    kernel: Seq<FieldView>,
    arrow: Seq<ArrowFieldView>,
    n: nat,
) -> Set<int> {
    Set::new(
        |i: int|
            exists|j: int|
                0 <= j < n && kernel_field_from(kernel, (#[trigger] arrow[j]).name, 0) == Some(i),
    )
}

proof fn lemma_found_positions(kernel: Seq<FieldView>, arrow: Seq<ArrowFieldView>, n: nat)
    requires
        n <= arrow.len(),
        arrow_names_differ(arrow),
    ensures
        found_positions(kernel, arrow, n).finite(),
        found_positions(kernel, arrow, n).len() == found_count(kernel, arrow, n),
    decreases n,
{
    let found = found_positions(kernel, arrow, n);
    if n == 0 {
        assert(found =~= Set::<int>::empty());
    } else {
        lemma_found_positions(kernel, arrow, (n - 1) as nat);
        let before = found_positions(kernel, arrow, (n - 1) as nat);
        let at = kernel_field_from(kernel, arrow[n - 1].name, 0);
        assert forall|i: int| #[trigger] found.contains(i) <==> before.contains(i) || at == Some(
            i,
        ) by {
            if before.contains(i) {
                let j = choose|j: int|
                    0 <= j < n - 1 && kernel_field_from(kernel, (#[trigger] arrow[j]).name, 0)
                        == Some(i);
                assert(0 <= j < n && kernel_field_from(kernel, arrow[j].name, 0) == Some(i));
            }
            if at == Some(i) {
                assert(kernel_field_from(kernel, arrow[n - 1].name, 0) == Some(i));
            }
        }
        match at {
            None => {
                assert(found =~= before);
            },
            Some(k) => {
                assert(!before.contains(k)) by {
                    if before.contains(k) {
                        let j = choose|j: int|
                            0 <= j < n - 1 && kernel_field_from(
                                kernel,
                                (#[trigger] arrow[j]).name,
                                0,
                            ) == Some(k);
                        lemma_kernel_found(kernel, arrow[j].name, 0);
                        lemma_kernel_found(kernel, arrow[n - 1].name, 0);
                        assert(arrow[j].name != arrow[n - 1].name);
                    }
                }
                assert(found =~= before.insert(k));
            },
        }
    }
}

/// The first field with a name, where no two fields have the same one.
proof fn lemma_only_field(kernel: Seq<FieldView>, i: int)
    requires
        kernel_names_differ(kernel),
        0 <= i < kernel.len(),
    ensures
        kernel_field_from(kernel, kernel[i].name, 0) == Some(i),
{
    lemma_kernel_found(kernel, kernel[i].name, 0);
    if let Some(k) = kernel_field_from(kernel, kernel[i].name, 0) {
        if k < i {
            assert(kernel[k].name != kernel[i].name);
        }
        if i < k {
            assert(kernel[i].name != kernel[k].name);
        }
    }
}

/// As many Arrow fields have the name of a field as there are fields exactly when no two fields have
/// the same name and every field finds an Arrow field with its name.
proof fn lemma_all_found(kernel: Seq<FieldView>, arrow: Seq<ArrowFieldView>)
    requires
        arrow_names_differ(arrow),
    ensures
        found_count(kernel, arrow, arrow.len()) == kernel.len() <==> kernel_names_differ(kernel) && (
        forall|i: int| 0 <= i < kernel.len() ==> finds_name((#[trigger] kernel[i]).name, arrow)),
{
    let found = found_positions(kernel, arrow, arrow.len());
    let all = vstd::set_lib::set_int_range(0, kernel.len() as int);
    lemma_found_positions(kernel, arrow, arrow.len());
    vstd::set_lib::lemma_int_range(0, kernel.len() as int);
    assert forall|i: int| found.contains(i) implies #[trigger] all.contains(i) by {
        let j = choose|j: int|
            0 <= j < arrow.len() && kernel_field_from(kernel, (#[trigger] arrow[j]).name, 0)
                == Some(i);
        lemma_kernel_found(kernel, arrow[j].name, 0);
    }
    if found.len() == kernel.len() {
        vstd::set_lib::lemma_subset_equality(found, all);
        assert forall|i: int| 0 <= i < kernel.len() implies finds_name(
            (#[trigger] kernel[i]).name,
            arrow,
        ) && kernel_field_from(kernel, kernel[i].name, 0) == Some(i) by {
            assert(all.contains(i));
            assert(found.contains(i));
            let j = choose|j: int|
                0 <= j < arrow.len() && kernel_field_from(kernel, (#[trigger] arrow[j]).name, 0)
                    == Some(i);
            lemma_kernel_found(kernel, arrow[j].name, 0);
            assert(arrow[j].name == kernel[i].name);
        }
        assert forall|i: int, j: int|
            #![trigger kernel[i], kernel[j]]
            0 <= i < j < kernel.len() implies kernel[i].name != kernel[j].name by {
            assert(kernel_field_from(kernel, kernel[i].name, 0) == Some(i));
            assert(kernel_field_from(kernel, kernel[j].name, 0) == Some(j));
        }
    }
    if kernel_names_differ(kernel) && forall|i: int|
        0 <= i < kernel.len() ==> finds_name((#[trigger] kernel[i]).name, arrow) {
        assert forall|i: int| all.contains(i) implies #[trigger] found.contains(i) by {
            lemma_only_field(kernel, i);
            assert(finds_name(kernel[i].name, arrow));
            let j = choose|j: int|
                0 <= j < arrow.len() && (#[trigger] arrow[j]).name == kernel[i].name;
            assert(kernel_field_from(kernel, arrow[j].name, 0) == Some(i));
        }
        assert(found =~= all);
    }
}

/// Where struct fields are matched by name, an Arrow struct whose fields all have different names
/// fits a struct if and only if every field finds an Arrow field with its name that fits it. A list
/// of fields in which two have the same name is no struct, and nothing fits it.
pub proof fn law_struct_fits_when_every_field_finds_its_own(
    kernel: Seq<FieldView>,
    arrow: Seq<ArrowFieldView>,
    mode: ValidationMode,
)
    requires
        !(mode is TypesOnly),
        arrow_names_differ(arrow),
    ensures
        struct_compat(kernel, arrow, mode) == Ok::<CompatView, Mismatch>(CompatView::Nested)
            <==> kernel_names_differ(kernel) && (forall|i: int|
            0 <= i < kernel.len() ==> finds_its_own(#[trigger] kernel[i], arrow, mode)),
        struct_compat(kernel, arrow, mode) is Err <==> !(kernel_names_differ(kernel) && (forall|
            i: int,
        |
            0 <= i < kernel.len() ==> finds_its_own(#[trigger] kernel[i], arrow, mode))),
{
    lemma_no_name_mismatch(kernel, arrow, arrow.len(), mode);
    lemma_all_found(kernel, arrow);
    if struct_compat(kernel, arrow, mode) is Ok {
        assert forall|i: int| 0 <= i < kernel.len() implies finds_its_own(
            #[trigger] kernel[i],
            arrow,
            mode,
        ) by {
            lemma_only_field(kernel, i);
            assert(finds_name(kernel[i].name, arrow));
            let j = choose|j: int|
                0 <= j < arrow.len() && (#[trigger] arrow[j]).name == kernel[i].name;
            assert(field_fits(kernel[i], arrow[j], mode));
        }
    }
    if kernel_names_differ(kernel) && forall|i: int|
        0 <= i < kernel.len() ==> finds_its_own(#[trigger] kernel[i], arrow, mode) {
        assert forall|i: int| 0 <= i < kernel.len() implies finds_name(
            (#[trigger] kernel[i]).name,
            arrow,
        ) by {
            assert(finds_its_own(kernel[i], arrow, mode));
            let j = choose|j: int|
                0 <= j < arrow.len() && #[trigger] field_fits(kernel[i], arrow[j], mode);
            assert(arrow[j].name == kernel[i].name);
        }
        assert forall|j: int| 0 <= j < arrow.len() implies (kernel_field_from(
            kernel,
            (#[trigger] arrow[j]).name,
            0,
        ) matches Some(i) ==> field_fits(kernel[i], arrow[j], mode)) by {
            lemma_kernel_found(kernel, arrow[j].name, 0);
            if let Some(i) = kernel_field_from(kernel, arrow[j].name, 0) {
                assert(finds_its_own(kernel[i], arrow, mode));
                let k = choose|k: int|
                    0 <= k < arrow.len() && #[trigger] field_fits(kernel[i], arrow[k], mode);
                if k < j {
                    assert(arrow[k].name != arrow[j].name);
                }
                if j < k {
                    assert(arrow[j].name != arrow[k].name);
                }
            }
        }
    }
}

/// A field finds its own among Arrow fields that hold those with its name that others hold.
proof fn lemma_finds_its_own_there(
    kernel: FieldView,
    arrow: Seq<ArrowFieldView>,
    other: Seq<ArrowFieldView>,
    mode: ValidationMode,
)
    requires
        finds_its_own(kernel, arrow, mode),
        forall|field: ArrowFieldView|
            kernel.name == field.name && #[trigger] arrow.contains(field) ==> other.contains(field),
    ensures
        finds_its_own(kernel, other, mode),
{
    let j = choose|j: int| 0 <= j < arrow.len() && #[trigger] field_fits(kernel, arrow[j], mode);
    assert(arrow.contains(arrow[j]));
    let k = choose|k: int| 0 <= k < other.len() && other[k] == arrow[j];
    assert(field_fits(kernel, other[k], mode));
}

/// Where struct fields are matched by name, whether an Arrow struct fits depends only on which Arrow
/// fields have the name of a field: neither their order nor the other Arrow fields matter.
pub proof fn law_only_named_fields_matter(
    kernel: Seq<FieldView>,
    arrow: Seq<ArrowFieldView>,
    other: Seq<ArrowFieldView>,
    mode: ValidationMode,
)
    requires
        !(mode is TypesOnly),
        arrow_names_differ(arrow),
        arrow_names_differ(other),
        forall|i: int, field: ArrowFieldView|
            #![trigger kernel[i], arrow.contains(field)]
            #![trigger kernel[i], other.contains(field)]
            0 <= i < kernel.len() && kernel[i].name == field.name ==> (arrow.contains(field)
                <==> other.contains(field)),
    ensures
        struct_compat(kernel, arrow, mode) is Ok <==> struct_compat(kernel, other, mode) is Ok,
{
    law_struct_fits_when_every_field_finds_its_own(kernel, arrow, mode);
    law_struct_fits_when_every_field_finds_its_own(kernel, other, mode);
    assert forall|i: int| 0 <= i < kernel.len() implies finds_its_own(
        #[trigger] kernel[i],
        arrow,
        mode,
    ) == finds_its_own(kernel[i], other, mode) by {
        if finds_its_own(kernel[i], arrow, mode) {
            lemma_finds_its_own_there(kernel[i], arrow, other, mode);
        }
        if finds_its_own(kernel[i], other, mode) {
            lemma_finds_its_own_there(kernel[i], other, arrow, mode);
        }
    }
}

// ---------------------------------------------------------------------------------------------
// Fields that are matched by position
// ---------------------------------------------------------------------------------------------

/// There is no mismatch among the first `n` fields exactly when the types at each position fit.
proof fn lemma_no_position_mismatch(
    kernel: Seq<FieldView>,
    arrow: Seq<ArrowFieldView>,
    n: nat,
    mode: ValidationMode,
)
    requires
        n <= arrow.len(),
    ensures
        position_mismatch(kernel, arrow, n, mode) is None <==> forall|i: int|
            0 <= i < n ==> compat((#[trigger] kernel[i]).ty, arrow[i].ty, mode) is Ok,
    decreases n,
{
    if n > 0 {
        lemma_no_position_mismatch(kernel, arrow, (n - 1) as nat, mode);
        assert(position_mismatch(kernel, arrow, n, mode) is None <==> position_mismatch(
            kernel,
            arrow,
            (n - 1) as nat,
            mode,
        ) is None && compat(kernel[n - 1].ty, arrow[n - 1].ty, mode) is Ok);
    }
}

/// Where only types are looked at, an Arrow struct fits a struct if and only if there are as many
/// fields and the types at each position fit.
pub proof fn law_struct_fits_by_position(kernel: Seq<FieldView>, arrow: Seq<ArrowFieldView>)
    ensures
        ({
            let mode = ValidationMode::TypesOnly;
            let fits = kernel.len() == arrow.len() && forall|i: int|
                0 <= i < kernel.len() ==> compat((#[trigger] kernel[i]).ty, arrow[i].ty, mode)
                    is Ok;
            &&& struct_compat(kernel, arrow, mode) == Ok::<CompatView, Mismatch>(
                CompatView::Nested,
            ) <==> fits
            &&& struct_compat(kernel, arrow, mode) is Err <==> !fits
        }),
{
    lemma_no_position_mismatch(kernel, arrow, arrow.len(), ValidationMode::TypesOnly);
}

/// Where only types are looked at, the names of the fields of an Arrow struct, their metadata and
/// whether they may be null make no difference: not to whether it fits, nor to what is reported.
pub proof fn law_types_only_ignores_names_and_nullability(
    kernel: Seq<FieldView>,
    arrow: Seq<ArrowFieldView>,
    other: Seq<ArrowFieldView>,
)
    requires
        other.len() == arrow.len(),
        forall|i: int| 0 <= i < arrow.len() ==> (#[trigger] other[i]).ty == arrow[i].ty,
    ensures
        struct_compat(kernel, other, ValidationMode::TypesOnly) == struct_compat(
            kernel,
            arrow,
            ValidationMode::TypesOnly,
        ),
{
    lemma_same_position_mismatch(kernel, arrow, other, arrow.len());
}

proof fn lemma_same_position_mismatch(
    kernel: Seq<FieldView>,
    arrow: Seq<ArrowFieldView>,
    other: Seq<ArrowFieldView>,
    n: nat,
)
    requires
        n <= arrow.len() == other.len(),
        forall|i: int| 0 <= i < arrow.len() ==> (#[trigger] other[i]).ty == arrow[i].ty,
    ensures
        position_mismatch(kernel, other, n, ValidationMode::TypesOnly) == position_mismatch(
            kernel,
            arrow,
            n,
            ValidationMode::TypesOnly,
        ),
    decreases n,
{
    if n > 0 {
        lemma_same_position_mismatch(kernel, arrow, other, (n - 1) as nat);
        assert(other[n - 1].ty == arrow[n - 1].ty);
    }
}

/// Whether two Arrow types differ in nothing but the names of fields at any depth, their metadata,
/// whether they may be null, and how nested types are written.
pub open spec fn alike(a: ArrowView, b: ArrowView) -> bool
    decreases a,
{
    match (a.kind, b.kind) {
        (ArrowKindView::List(f), ArrowKindView::List(g)) => alike(f.ty, g.ty),
        (ArrowKindView::LargeList(f), ArrowKindView::LargeList(g)) => alike(f.ty, g.ty),
        (ArrowKindView::ListView(f), ArrowKindView::ListView(g)) => alike(f.ty, g.ty),
        (ArrowKindView::LargeListView(f), ArrowKindView::LargeListView(g)) => alike(f.ty, g.ty),
        (ArrowKindView::Entries(f), ArrowKindView::Entries(g)) => alike(f.ty, g.ty),
        (ArrowKindView::Struct(f), ArrowKindView::Struct(g)) => f.len() == g.len() && forall|i: int|
            0 <= i < f.len() ==> alike((#[trigger] f[i]).ty, g[i].ty),
        _ => a == b,
    }
}

/// Whether a type holds no variants. The fields that a variant is held in are always matched by
/// name.
pub open spec fn holds_no_variant(ty: TypeView) -> bool
    decreases ty,
{
    match ty {
        TypeView::Primitive(_) => true,
        TypeView::Array(element, _) => holds_no_variant(*element),
        TypeView::Struct(fields) => forall|i: int|
            0 <= i < fields.len() ==> holds_no_variant((#[trigger] fields[i]).ty),
        TypeView::Mapping(key, value, _) => holds_no_variant(*key) && holds_no_variant(*value),
        TypeView::Variant(_) => false,
    }
}

/// Where only types are looked at, names, metadata and nullability make no difference at any depth,
/// in a type that holds no variants.
pub proof fn law_types_only_ignores_nested_names(kernel: TypeView, a: ArrowView, b: ArrowView)
    requires
        alike(a, b),
        holds_no_variant(kernel),
    ensures
        compat(kernel, a, ValidationMode::TypesOnly) is Ok <==> compat(
            kernel,
            b,
            ValidationMode::TypesOnly,
        ) is Ok,
    decreases a,
{
    let mode = ValidationMode::TypesOnly;
    match (kernel, a.kind, b.kind) {
        (TypeView::Array(element, _), ArrowKindView::List(f), ArrowKindView::List(g)) => {
            law_types_only_ignores_nested_names(*element, f.ty, g.ty);
        },
        (TypeView::Array(element, _), ArrowKindView::LargeList(f), ArrowKindView::LargeList(g)) => {
            law_types_only_ignores_nested_names(*element, f.ty, g.ty);
        },
        (TypeView::Array(element, _), ArrowKindView::ListView(f), ArrowKindView::ListView(g)) => {
            law_types_only_ignores_nested_names(*element, f.ty, g.ty);
        },
        (
            TypeView::Array(element, _),
            ArrowKindView::LargeListView(f),
            ArrowKindView::LargeListView(g),
        ) => {
            law_types_only_ignores_nested_names(*element, f.ty, g.ty);
        },
        (TypeView::Mapping(key, value, _), ArrowKindView::Entries(f), ArrowKindView::Entries(g)) => {
            assert(alike(f.ty, g.ty));
            match (f.ty.kind, g.ty.kind) {
                (ArrowKindView::Struct(fs), ArrowKindView::Struct(gs)) => {
                    if fs.len() == 2 {
                        assert(decreases_to!(fs => fs[0]));
                        assert(decreases_to!(fs => fs[1]));
                        assert(alike(fs[0].ty, gs[0].ty) && alike(fs[1].ty, gs[1].ty));
                        law_types_only_ignores_nested_names(*key, fs[0].ty, gs[0].ty);
                        law_types_only_ignores_nested_names(*value, fs[1].ty, gs[1].ty);
                    }
                },
                _ => {},
            }
        },
        (TypeView::Struct(fields), ArrowKindView::Struct(fs), ArrowKindView::Struct(gs)) => {
            law_struct_fits_by_position(fields, fs);
            law_struct_fits_by_position(fields, gs);
            if fields.len() == fs.len() {
                assert forall|i: int| 0 <= i < fields.len() implies (compat(
                    (#[trigger] fields[i]).ty,
                    fs[i].ty,
                    mode,
                ) is Ok) == (compat(fields[i].ty, gs[i].ty, mode) is Ok) by {
                    assert(decreases_to!(fs => fs[i]));
                    assert(alike(fs[i].ty, gs[i].ty));
                    law_types_only_ignores_nested_names(fields[i].ty, fs[i].ty, gs[i].ty);
                }
            }
        },
        _ => {},
    }
}

} // verus!
