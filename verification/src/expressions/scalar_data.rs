//! Lists, maps and structs of scalars, checked against their types.

use vstd::prelude::*;

use super::scalars::{
    pairs_view, scalars_view, ArrayData, MapData, Scalar, ScalarView, StructData,
};
use crate::error::{DeltaResult, Error};
use crate::schema::{
    fields_view, ArrayType, DataType, FieldView, MapType, StructField, StructType, TypeView,
};
use crate::text::{decimal, push_decimal, quoted, quoted_text};

verus! {

// ---------------------------------------------------------------------------------------------
// Lists
// ---------------------------------------------------------------------------------------------

/// What is wrong with an element of a list, if anything is.
pub open spec fn element_problem(
    element_type: TypeView,
    contains_null: bool,
    element: ScalarView,
) -> Option<Seq<char>> {
    if !contains_null && element is Null {
        Some("Array element cannot be null for non-nullable array"@)
    } else if element_type != element.data_type() {
        Some(
            "Array scalar type mismatch: expected "@ + element_type.text() + ", got "@
                + element.data_type().text(),
        )
    } else {
        None
    }
}

/// What is wrong with the first bad one of the first `n` elements, if anything is.
pub open spec fn elements_problem(
    element_type: TypeView,
    contains_null: bool,
    elements: Seq<ScalarView>,
    n: nat,
) -> Option<Seq<char>>
    decreases n,
{
    if n == 0 {
        None
    } else {
        match elements_problem(element_type, contains_null, elements, (n - 1) as nat) {
            Some(problem) => Some(problem),
            None => element_problem(element_type, contains_null, elements[n - 1]),
        }
    }
}

impl ArrayData {
    /// The list of `elements`, if each of them has the element type and is not null where that is
    /// not allowed.
    pub fn try_new(tpe: ArrayType, elements: Vec<Scalar>) -> (r: DeltaResult<ArrayData>)
        ensures
            match elements_problem(
                tpe.element_type@,
                tpe.contains_null,
                scalars_view(elements@),
                elements@.len(),
            ) {
                Some(problem) => r matches Err(Error::Schema(message)) && message@ == problem,
                None => r matches Ok(data) && data@ == ScalarView::Array(
                    tpe@,
                    scalars_view(elements@),
                ),
            },
    {
        let mut i: usize = 0;
        while i < elements.len()
            invariant
                i <= elements.len(),
                elements_problem(
                    tpe.element_type@,
                    tpe.contains_null,
                    scalars_view(elements@),
                    i as nat,
                ) is None,
            decreases elements.len() - i,
        {
            let element: &Scalar = &elements[i];
            let data_type: DataType = element.data_type();
            let mut problem: Option<String> = None;
            if !tpe.contains_null && element.is_null() {
                problem = Some("Array element cannot be null for non-nullable array".to_owned());
            } else if !tpe.element_type.same(&data_type) {
                let mut message: String = "Array scalar type mismatch: expected ".to_owned();
                message.append(tpe.element_type.to_string().as_str());
                message.append(", got ");
                message.append(data_type.to_string().as_str());
                problem = Some(message);
            }
            if let Some(message) = problem {
                proof {
                    lemma_elements_problem_stays(
                        tpe.element_type@,
                        tpe.contains_null,
                        scalars_view(elements@),
                        (i + 1) as nat,
                        elements@.len(),
                    );
                }
                return Err(Error::Schema(message));
            }
            i += 1;
        }
        Ok(ArrayData { tpe, elements })
    }

    /// The type of the list.
    pub fn array_type(&self) -> (r: &ArrayType)
        ensures
            self@ matches ScalarView::Array(ty, _) && r@ == ty,
    {
        &self.tpe
    }

    /// The elements.
    pub fn array_elements(&self) -> (r: &[Scalar])
        ensures
            self@ matches ScalarView::Array(_, elements) && scalars_view(r@) == elements,
    {
        self.elements.as_slice()
    }

    /// The elements, taken out of the list.
    pub fn into_elements(self) -> (r: Vec<Scalar>)
        ensures
            self@ matches ScalarView::Array(_, elements) && scalars_view(r@) == elements,
    {
        self.elements
    }
}

/// The first problem stays the first.
proof fn lemma_elements_problem_stays(
    element_type: TypeView,
    contains_null: bool,
    elements: Seq<ScalarView>,
    n: nat,
    m: nat,
)
    requires
        n <= m,
        elements_problem(element_type, contains_null, elements, n) is Some,
    ensures
        elements_problem(element_type, contains_null, elements, m) == elements_problem(
            element_type,
            contains_null,
            elements,
            n,
        ),
    decreases m,
{
    if n < m {
        lemma_elements_problem_stays(element_type, contains_null, elements, n, (m - 1) as nat);
    }
}

// ---------------------------------------------------------------------------------------------
// Maps
// ---------------------------------------------------------------------------------------------

/// What is wrong with a pair of key and value, if anything is.
pub open spec fn pair_problem(
    key_type: TypeView,
    value_type: TypeView,
    value_contains_null: bool,
    pair: (ScalarView, ScalarView),
) -> Option<Seq<char>> {
    if pair.0.data_type() != key_type {
        Some(
            "Map scalar type mismatch: expected key type "@ + key_type.text() + ", got key type "@
                + pair.0.data_type().text(),
        )
    } else if pair.0 is Null {
        Some("Map key cannot be null"@)
    } else if pair.1.data_type() != value_type {
        Some(
            "Map scalar type mismatch: expected value type "@ + value_type.text()
                + ", got value type "@ + pair.1.data_type().text(),
        )
    } else if pair.1 is Null && !value_contains_null {
        Some("Null map value disallowed if map value_contains_null is false"@)
    } else {
        None
    }
}

/// What is wrong with the first bad one of the first `n` pairs, if anything is.
pub open spec fn pairs_problem(
    key_type: TypeView,
    value_type: TypeView,
    value_contains_null: bool,
    pairs: Seq<(ScalarView, ScalarView)>,
    n: nat,
) -> Option<Seq<char>>
    decreases n,
{
    if n == 0 {
        None
    } else {
        match pairs_problem(key_type, value_type, value_contains_null, pairs, (n - 1) as nat) {
            Some(problem) => Some(problem),
            None => pair_problem(key_type, value_type, value_contains_null, pairs[n - 1]),
        }
    }
}

impl MapData {
    /// What is wrong with one pair.
    fn check_pair(data_type: &MapType, key: &Scalar, value: &Scalar) -> (r: Option<String>)
        ensures
            match pair_problem(
                data_type.key_type@,
                data_type.value_type@,
                data_type.value_contains_null,
                (key@, value@),
            ) {
                Some(problem) => r matches Some(message) && message@ == problem,
                None => r is None,
            },
    {
        let found_key: DataType = key.data_type();
        if !found_key.same(&data_type.key_type) {
            let mut message: String = "Map scalar type mismatch: expected key type ".to_owned();
            message.append(data_type.key_type.to_string().as_str());
            message.append(", got key type ");
            message.append(found_key.to_string().as_str());
            return Some(message);
        }
        if key.is_null() {
            return Some("Map key cannot be null".to_owned());
        }
        let found_value: DataType = value.data_type();
        if !found_value.same(&data_type.value_type) {
            let mut message: String = "Map scalar type mismatch: expected value type ".to_owned();
            message.append(data_type.value_type.to_string().as_str());
            message.append(", got value type ");
            message.append(found_value.to_string().as_str());
            return Some(message);
        }
        if value.is_null() && !data_type.value_contains_null {
            return Some(
                "Null map value disallowed if map value_contains_null is false".to_owned(),
            );
        }
        None
    }

    /// The map of `pairs`, if the keys and values have the types of the map and none of them is null
    /// where that is not allowed.
    pub fn try_new(data_type: MapType, pairs: Vec<(Scalar, Scalar)>) -> (r: DeltaResult<MapData>)
        ensures
            match pairs_problem(
                data_type.key_type@,
                data_type.value_type@,
                data_type.value_contains_null,
                pairs_view(pairs@),
                pairs@.len(),
            ) {
                Some(problem) => r matches Err(Error::Schema(message)) && message@ == problem,
                None => r matches Ok(data) && data@ == ScalarView::Mapping(
                    data_type@,
                    pairs_view(pairs@),
                ),
            },
    {
        let mut i: usize = 0;
        while i < pairs.len()
            invariant
                i <= pairs.len(),
                pairs_problem(
                    data_type.key_type@,
                    data_type.value_type@,
                    data_type.value_contains_null,
                    pairs_view(pairs@),
                    i as nat,
                ) is None,
            decreases pairs.len() - i,
        {
            if let Some(message) = MapData::check_pair(&data_type, &pairs[i].0, &pairs[i].1) {
                proof {
                    lemma_pairs_problem_stays(
                        data_type.key_type@,
                        data_type.value_type@,
                        data_type.value_contains_null,
                        pairs_view(pairs@),
                        (i + 1) as nat,
                        pairs@.len(),
                    );
                }
                return Err(Error::Schema(message));
            }
            i += 1;
        }
        Ok(MapData { data_type, pairs })
    }

    /// The pairs of key and value.
    pub fn pairs(&self) -> (r: &[(Scalar, Scalar)])
        ensures
            self@ matches ScalarView::Mapping(_, pairs) && pairs_view(r@) == pairs,
    {
        self.pairs.as_slice()
    }

    /// The type of the map.
    pub fn map_type(&self) -> (r: &MapType)
        ensures
            self@ matches ScalarView::Mapping(ty, _) && r@ == ty,
    {
        &self.data_type
    }

    /// The pairs of key and value, taken out of the map.
    pub fn into_pairs(self) -> (r: Vec<(Scalar, Scalar)>)
        ensures
            self@ matches ScalarView::Mapping(_, pairs) && pairs_view(r@) == pairs,
    {
        self.pairs
    }
}

/// The first problem stays the first.
proof fn lemma_pairs_problem_stays(
    key_type: TypeView,
    value_type: TypeView,
    value_contains_null: bool,
    pairs: Seq<(ScalarView, ScalarView)>,
    n: nat,
    m: nat,
)
    requires
        n <= m,
        pairs_problem(key_type, value_type, value_contains_null, pairs, n) is Some,
    ensures
        pairs_problem(key_type, value_type, value_contains_null, pairs, m) == pairs_problem(
            key_type,
            value_type,
            value_contains_null,
            pairs,
            n,
        ),
    decreases m,
{
    if n < m {
        lemma_pairs_problem_stays(
            key_type,
            value_type,
            value_contains_null,
            pairs,
            n,
            (m - 1) as nat,
        );
    }
}

// ---------------------------------------------------------------------------------------------
// Structs
// ---------------------------------------------------------------------------------------------

/// What is wrong with the value of a field, if anything is.
pub open spec fn value_problem(field: FieldView, value: ScalarView) -> Option<Seq<char>> {
    if field.ty != value.data_type() {
        Some(
            "Incorrect datatype for Struct field "@ + quoted_text(field.name) + ", expected "@
                + field.ty.text() + " got "@ + value.data_type().text(),
        )
    } else if !field.nullable && value is Null {
        Some(
            "Value for non-nullable field "@ + quoted_text(field.name)
                + " cannot be null, got null"@,
        )
    } else {
        None
    }
}

/// What is wrong with the first bad one of the first `n` values, if anything is.
pub open spec fn values_problem(
    fields: Seq<FieldView>,
    values: Seq<ScalarView>,
    n: nat,
) -> Option<Seq<char>>
    decreases n,
{
    if n == 0 {
        None
    } else {
        match values_problem(fields, values, (n - 1) as nat) {
            Some(problem) => Some(problem),
            None => value_problem(fields[n - 1], values[n - 1]),
        }
    }
}

/// What is wrong with the values of a struct, if anything is: their number, or one of them.
pub open spec fn struct_problem(
    fields: Seq<FieldView>,
    values: Seq<ScalarView>,
) -> Option<Seq<char>> {
    if fields.len() != values.len() {
        Some(
            "Incorrect number of values for Struct fields, expected "@ + decimal(
                fields.len() as int,
            ) + " got "@ + decimal(values.len() as int),
        )
    } else {
        values_problem(fields, values, values.len())
    }
}

impl StructData {
    /// What is wrong with one value.
    fn check_value(field: &StructField, value: &Scalar) -> (r: Option<String>)
        ensures
            match value_problem(field@, value@) {
                Some(problem) => r matches Some(message) && message@ == problem,
                None => r is None,
            },
    {
        let found: DataType = value.data_type();
        if !field.data_type.same(&found) {
            let mut message: String = "Incorrect datatype for Struct field ".to_owned();
            message.append(quoted(field.name.as_str()).as_str());
            message.append(", expected ");
            message.append(field.data_type.to_string().as_str());
            message.append(" got ");
            message.append(found.to_string().as_str());
            return Some(message);
        }
        if !field.nullable && value.is_null() {
            let mut message: String = "Value for non-nullable field ".to_owned();
            message.append(quoted(field.name.as_str()).as_str());
            message.append(" cannot be null, got null");
            return Some(message);
        }
        None
    }

    /// The struct with a value for each field, if there are as many values as fields, each value has
    /// the type of its field, and none is null where that is not allowed.
    pub fn try_new(fields: Vec<StructField>, values: Vec<Scalar>) -> (r: DeltaResult<StructData>)
        ensures
            match struct_problem(fields_view(fields@), scalars_view(values@)) {
                Some(problem) => r matches Err(Error::InvalidStructData(message)) && message@
                    == problem,
                None => r matches Ok(data) && data@ == ScalarView::Struct(
                    fields_view(fields@),
                    scalars_view(values@),
                ),
            },
    {
        if fields.len() != values.len() {
            let mut message: String = "Incorrect number of values for Struct fields, expected ".to_owned();
            push_decimal(&mut message, fields.len() as i128);
            message.append(" got ");
            push_decimal(&mut message, values.len() as i128);
            return Err(Error::InvalidStructData(message));
        }
        let mut i: usize = 0;
        while i < values.len()
            invariant
                i <= values.len(),
                fields@.len() == values@.len(),
                values_problem(fields_view(fields@), scalars_view(values@), i as nat) is None,
            decreases values.len() - i,
        {
            if let Some(message) = StructData::check_value(&fields[i], &values[i]) {
                proof {
                    lemma_values_problem_stays(
                        fields_view(fields@),
                        scalars_view(values@),
                        (i + 1) as nat,
                        values@.len(),
                    );
                }
                return Err(Error::InvalidStructData(message));
            }
            i += 1;
        }
        Ok(StructData { fields, values })
    }

    /// The struct with those values for the fields of `schema`, as they are.
    pub fn from_values_unchecked(schema: StructType, values: Vec<Scalar>) -> (r: StructData)
        ensures
            r@ == ScalarView::Struct(schema@, scalars_view(values@)),
    {
        StructData { fields: schema.fields, values }
    }

    /// The fields.
    pub fn fields(&self) -> (r: &[StructField])
        ensures
            self@ matches ScalarView::Struct(fields, _) && fields_view(r@) == fields,
    {
        self.fields.as_slice()
    }

    /// The values.
    pub fn values(&self) -> (r: &[Scalar])
        ensures
            self@ matches ScalarView::Struct(_, values) && scalars_view(r@) == values,
    {
        self.values.as_slice()
    }

    /// The fields and the values, taken out of the struct.
    pub fn into_parts(self) -> (r: (Vec<StructField>, Vec<Scalar>))
        ensures
            self@ == ScalarView::Struct(fields_view(r.0@), scalars_view(r.1@)),
    {
        (self.fields, self.values)
    }
}

/// The first problem stays the first.
proof fn lemma_values_problem_stays(
    fields: Seq<FieldView>,
    values: Seq<ScalarView>,
    n: nat,
    m: nat,
)
    requires
        n <= m,
        values_problem(fields, values, n) is Some,
    ensures
        values_problem(fields, values, m) == values_problem(fields, values, n),
    decreases m,
{
    if n < m {
        lemma_values_problem_stays(fields, values, n, (m - 1) as nat);
    }
}

} // verus!
