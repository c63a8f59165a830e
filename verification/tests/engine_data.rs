use delta_kernel::engine_data::{
    filter_by_predicate, require_data, wrong_type, EngineData, FilteredEngineData, GetData,
    ListItem, MapItem, RowIndexIterator, StringArrayAccessor,
};
use delta_kernel::error::{DeltaResult, Error};
use delta_kernel::expressions::column_names::ColumnName;
use delta_kernel::expressions::scalars::ArrayData;
use delta_kernel::schema::StructType;

/// Rows of one column of text.
#[derive(Debug)]
struct Rows(Vec<String>);

impl EngineData for Rows {
    fn len(&self) -> usize {
        self.0.len()
    }

    fn has_field(&self, name: &ColumnName) -> bool {
        name.path() == ["value".to_string()]
    }

    fn append_columns(&self, _schema: StructType, _columns: Vec<ArrayData>) -> DeltaResult<Self> {
        Err(Error::unsupported("rows of one column"))
    }

    fn apply_selection_vector(self, selection_vector: Vec<bool>) -> DeltaResult<Self> {
        if selection_vector.len() > self.0.len() {
            return Err(Error::InvalidSelectionVector("too long".to_string()));
        }
        let kept = self.0.into_iter().enumerate();
        Ok(Rows(
            kept.filter(|(i, _)| selection_vector.get(*i).copied().unwrap_or(true))
                .map(|(_, row)| row)
                .collect(),
        ))
    }
}

fn get_engine_data(rows: usize) -> Rows {
    Rows((0..rows).map(|i| format!("row{i}")).collect())
}

fn strings(values: &[Option<&str>]) -> Vec<Option<String>> {
    values.iter().map(|v| v.map(str::to_string)).collect()
}

#[test]
fn test_with_all_rows_selected_empty_data() {
    let data = get_engine_data(0);
    let filtered_data = FilteredEngineData::with_all_rows_selected(data);

    assert_eq!(filtered_data.selection_vector().len(), 0);
    assert!(filtered_data.selection_vector().is_empty());
    assert_eq!(filtered_data.data().len(), 0);
}

#[test]
fn test_with_all_rows_selected_single_row() {
    let data = get_engine_data(1);
    let filtered_data = FilteredEngineData::with_all_rows_selected(data);

    assert!(filtered_data.selection_vector().is_empty());
    assert_eq!(filtered_data.data().len(), 1);
    assert!(filtered_data.has_selected_rows());
}

#[test]
fn test_with_all_rows_selected_multiple_rows() {
    let data = get_engine_data(4);
    let filtered_data = FilteredEngineData::with_all_rows_selected(data);

    assert!(filtered_data.selection_vector().is_empty());
    assert_eq!(filtered_data.data().len(), 4);
    assert!(filtered_data.has_selected_rows());
}

#[test]
fn test_has_selected_rows_empty_data() {
    let data = get_engine_data(0);
    let filtered_data = FilteredEngineData::try_new(data, vec![]).unwrap();

    assert!(!filtered_data.has_selected_rows());
}

#[test]
fn test_has_selected_rows_selection_vector_shorter_than_data() {
    let data = get_engine_data(3);
    let filtered_data = FilteredEngineData::try_new(data, vec![false, false]).unwrap();

    assert!(filtered_data.has_selected_rows());
}

#[test]
fn test_has_selected_rows_selection_vector_same_length_all_false() {
    let data = get_engine_data(2);
    let filtered_data = FilteredEngineData::try_new(data, vec![false, false]).unwrap();

    assert!(!filtered_data.has_selected_rows());
}

#[test]
fn test_has_selected_rows_selection_vector_same_length_some_true() {
    let data = get_engine_data(3);
    let filtered_data = FilteredEngineData::try_new(data, vec![true, false, true]).unwrap();

    assert!(filtered_data.has_selected_rows());
}

#[test]
fn test_try_new_selection_vector_larger_than_data() {
    let data = get_engine_data(2);
    let result = FilteredEngineData::try_new(data, vec![true, false, true]);

    assert!(result.is_err());
    if let Err(e) = result {
        assert!(e
            .to_string()
            .contains("Selection vector is larger than data length"));
        assert!(e.to_string().contains("3 > 2"));
    }
}

#[test]
fn test_from_engine_data() {
    let data = get_engine_data(3);
    let data_len = data.len();

    let filtered_data: FilteredEngineData<Rows> = data.into();

    assert!(filtered_data.selection_vector().is_empty());
    assert_eq!(filtered_data.data().len(), data_len);
    assert_eq!(filtered_data.data().len(), 3);
    assert!(filtered_data.has_selected_rows());
}

#[test]
fn filtered_apply_seclection_vector_full() {
    let data = get_engine_data(4);
    let filtered = FilteredEngineData::try_new(data, vec![true, false, true, false]).unwrap();
    let data = filtered.apply_selection_vector().unwrap();
    assert_eq!(data.len(), 2);
}

#[test]
fn filtered_apply_seclection_vector_partial() {
    let data = get_engine_data(4);
    let filtered = FilteredEngineData::try_new(data, vec![true, false]).unwrap();
    let data = filtered.apply_selection_vector().unwrap();
    assert_eq!(data.len(), 3);
}

/// A column of bytes.
struct BinaryColumn(Vec<Option<Vec<u8>>>);

impl<'a> GetData<'a> for BinaryColumn {
    fn get_binary(&'a self, row_index: usize, _field_name: &str) -> DeltaResult<Option<&'a [u8]>> {
        Ok(self.0[row_index].as_deref())
    }
}

#[test]
fn test_get_binary_some_value() {
    let column = BinaryColumn(vec![Some(b"hello".to_vec()), Some(b"world".to_vec()), None]);
    let getter: &dyn GetData<'_> = &column;

    let result: Option<&[u8]> = getter.get_binary(0, "binary_field").unwrap();
    assert_eq!(result, Some(b"hello".as_ref()));

    let result: Option<&[u8]> = getter.get_binary(1, "binary_field").unwrap();
    assert_eq!(result, Some(b"world".as_ref()));

    let result: Option<&[u8]> = getter.get_binary(2, "binary_field").unwrap();
    assert_eq!(result, None);
}

#[test]
fn test_get_binary_required() {
    let column = BinaryColumn(vec![Some(b"hello".to_vec())]);
    let getter: &dyn GetData<'_> = &column;

    let result: &[u8] = require_data(getter.get_binary(0, "binary_field"), "binary_field").unwrap();
    assert_eq!(result, b"hello");
}

#[test]
fn test_get_binary_required_missing() {
    let column = BinaryColumn(vec![None]);
    let getter: &dyn GetData<'_> = &column;

    let result: DeltaResult<&[u8]> =
        require_data(getter.get_binary(0, "binary_field"), "binary_field");
    assert!(result.is_err());
    if let Err(e) = result {
        assert!(e.to_string().contains("Data missing for field"));
        assert_eq!(
            e.to_string(),
            "Expected is missing: Data missing for field binary_field"
        );
    }
}

#[test]
fn test_get_binary_empty_bytes() {
    let column = BinaryColumn(vec![Some(b"".to_vec())]);
    let getter: &dyn GetData<'_> = &column;

    let result: Option<&[u8]> = getter.get_binary(0, "binary_field").unwrap();
    assert_eq!(result, Some([].as_ref()));
    assert_eq!(result.unwrap().len(), 0);
}

#[test]
fn a_column_refuses_the_types_that_it_does_not_hold() {
    let column = BinaryColumn(vec![Some(b"hello".to_vec())]);
    let getter: &dyn GetData<'_> = &column;
    for (error, ty) in [
        (getter.get_bool(0, "f").unwrap_err(), "bool"),
        (getter.get_byte(0, "f").unwrap_err(), "i8"),
        (getter.get_short(0, "f").unwrap_err(), "i16"),
        (getter.get_int(0, "f").unwrap_err(), "i32"),
        (getter.get_long(0, "f").unwrap_err(), "i64"),
        (getter.get_float(0, "f").unwrap_err(), "f32"),
        (getter.get_double(0, "f").unwrap_err(), "f64"),
        (getter.get_date(0, "f").unwrap_err(), "i32"),
        (getter.get_timestamp(0, "f").unwrap_err(), "i64"),
        (getter.get_decimal(0, "f").unwrap_err(), "i128"),
        (getter.get_str(0, "f").unwrap_err(), "&'a str"),
    ] {
        assert_eq!(
            error.to_string(),
            format!("Expected column type: f is not of type {ty}")
        );
    }
    assert!(getter.get_list(0, "f").is_err());
    assert!(getter.get_map(0, "f").is_err());
}

#[test]
fn a_column_without_values_gives_nothing() {
    let getter: &dyn GetData<'_> = &();
    assert!(getter.get_bool(0, "f").unwrap().is_none());
    assert!(getter.get_long(7, "f").unwrap().is_none());
    assert!(getter.get_str(0, "f").unwrap().is_none());
    assert!(getter.get_list(0, "f").unwrap().is_none());
    assert!(getter.get_map(0, "f").unwrap().is_none());
}

fn collect_indices(row_count: usize, selection: &[bool]) -> Vec<usize> {
    RowIndexIterator::new(row_count, selection).collect()
}

#[test]
fn row_index_iter() {
    let cases: [(usize, &[bool], Vec<usize>); 10] = [
        (0, &[], vec![]),
        (3, &[], vec![0, 1, 2]),
        (3, &[true, true, true], vec![0, 1, 2]),
        (3, &[false, false, false], vec![]),
        (5, &[true, false, false, true, true], vec![0, 3, 4]),
        (4, &[false, false, true, true], vec![2, 3]),
        (3, &[true, false, false], vec![0]),
        // The rows beyond the selection are selected.
        (4, &[false, true], vec![1, 2, 3]),
        (4, &[true, false], vec![0, 2, 3]),
        (4, &[false, true, false, true], vec![1, 3]),
    ];
    for (row_count, selection, expected) in cases {
        assert_eq!(collect_indices(row_count, selection), expected);
    }
}

#[test]
fn row_index_iter_gives_rows_one_by_one() {
    let selection = [false, true, false];
    let mut rows = RowIndexIterator::new(5, &selection);
    assert_eq!(rows.num_rows(), 5);
    assert_eq!(rows.next(), Some(1));
    assert_eq!(rows.next(), Some(3));
    assert_eq!(rows.next(), Some(4));
    assert_eq!(rows.next(), None);
    assert_eq!(rows.next(), None);
    assert_eq!(rows.num_rows(), 5);
}

#[test]
fn map_item_keys_includes_null_valued_keys() {
    let keys = strings(&[Some("a"), Some("b")]);
    let values = strings(&[Some("1"), None]);
    let map = MapItem::new(&keys, &values, 0..2);

    let mut seen: Vec<&str> = map.keys();
    seen.sort_unstable();
    assert_eq!(seen, vec!["a", "b"]);

    assert_eq!(map.get("a"), Some("1"));
    assert_eq!(map.get("b"), None);
    assert_eq!(map.materialize(), vec![("a".to_string(), "1".to_string())]);
}

#[test]
fn map_item_keys_empty() {
    let keys = strings(&[]);
    let values = strings(&[]);
    let map = MapItem::new(&keys, &values, 0..0);
    assert_eq!(map.keys().len(), 0);
}

#[test]
fn map_item_takes_the_last_entry_of_a_key() {
    let keys = strings(&[Some("x"), Some("a"), Some("b"), Some("a"), Some("y")]);
    let values = strings(&[Some("0"), Some("1"), Some("2"), Some("3"), Some("4")]);
    let map = MapItem::new(&keys, &values, 1..4);
    assert_eq!(map.get("a"), Some("3"));
    assert_eq!(map.get("b"), Some("2"));
    assert_eq!(map.get("x"), None);
    assert_eq!(map.get("y"), None);
    let mut entries = map.materialize();
    entries.sort();
    assert_eq!(
        entries,
        vec![
            ("a".to_string(), "3".to_string()),
            ("b".to_string(), "2".to_string())
        ]
    );

    // Where the last entry of a key has no value, only the materialized map falls back to an
    // earlier one.
    let values = strings(&[Some("0"), Some("1"), Some("2"), None, Some("4")]);
    let map = MapItem::new(&keys, &values, 1..4);
    assert_eq!(map.get("a"), None);
    let mut entries = map.materialize();
    entries.sort();
    assert_eq!(
        entries,
        vec![
            ("a".to_string(), "1".to_string()),
            ("b".to_string(), "2".to_string())
        ]
    );
}

#[test]
fn list_item_holds_a_range_of_a_column() {
    let values = strings(&[Some("a"), Some("b"), None, Some("d")]);
    assert_eq!(StringArrayAccessor::len(&values), 4);
    assert!(!StringArrayAccessor::is_empty(&values));
    assert!(values.is_valid(1));
    assert!(!values.is_valid(2));
    assert_eq!(values.value(2), "");

    let list = ListItem::new(&values, 1..4);
    assert_eq!(list.len(), 3);
    assert!(!list.is_empty());
    assert_eq!(list.get(0), "b");
    assert_eq!(list.get(2), "d");
    assert_eq!(list.materialize(), vec!["b", "", "d"]);

    let empty = ListItem::new(&values, 2..2);
    assert_eq!(empty.len(), 0);
    assert!(empty.is_empty());
    assert!(empty.materialize().is_empty());

    let accessor: &dyn StringArrayAccessor = &values;
    assert_eq!(ListItem::new(accessor, 0..1).materialize(), vec!["a"]);
}

#[test]
fn filter_needs_an_answer_for_each_row() {
    let kept = filter_by_predicate(vec![false, true, true], get_engine_data(3)).unwrap();
    assert_eq!(kept.0, vec!["row1", "row2"]);

    let error = filter_by_predicate(vec![false, true], get_engine_data(3)).unwrap_err();
    assert!(matches!(error, Error::InternalError(_)));
    assert!(error
        .to_string()
        .contains("predicate output length 2 != batch length 3"));
}

#[test]
fn filtered_data_gives_back_its_parts() {
    let filtered = FilteredEngineData::try_new(get_engine_data(2), vec![true, false]).unwrap();
    let (data, selection) = filtered.into_parts();
    assert_eq!(data.len(), 2);
    assert!(!data.is_empty());
    assert!(data.has_field(&ColumnName::top_level("value")));
    assert_eq!(selection, vec![true, false]);
}

#[test]
fn lists_and_maps_know_whether_they_lie_within_their_columns() {
    let two = strings(&[Some("a"), Some("b")]);
    let three = strings(&[Some("x"), Some("y"), Some("z")]);
    assert!(ListItem::new(&two, 0..2).is_in_bounds());
    assert!(!ListItem::new(&two, 1..3).is_in_bounds());
    assert!(ListItem::new(&two, 5..5).is_in_bounds());
    assert!(MapItem::new(&two, &three, 0..2).is_in_bounds());
    assert!(!MapItem::new(&two, &three, 0..3).is_in_bounds());
    assert!(!MapItem::new(&three, &two, 0..3).is_in_bounds());
}

#[test]
fn a_wrong_type_is_named() {
    assert_eq!(
        wrong_type("add.tags", "StructList<'a>").to_string(),
        "Expected column type: add.tags is not of type StructList<'a>"
    );
}

#[test]
fn distinct_keys_are_materialized_as_they_are_found() {
    let keys = strings(&[Some("a"), Some("b"), Some("c"), Some("d")]);
    let values = strings(&[Some("1"), None, Some("3"), Some("4")]);
    let map = MapItem::new(&keys, &values, 0..3);
    let entries = map.materialize();
    for key in ["a", "b", "c", "d"] {
        let entry = entries.iter().find(|entry| entry.0 == key);
        assert_eq!(entry.map(|entry| entry.1.as_str()), map.get(key));
    }
    assert_eq!(entries.len(), 2);
}
