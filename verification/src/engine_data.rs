//! Data as an engine hands it over: batches of rows, of which some are selected, and the strings in
//! their lists and maps.

use std::ops::Range;

use vstd::prelude::*;
use vstd::std_specs::convert::FromSpecImpl;

use crate::error::{DeltaResult, Error};
use crate::expressions::column_names::ColumnName;
use crate::expressions::floats::{Float32, Float64};
use crate::expressions::scalars::ArrayData;
use crate::schema::StructType;
use crate::text::{decimal, push_decimal, same_text};

verus! {

// ---------------------------------------------------------------------------------------------
// Selected rows
// ---------------------------------------------------------------------------------------------

/// Whether a row is selected: rows beyond the end of the selection are.
pub open spec fn is_selected(selection: Seq<bool>, row: int) -> bool {
    row >= selection.len() || selection[row]
}

/// The selected rows from one row up to another, in order.
pub open spec fn selected_rows(selection: Seq<bool>, from: int, to: int) -> Seq<int>
    decreases to - from,
{
    if from >= to {
        Seq::empty()
    } else if is_selected(selection, from) {
        seq![from] + selected_rows(selection, from + 1, to)
    } else {
        selected_rows(selection, from + 1, to)
    }
}

/// Gives the selected rows of a batch, one after another.
#[derive(Debug)]
pub struct RowIndexIterator<'sv> {
    sv_pos: usize,
    selection_vector: &'sv [bool],
    row_count: usize,
}

impl<'sv> RowIndexIterator<'sv> {
    /// The rows that are still to come.
    pub closed spec fn remaining(self) -> Seq<int> {
        selected_rows(self.selection_vector@, self.sv_pos as int, self.row_count as int)
    }

    /// How many rows the batch has.
    pub closed spec fn rows(self) -> usize {
        self.row_count
    }

    /// All selected rows of a batch with that many rows.
    pub fn new(row_count: usize, selection_vector: &'sv [bool]) -> (r: RowIndexIterator<'sv>)
        ensures
            r.rows() == row_count,
            r.remaining() == selected_rows(selection_vector@, 0, row_count as int),
    {
        RowIndexIterator { sv_pos: 0, selection_vector, row_count }
    }

    /// How many rows the batch has, selected or not.
    pub fn num_rows(&self) -> (r: usize)
        ensures
            r == self.rows(),
    {
        self.row_count
    }

    /// The next selected row, if there is one.
    pub fn next(&mut self) -> (r: Option<usize>)
        ensures
            final(self).rows() == old(self).rows(),
            match r {
                Some(row) => old(self).remaining().len() > 0 && row == old(self).remaining()[0]
                    && final(self).remaining() == old(self).remaining().skip(1),
                None => old(self).remaining().len() == 0 && final(self).remaining().len() == 0,
            },
    {
        while self.sv_pos < self.row_count
            invariant
                self.row_count == old(self).row_count,
                self.remaining() == old(self).remaining(),
            decreases self.row_count - self.sv_pos,
        {
            let pos: usize = self.sv_pos;
            let ghost before = self.remaining();
            self.sv_pos += 1;
            if pos >= self.selection_vector.len() || self.selection_vector[pos] {
                assert(before =~= seq![pos as int] + self.remaining());
                assert(self.remaining() =~= before.skip(1));
                return Some(pos);
            }
        }
        None
    }

    /// The selected rows that are still to come.
    pub fn collect(self) -> (r: Vec<usize>)
        ensures
            r@.map_values(|row: usize| row as int) == self.remaining(),
    {
        let mut rows: RowIndexIterator<'sv> = self;
        let mut r: Vec<usize> = Vec::new();
        assert(self.remaining() =~= r@.map_values(|row: usize| row as int) + rows.remaining());
        loop
            invariant
                self.remaining() == r@.map_values(|row: usize| row as int) + rows.remaining(),
            decreases rows.remaining().len(),
        {
            let ghost done = r@;
            let ghost ahead = rows.remaining();
            match rows.next() {
                Some(row) => {
                    r.push(row);
                    assert(r@.map_values(|row: usize| row as int) =~= done.map_values(
                        |row: usize| row as int,
                    ) + seq![row as int]);
                    assert(ahead =~= seq![row as int] + rows.remaining());
                    assert(self.remaining() =~= r@.map_values(|row: usize| row as int)
                        + rows.remaining());
                },
                None => {
                    assert(self.remaining() =~= r@.map_values(|row: usize| row as int));
                    return r;
                },
            }
        }
    }
}

// ---------------------------------------------------------------------------------------------
// Batches
// ---------------------------------------------------------------------------------------------

/// A batch of rows that an engine holds.
pub trait EngineData: Sized {
    /// How many rows there are.
    closed spec fn rows(&self) -> nat {
        arbitrary()
    }

    /// Whether selecting rows of the batch may end with a result: the result depends on how the
    /// engine holds its data.
    closed spec fn may_select(&self, selection: Seq<bool>, result: DeltaResult<Self>) -> bool {
        true
    }

    /// How many rows there are.
    fn len(&self) -> (r: usize)
        ensures
            r == self.rows(),
    ;

    /// Whether there are no rows.
    fn is_empty(&self) -> (r: bool)
        ensures
            r == (self.rows() == 0),
    {
        self.len() == 0
    }

    /// Whether there is a field at a path.
    fn has_field(&self, name: &ColumnName) -> bool;

    /// The batch with further columns, one for each field of the schema.
    fn append_columns(&self, schema: StructType, columns: Vec<ArrayData>) -> (r: DeltaResult<Self>)
        ensures
            r matches Ok(data) ==> data.rows() == self.rows(),
    ;

    /// The selected rows. A selection that is longer than the batch is refused.
    fn apply_selection_vector(self, selection_vector: Vec<bool>) -> (r: DeltaResult<Self>)
        ensures
            self.may_select(selection_vector@, r),
            selection_vector@.len() > self.rows() ==> r is Err,
            r matches Ok(data) ==> data.rows() == selected_rows(
                selection_vector@,
                0,
                self.rows() as int,
            ).len(),
    ;
}

/// A batch of rows, and which of them are selected. Rows that the selection does not reach are
/// selected.
#[derive(Debug)]
pub struct FilteredEngineData<D: EngineData> {
    data: D,
    selection_vector: Vec<bool>,
}

impl<D: EngineData> FilteredEngineData<D> {
    /// The batch.
    pub closed spec fn batch(self) -> D {
        self.data
    }

    /// Which rows are selected.
    pub closed spec fn selection(self) -> Seq<bool> {
        self.selection_vector@
    }

    /// The selection is no longer than the batch.
    #[verifier::type_invariant]
    spec fn wf(self) -> bool {
        self.selection_vector@.len() <= self.data.rows()
    }

    /// A batch with a selection, which must not be longer than the batch.
    pub fn try_new(data: D, selection_vector: Vec<bool>) -> (r: DeltaResult<FilteredEngineData<D>>)
        ensures
            r is Ok <==> selection_vector@.len() <= data.rows(),
            r matches Ok(filtered) ==> filtered.batch() == data && filtered.selection()
                == selection_vector@,
            r matches Err(error) ==> error matches Error::InvalidSelectionVector(message)
                && message@ == "Selection vector is larger than data length: "@ + decimal(
                selection_vector@.len() as int,
            ) + " > "@ + decimal(data.rows() as int),
    {
        let rows: usize = data.len();
        if selection_vector.len() > rows {
            let mut message: String = "Selection vector is larger than data length: ".to_owned();
            push_decimal(&mut message, selection_vector.len() as i128);
            message.append(" > ");
            push_decimal(&mut message, rows as i128);
            return Err(Error::InvalidSelectionVector(message));
        }
        Ok(FilteredEngineData { data, selection_vector })
    }

    /// The batch.
    pub fn data(&self) -> (r: &D)
        ensures
            *r == self.batch(),
    {
        &self.data
    }

    /// Which rows are selected.
    pub fn selection_vector(&self) -> (r: &[bool])
        ensures
            r@ == self.selection(),
    {
        self.selection_vector.as_slice()
    }

    /// The batch, and which of its rows are selected.
    pub fn into_parts(self) -> (r: (D, Vec<bool>))
        ensures
            r.0 == self.batch(),
            r.1@ == self.selection(),
    {
        (self.data, self.selection_vector)
    }

    /// A batch with all rows selected.
    pub fn with_all_rows_selected(data: D) -> (r: FilteredEngineData<D>)
        ensures
            r.batch() == data,
            r.selection().len() == 0,
    {
        FilteredEngineData { data, selection_vector: Vec::new() }
    }

    /// The selected rows: what the batch gives for the selection.
    pub fn apply_selection_vector(self) -> (r: DeltaResult<D>)
        ensures
            self.batch().may_select(self.selection(), r),
            r matches Ok(data) ==> data.rows() == selected_rows(
                self.selection(),
                0,
                self.batch().rows() as int,
            ).len(),
    {
        self.data.apply_selection_vector(self.selection_vector)
    }

    /// Whether any row is selected.
    pub fn has_selected_rows(&self) -> (r: bool)
        ensures
            r == (selected_rows(self.selection(), 0, self.batch().rows() as int).len() > 0),
    {
        proof {
            use_type_invariant(self);
        }
        let rows: usize = self.data.len();
        if self.selection_vector.len() < rows {
            proof {
                lemma_selected_row(self.selection(), 0, rows as int, rows - 1);
            }
            return true;
        }
        let mut i: usize = 0;
        while i < self.selection_vector.len()
            invariant
                i <= self.selection_vector.len(),
                self.selection_vector.len() == rows,
                self.selection() == self.selection_vector@,
                rows == self.batch().rows(),
                forall|j: int| 0 <= j < i ==> !self.selection()[j],
            decreases self.selection_vector.len() - i,
        {
            if self.selection_vector[i] {
                proof {
                    lemma_selected_row(self.selection(), 0, rows as int, i as int);
                }
                return true;
            }
            i += 1;
        }
        proof {
            lemma_no_selected_row(self.selection(), 0, rows as int);
        }
        false
    }
}

impl<D: EngineData> From<D> for FilteredEngineData<D> {
    fn from(data: D) -> (r: FilteredEngineData<D>)
        ensures
            r.batch() == data,
            r.selection().len() == 0,
    {
        FilteredEngineData::with_all_rows_selected(data)
    }
}

impl<D: EngineData> FromSpecImpl<D> for FilteredEngineData<D> {
    open spec fn obeys_from_spec() -> bool {
        false
    }

    open spec fn from_spec(data: D) -> FilteredEngineData<D> {
        arbitrary()
    }
}

proof fn lemma_selected_row(selection: Seq<bool>, from: int, to: int, row: int)
    requires
        from <= row < to,
        is_selected(selection, row),
    ensures
        selected_rows(selection, from, to).len() > 0,
    decreases to - from,
{
    if from < row && !is_selected(selection, from) {
        lemma_selected_row(selection, from + 1, to, row);
    }
}

proof fn lemma_no_selected_row(selection: Seq<bool>, from: int, to: int)
    requires
        forall|row: int| from <= row < to ==> !(#[trigger] is_selected(selection, row)),
    ensures
        selected_rows(selection, from, to).len() == 0,
    decreases to - from,
{
    if from < to {
        lemma_no_selected_row(selection, from + 1, to);
    }
}

/// The rows of a batch for which a predicate holds, given whether it holds for each. There has to
/// be an answer for each row.
pub fn filter_by_predicate<D: EngineData>(selection_vector: Vec<bool>, batch: D) -> (r: DeltaResult<
    D,
>)
    ensures
        selection_vector@.len() != batch.rows() ==> (r matches Err(Error::InternalError(message))
            && message@ == "predicate output length "@ + decimal(selection_vector@.len() as int)
            + " != batch length "@ + decimal(batch.rows() as int)),
        selection_vector@.len() == batch.rows() ==> batch.may_select(selection_vector@, r),
        r matches Ok(data) ==> data.rows() == selected_rows(
            selection_vector@,
            0,
            batch.rows() as int,
        ).len(),
{
    let rows: usize = batch.len();
    if selection_vector.len() != rows {
        let mut message: String = "predicate output length ".to_owned();
        push_decimal(&mut message, selection_vector.len() as i128);
        message.append(" != batch length ");
        push_decimal(&mut message, rows as i128);
        return Err(Error::InternalError(message));
    }
    batch.apply_selection_vector(selection_vector)
}

// ---------------------------------------------------------------------------------------------
// Strings in lists and maps
// ---------------------------------------------------------------------------------------------

/// A column of strings that an engine holds.
pub trait StringArrayAccessor {
    /// The text at each position, whatever it is where there is none.
    closed spec fn texts(&self) -> Seq<Seq<char>> {
        arbitrary()
    }

    /// Whether there is a text, at each position.
    closed spec fn valid(&self) -> Seq<bool> {
        arbitrary()
    }

    /// How many positions there are.
    fn len(&self) -> (r: usize)
        ensures
            r == self.texts().len(),
    ;

    /// Whether there are no positions.
    fn is_empty(&self) -> (r: bool)
        ensures
            r == (self.texts().len() == 0),
    {
        self.len() == 0
    }

    /// The text at a position.
    fn value(&self, index: usize) -> (r: &str)
        requires
            index < self.texts().len(),
        ensures
            r@ == self.texts()[index as int],
    ;

    /// Whether there is a text at a position.
    fn is_valid(&self, index: usize) -> (r: bool)
        requires
            index < self.texts().len(),
        ensures
            r == self.valid()[index as int],
    ;
}

impl StringArrayAccessor for Vec<Option<String>> {
    open spec fn texts(&self) -> Seq<Seq<char>> {
        self@.map_values(
            |text: Option<String>|
                match text {
                    Some(text) => text@,
                    None => ""@,
                },
        )
    }

    open spec fn valid(&self) -> Seq<bool> {
        self@.map_values(|text: Option<String>| text is Some)
    }

    fn len(&self) -> (r: usize) {
        Vec::len(self)
    }

    fn value(&self, index: usize) -> (r: &str) {
        match &self[index] {
            Some(text) => text.as_str(),
            None => "",
        }
    }

    fn is_valid(&self, index: usize) -> (r: bool) {
        self[index].is_some()
    }
}

/// Whether a range of positions lies within so many.
pub open spec fn within(offsets: Range<usize>, len: nat) -> bool {
    offsets.start < offsets.end ==> offsets.end <= len
}

/// How many positions a range holds.
pub open spec fn range_len(offsets: Range<usize>) -> nat {
    if offsets.start < offsets.end {
        (offsets.end - offsets.start) as nat
    } else {
        0
    }
}

fn count(offsets: &Range<usize>) -> (r: usize)
    ensures
        r == range_len(*offsets),
{
    if offsets.start < offsets.end {
        offsets.end - offsets.start
    } else {
        0
    }
}

fn lies_within(offsets: &Range<usize>, len: usize) -> (r: bool)
    ensures
        r == within(*offsets, len as nat),
{
    offsets.start >= offsets.end || offsets.end <= len
}

/// The strings of a list in one row: a range of a column of strings.
pub struct ListItem<'a, A: StringArrayAccessor + ?Sized = dyn StringArrayAccessor + 'a> {
    values: &'a A,
    offsets: Range<usize>,
}

impl<'a, A: StringArrayAccessor + ?Sized> ListItem<'a, A> {
    /// The text at each position of the column.
    pub closed spec fn column(self) -> Seq<Seq<char>> {
        self.values.texts()
    }

    /// Which positions are in the list.
    pub closed spec fn range(self) -> Range<usize> {
        self.offsets
    }

    /// A list that holds a range of a column.
    pub fn new(values: &'a A, offsets: Range<usize>) -> (r: ListItem<'a, A>)
        ensures
            r.column() == values.texts(),
            r.range() == offsets,
    {
        ListItem { values, offsets }
    }

    /// How many strings there are.
    pub fn len(&self) -> (r: usize)
        ensures
            r == range_len(self.range()),
    {
        count(&self.offsets)
    }

    /// Whether there are no strings.
    pub fn is_empty(&self) -> (r: bool)
        ensures
            r == (range_len(self.range()) == 0),
    {
        count(&self.offsets) == 0
    }

    /// The string at a position of the list.
    pub fn get(&self, list_index: usize) -> (r: String)
        requires
            self.range().start + list_index < self.column().len(),
        ensures
            r@ == self.column()[self.range().start + list_index],
    {
        let len: usize = self.values.len();
        self.values.value(self.offsets.start + list_index).to_owned()
    }

    /// Whether the list lies within its column.
    pub fn is_in_bounds(&self) -> (r: bool)
        ensures
            r == within(self.range(), self.column().len()),
    {
        lies_within(&self.offsets, self.values.len())
    }

    /// All strings, in order.
    pub fn materialize(&self) -> (r: Vec<String>)
        requires
            within(self.range(), self.column().len()),
        ensures
            r@.len() == range_len(self.range()),
            forall|i: int|
                0 <= i < r@.len() ==> (#[trigger] r@[i])@ == self.column()[self.range().start + i],
    {
        let mut r: Vec<String> = Vec::new();
        let mut i: usize = self.offsets.start;
        while i < self.offsets.end
            invariant
                self.offsets.start <= i,
                i <= self.offsets.end || r@.len() == 0,
                i > self.offsets.start ==> i <= self.offsets.end,
                within(self.offsets, self.values.texts().len()),
                r@.len() == i - self.offsets.start,
                forall|j: int|
                    0 <= j < r@.len() ==> (#[trigger] r@[j])@ == self.values.texts()[
                        self.offsets.start + j],
            decreases self.offsets.end - i,
        {
            r.push(self.values.value(i).to_owned());
            i += 1;
        }
        r
    }
}

/// The last position, from `from` up to `to`, that holds a key.
pub open spec fn last_key(keys: Seq<Seq<char>>, key: Seq<char>, from: int, to: int) -> Option<int>
    decreases to - from,
{
    if to <= from {
        None
    } else if keys[to - 1] == key {
        Some(to - 1)
    } else {
        last_key(keys, key, from, to - 1)
    }
}

/// The last position, from `from` up to `to`, that holds a key with a value.
pub open spec fn last_entry(
    keys: Seq<Seq<char>>,
    valued: Seq<bool>,
    key: Seq<char>,
    from: int,
    to: int,
) -> Option<int>
    decreases to - from,
{
    if to <= from {
        None
    } else if keys[to - 1] == key && valued[to - 1] {
        Some(to - 1)
    } else {
        last_entry(keys, valued, key, from, to - 1)
    }
}

/// The value that a list of entries has under a key, if there is one.
pub open spec fn entry_value(entries: Seq<(String, String)>, key: Seq<char>) -> Option<Seq<char>>
    decreases entries.len(),
{
    if entries.len() == 0 {
        None
    } else if entries.last().0@ == key {
        Some(entries.last().1@)
    } else {
        entry_value(entries.drop_last(), key)
    }
}

/// No key is in a list of entries twice.
pub open spec fn keys_once(entries: Seq<(String, String)>) -> bool {
    forall|i: int, j: int|
        #![trigger entries[i], entries[j]]
        0 <= i < j < entries.len() ==> entries[i].0@ != entries[j].0@
}

proof fn lemma_entry_value(entries: Seq<(String, String)>, key: Seq<char>)
    ensures
        entry_value(entries, key) is Some <==> exists|i: int|
            0 <= i < entries.len() && (#[trigger] entries[i]).0@ == key,
    decreases entries.len(),
{
    if entries.len() > 0 {
        let rest = entries.drop_last();
        lemma_entry_value(rest, key);
        if exists|i: int| 0 <= i < rest.len() && (#[trigger] rest[i]).0@ == key {
            let i = choose|i: int| 0 <= i < rest.len() && (#[trigger] rest[i]).0@ == key;
            assert(entries[i].0@ == key);
        }
        if exists|i: int| 0 <= i < entries.len() && (#[trigger] entries[i]).0@ == key {
            let i = choose|i: int| 0 <= i < entries.len() && (#[trigger] entries[i]).0@ == key;
            if i < rest.len() {
                assert(rest[i].0@ == key);
            }
        }
    }
}

fn has_entry(entries: &Vec<(String, String)>, key: &str) -> (r: bool)
    ensures
        r == (entry_value(entries@, key@) is Some),
{
    let mut i: usize = 0;
    while i < entries.len()
        invariant
            i <= entries.len(),
            forall|j: int| 0 <= j < i ==> (#[trigger] entries@[j]).0@ != key@,
        decreases entries.len() - i,
    {
        if same_text(entries[i].0.as_str(), key) {
            assert(entries@[i as int].0@ == key@);
            proof {
                lemma_entry_value(entries@, key@);
            }
            return true;
        }
        i += 1;
    }
    proof {
        lemma_entry_value(entries@, key@);
    }
    false
}

/// The strings of a map in one row: a range of a column of keys and of a column of values.
pub struct MapItem<
    'a,
    K: StringArrayAccessor + ?Sized = dyn StringArrayAccessor + 'a,
    V: StringArrayAccessor + ?Sized = dyn StringArrayAccessor + 'a,
> {
    keys: &'a K,
    values: &'a V,
    offsets: Range<usize>,
}

impl<'a, K: StringArrayAccessor + ?Sized, V: StringArrayAccessor + ?Sized> MapItem<'a, K, V> {
    /// The key at each position.
    pub closed spec fn key_column(self) -> Seq<Seq<char>> {
        self.keys.texts()
    }

    /// The value at each position, whatever it is where there is none.
    pub closed spec fn value_column(self) -> Seq<Seq<char>> {
        self.values.texts()
    }

    /// Whether there is a value, at each position.
    pub closed spec fn valued(self) -> Seq<bool> {
        self.values.valid()
    }

    /// Which positions are in the map.
    pub closed spec fn range(self) -> Range<usize> {
        self.offsets
    }

    /// The range lies within both columns.
    pub open spec fn in_bounds(self) -> bool {
        within(self.range(), self.key_column().len()) && within(
            self.range(),
            self.value_column().len(),
        )
    }

    /// No key is in the map twice.
    pub open spec fn keys_differ(self) -> bool {
        forall|i: int, j: int|
            #![trigger self.key_column()[i], self.key_column()[j]]
            self.range().start <= i < j < self.range().end ==> self.key_column()[i]
                != self.key_column()[j]
    }

    /// Whether the entry at a position has a key, and a value.
    pub open spec fn has_value_at(self, i: int, key: Seq<char>) -> bool {
        self.range().start <= i < self.range().end && self.key_column()[i] == key
            && self.valued()[i]
    }

    /// The value under a key: that of the last entry with the key, if it has one.
    pub open spec fn looked_up(self, key: Seq<char>) -> Option<Seq<char>> {
        match last_key(self.key_column(), key, self.range().start as int, self.range().end as int) {
            Some(i) => if self.valued()[i] {
                Some(self.value_column()[i])
            } else {
                None
            },
            None => None,
        }
    }

    /// The value under a key, entries without a value left out.
    pub open spec fn materialized(self, key: Seq<char>) -> Option<Seq<char>> {
        match last_entry(
            self.key_column(),
            self.valued(),
            key,
            self.range().start as int,
            self.range().end as int,
        ) {
            Some(i) => Some(self.value_column()[i]),
            None => None,
        }
    }

    /// A map that holds a range of a column of keys and of a column of values.
    pub fn new(keys: &'a K, values: &'a V, offsets: Range<usize>) -> (r: MapItem<'a, K, V>)
        ensures
            r.key_column() == keys.texts(),
            r.value_column() == values.texts(),
            r.valued() == values.valid(),
            r.range() == offsets,
    {
        MapItem { keys, values, offsets }
    }

    /// The value under a key: that of the last entry with the key, if it has one.
    pub fn get(&self, key: &str) -> (r: Option<&'a str>)
        requires
            self.in_bounds(),
        ensures
            match (r, self.looked_up(key@)) {
                (Some(value), Some(expected)) => value@ == expected,
                (None, None) => true,
                _ => false,
            },
    {
        let mut i: usize = self.offsets.end;
        while i > self.offsets.start
            invariant
                self.in_bounds(),
                i <= self.offsets.end,
                last_key(
                    self.keys.texts(),
                    key@,
                    self.offsets.start as int,
                    self.offsets.end as int,
                ) == last_key(self.keys.texts(), key@, self.offsets.start as int, i as int),
            decreases i,
        {
            i -= 1;
            if same_text(self.keys.value(i), key) {
                return if self.values.is_valid(i) {
                    Some(self.values.value(i))
                } else {
                    None
                };
            }
        }
        None
    }

    /// The keys, in order, also those without a value.
    pub fn keys(&self) -> (r: Vec<&'a str>)
        requires
            self.in_bounds(),
        ensures
            r@.len() == range_len(self.range()),
            forall|i: int|
                0 <= i < r@.len() ==> (#[trigger] r@[i])@ == self.key_column()[
                    self.range().start + i],
    {
        let mut r: Vec<&'a str> = Vec::new();
        let mut i: usize = self.offsets.start;
        while i < self.offsets.end
            invariant
                self.in_bounds(),
                self.offsets.start <= i,
                i > self.offsets.start ==> i <= self.offsets.end,
                r@.len() == i - self.offsets.start,
                forall|j: int|
                    0 <= j < r@.len() ==> (#[trigger] r@[j])@ == self.keys.texts()[
                        self.offsets.start + j],
            decreases self.offsets.end - i,
        {
            r.push(self.keys.value(i));
            i += 1;
        }
        r
    }

    /// Whether the map lies within both columns.
    pub fn is_in_bounds(&self) -> (r: bool)
        ensures
            r == self.in_bounds(),
    {
        lies_within(&self.offsets, self.keys.len()) && lies_within(
            &self.offsets,
            self.values.len(),
        )
    }

    /// The entries that have a value, each key once. Of entries with the same key the last one with
    /// a value counts. Where no key is in the map twice, that is what [`get`](Self::get) finds.
    pub fn materialize(&self) -> (r: Vec<(String, String)>)
        requires
            self.in_bounds(),
        ensures
            keys_once(r@),
            forall|key: Seq<char>| #[trigger]
                entry_value(r@, key) == self.materialized(key),
            self.keys_differ() ==> forall|key: Seq<char>| #[trigger]
                entry_value(r@, key) == self.looked_up(key),
    {
        let ghost valued = self.valued();
        let ghost keys = self.keys.texts();
        let ghost values = self.values.texts();
        let mut r: Vec<(String, String)> = Vec::new();
        let mut i: usize = self.offsets.end;
        proof {
            assert forall|key: Seq<char>|
                last_entry(
                    keys,
                    valued,
                    key,
                    self.offsets.end as int,
                    self.offsets.end as int,
                ) is None by {}
        }
        while i > self.offsets.start
            invariant
                self.in_bounds(),
                keys == self.keys.texts(),
                values == self.values.texts(),
                valued == self.valued(),
                i <= self.offsets.end,
                i >= self.offsets.start || i == self.offsets.end,
                keys_once(r@),
                forall|key: Seq<char>| #[trigger]
                    entry_value(r@, key) == match last_entry(
                        keys,
                        valued,
                        key,
                        i as int,
                        self.offsets.end as int,
                    ) {
                        Some(j) => Some(values[j]),
                        None => None,
                    },
            decreases i,
        {
            i -= 1;
            let key: &str = self.keys.value(i);
            let ghost before = r@;
            proof {
                assert forall|other: Seq<char>|
                    #![trigger last_entry(keys, valued, other, i as int, self.offsets.end as int)]
                    last_entry(keys, valued, other, i as int, self.offsets.end as int)
                        == match last_entry(
                        keys,
                        valued,
                        other,
                        i + 1,
                        self.offsets.end as int,
                    ) {
                        Some(j) => Some(j),
                        None => if keys[i as int] == other && valued[i as int] {
                            Some(i as int)
                        } else {
                            None
                        },
                    } by {
                    lemma_last_entry_extends(
                        keys,
                        valued,
                        other,
                        i as int,
                        self.offsets.end as int,
                    );
                }
            }
            if self.values.is_valid(i) && !has_entry(&r, key) {
                proof {
                    lemma_entry_value(r@, key@);
                }
                r.push((key.to_owned(), self.values.value(i).to_owned()));
                assert(r@.drop_last() =~= before);
                assert(keys_once(r@)) by {
                    assert forall|m: int, n: int|
                        #![trigger r@[m], r@[n]]
                        0 <= m < n < r@.len() implies r@[m].0@ != r@[n].0@ by {
                        if n == before.len() {
                            assert(before[m].0@ != key@);
                        } else {
                            assert(before[m].0@ != before[n].0@);
                        }
                    }
                }
            }
            assert forall|other: Seq<char>| #[trigger]
                entry_value(r@, other) == match last_entry(
                    keys,
                    valued,
                    other,
                    i as int,
                    self.offsets.end as int,
                ) {
                    Some(j) => Some(values[j]),
                    None => None,
                } by {
                assert(entry_value(before, other) == match last_entry(
                    keys,
                    valued,
                    other,
                    i + 1,
                    self.offsets.end as int,
                ) {
                    Some(j) => Some(values[j]),
                    None => None,
                });
            }
        }
        proof {
            if self.keys_differ() {
                assert forall|key: Seq<char>| #[trigger] entry_value(r@, key)
                    == self.looked_up(key) by {
                    law_get_agrees_with_materialize(*self, key);
                }
            }
        }
        r
    }
}

proof fn lemma_last_entry_extends(
    keys: Seq<Seq<char>>,
    valued: Seq<bool>,
    key: Seq<char>,
    from: int,
    to: int,
)
    requires
        from < to,
    ensures
        last_entry(keys, valued, key, from, to) == match last_entry(
            keys,
            valued,
            key,
            from + 1,
            to,
        ) {
            Some(j) => Some(j),
            None => if keys[from] == key && valued[from] {
                Some(from)
            } else {
                None
            },
        },
    decreases to - from,
{
    if from + 1 < to {
        lemma_last_entry_extends(keys, valued, key, from, to - 1);
    } else {
        assert(last_entry(keys, valued, key, from, from) is None);
    }
}

// ---------------------------------------------------------------------------------------------
// Values in rows
// ---------------------------------------------------------------------------------------------

/// Whether a result says that a field is not of a type.
pub open spec fn is_wrong_type<T>(r: DeltaResult<Option<T>>, field: Seq<char>, ty: Seq<char>) -> bool {
    r matches Err(Error::UnexpectedColumnType(message)) && message@ == field
        + " is not of type "@ + ty
}

/// The error for a field that is not of the type that was asked for.
pub fn wrong_type(field_name: &str, ty: &str) -> (r: Error)
    ensures
        r matches Error::UnexpectedColumnType(message) && message@ == field_name@
            + " is not of type "@ + ty@,
{
    let mut message: String = field_name.to_owned();
    message.append(" is not of type ");
    message.append(ty);
    Error::UnexpectedColumnType(message)
}

/// A column that an engine holds, from which the values of rows are read. A column gives values of
/// the type that it holds and refuses the others, and gives nothing where a row has no value.
pub trait GetData<'a> {
    /// The truth value in a row.
    fn get_bool(&'a self, row_index: usize, field_name: &str) -> (r: DeltaResult<Option<bool>>)
        default_ensures
            is_wrong_type(r, field_name@, "bool"@),
    {
        Err(wrong_type(field_name, "bool"))
    }

    /// The 8-bit integer in a row.
    fn get_byte(&'a self, row_index: usize, field_name: &str) -> (r: DeltaResult<Option<i8>>)
        default_ensures
            is_wrong_type(r, field_name@, "i8"@),
    {
        Err(wrong_type(field_name, "i8"))
    }

    /// The 16-bit integer in a row.
    fn get_short(&'a self, row_index: usize, field_name: &str) -> (r: DeltaResult<Option<i16>>)
        default_ensures
            is_wrong_type(r, field_name@, "i16"@),
    {
        Err(wrong_type(field_name, "i16"))
    }

    /// The 32-bit integer in a row.
    fn get_int(&'a self, row_index: usize, field_name: &str) -> (r: DeltaResult<Option<i32>>)
        default_ensures
            is_wrong_type(r, field_name@, "i32"@),
    {
        Err(wrong_type(field_name, "i32"))
    }

    /// The 64-bit integer in a row.
    fn get_long(&'a self, row_index: usize, field_name: &str) -> (r: DeltaResult<Option<i64>>)
        default_ensures
            is_wrong_type(r, field_name@, "i64"@),
    {
        Err(wrong_type(field_name, "i64"))
    }

    /// The 32-bit floating-point number in a row.
    fn get_float(&'a self, row_index: usize, field_name: &str) -> (r: DeltaResult<Option<Float32>>)
        default_ensures
            is_wrong_type(r, field_name@, "f32"@),
    {
        Err(wrong_type(field_name, "f32"))
    }

    /// The 64-bit floating-point number in a row.
    fn get_double(&'a self, row_index: usize, field_name: &str) -> (r: DeltaResult<Option<Float64>>)
        default_ensures
            is_wrong_type(r, field_name@, "f64"@),
    {
        Err(wrong_type(field_name, "f64"))
    }

    /// The date in a row, as days since the Unix epoch.
    fn get_date(&'a self, row_index: usize, field_name: &str) -> (r: DeltaResult<Option<i32>>)
        default_ensures
            is_wrong_type(r, field_name@, "i32"@),
    {
        Err(wrong_type(field_name, "i32"))
    }

    /// The time in a row, as microseconds since the Unix epoch.
    fn get_timestamp(&'a self, row_index: usize, field_name: &str) -> (r: DeltaResult<Option<i64>>)
        default_ensures
            is_wrong_type(r, field_name@, "i64"@),
    {
        Err(wrong_type(field_name, "i64"))
    }

    /// The decimal in a row, without its point.
    fn get_decimal(&'a self, row_index: usize, field_name: &str) -> (r: DeltaResult<Option<i128>>)
        default_ensures
            is_wrong_type(r, field_name@, "i128"@),
    {
        Err(wrong_type(field_name, "i128"))
    }

    /// The text in a row.
    fn get_str(&'a self, row_index: usize, field_name: &str) -> (r: DeltaResult<Option<&'a str>>)
        default_ensures
            is_wrong_type(r, field_name@, "&'a str"@),
    {
        Err(wrong_type(field_name, "&'a str"))
    }

    /// The bytes in a row.
    fn get_binary(&'a self, row_index: usize, field_name: &str) -> (r: DeltaResult<
        Option<&'a [u8]>,
    >)
        default_ensures
            is_wrong_type(r, field_name@, "&'a [u8]"@),
    {
        Err(wrong_type(field_name, "&'a [u8]"))
    }

    /// The list of strings in a row.
    fn get_list(&'a self, row_index: usize, field_name: &str) -> (r: DeltaResult<
        Option<ListItem<'a>>,
    >)
        default_ensures
            is_wrong_type(r, field_name@, "ListItem<'a>"@),
    {
        Err(wrong_type(field_name, "ListItem<'a>"))
    }

    /// The map of strings in a row.
    fn get_map(&'a self, row_index: usize, field_name: &str) -> (r: DeltaResult<
        Option<MapItem<'a>>,
    >)
        default_ensures
            is_wrong_type(r, field_name@, "MapItem<'a>"@),
    {
        Err(wrong_type(field_name, "MapItem<'a>"))
    }
}

/// A column without values gives nothing in every row, whatever the type.
impl<'a> GetData<'a> for () {
    fn get_bool(&'a self, row_index: usize, field_name: &str) -> (r: DeltaResult<Option<bool>>)
        ensures
            r matches Ok(value) && value is None,
    {
        Ok(None)
    }

    fn get_byte(&'a self, row_index: usize, field_name: &str) -> (r: DeltaResult<Option<i8>>)
        ensures
            r matches Ok(value) && value is None,
    {
        Ok(None)
    }

    fn get_short(&'a self, row_index: usize, field_name: &str) -> (r: DeltaResult<Option<i16>>)
        ensures
            r matches Ok(value) && value is None,
    {
        Ok(None)
    }

    fn get_int(&'a self, row_index: usize, field_name: &str) -> (r: DeltaResult<Option<i32>>)
        ensures
            r matches Ok(value) && value is None,
    {
        Ok(None)
    }

    fn get_long(&'a self, row_index: usize, field_name: &str) -> (r: DeltaResult<Option<i64>>)
        ensures
            r matches Ok(value) && value is None,
    {
        Ok(None)
    }

    fn get_float(&'a self, row_index: usize, field_name: &str) -> (r: DeltaResult<Option<Float32>>)
        ensures
            r matches Ok(value) && value is None,
    {
        Ok(None)
    }

    fn get_double(&'a self, row_index: usize, field_name: &str) -> (r: DeltaResult<Option<Float64>>)
        ensures
            r matches Ok(value) && value is None,
    {
        Ok(None)
    }

    fn get_date(&'a self, row_index: usize, field_name: &str) -> (r: DeltaResult<Option<i32>>)
        ensures
            r matches Ok(value) && value is None,
    {
        Ok(None)
    }

    fn get_timestamp(&'a self, row_index: usize, field_name: &str) -> (r: DeltaResult<Option<i64>>)
        ensures
            r matches Ok(value) && value is None,
    {
        Ok(None)
    }

    fn get_decimal(&'a self, row_index: usize, field_name: &str) -> (r: DeltaResult<Option<i128>>)
        ensures
            r matches Ok(value) && value is None,
    {
        Ok(None)
    }

    fn get_str(&'a self, row_index: usize, field_name: &str) -> (r: DeltaResult<Option<&'a str>>)
        ensures
            r matches Ok(value) && value is None,
    {
        Ok(None)
    }

    fn get_binary(&'a self, row_index: usize, field_name: &str) -> (r: DeltaResult<Option<&'a [u8]>>)
        ensures
            r matches Ok(value) && value is None,
    {
        Ok(None)
    }

    fn get_list(&'a self, row_index: usize, field_name: &str) -> (r: DeltaResult<Option<ListItem<'a>>>)
        ensures
            r matches Ok(value) && value is None,
    {
        Ok(None)
    }

    fn get_map(&'a self, row_index: usize, field_name: &str) -> (r: DeltaResult<Option<MapItem<'a>>>)
        ensures
            r matches Ok(value) && value is None,
    {
        Ok(None)
    }
}

/// A value that has to be there, from what was read of a field.
pub fn require_data<T>(value: DeltaResult<Option<T>>, field_name: &str) -> (r: DeltaResult<T>)
    ensures
        match value {
            Ok(Some(value)) => r == Ok::<T, Error>(value),
            Ok(None) => r matches Err(Error::MissingData(message)) && message@
                == "Data missing for field "@ + field_name@,
            Err(error) => r == Err::<T, Error>(error),
        },
{
    match value {
        Ok(Some(value)) => Ok(value),
        Ok(None) => {
            let mut message: String = "Data missing for field ".to_owned();
            message.append(field_name);
            Err(Error::MissingData(message))
        },
        Err(error) => Err(error),
    }
}

// ---------------------------------------------------------------------------------------------
// Laws
// ---------------------------------------------------------------------------------------------

proof fn lemma_found_at(
    keys: Seq<Seq<char>>,
    valued: Seq<bool>,
    key: Seq<char>,
    from: int,
    to: int,
)
    ensures
        last_key(keys, key, from, to) matches Some(i) ==> from <= i < to && keys[i] == key,
        last_entry(keys, valued, key, from, to) matches Some(i) ==> from <= i < to && keys[i]
            == key && valued[i],
        last_key(keys, key, from, to) is None ==> last_entry(keys, valued, key, from, to) is None,
        last_key(keys, key, from, to) matches Some(i) ==> valued[i] ==> last_entry(
            keys,
            valued,
            key,
            from,
            to,
        ) == Some(i),
    decreases to - from,
{
    if from < to {
        lemma_found_at(keys, valued, key, from, to - 1);
    }
}

/// A value that is found under a key is in the materialized map.
pub proof fn law_found_value_is_materialized<
    'a,
    K: StringArrayAccessor + ?Sized,
    V: StringArrayAccessor + ?Sized,
>(map: MapItem<'a, K, V>, key: Seq<char>)
    ensures
        map.looked_up(key) is Some ==> map.materialized(key) == map.looked_up(key),
{
    lemma_found_at(
        map.key_column(),
        map.valued(),
        key,
        map.range().start as int,
        map.range().end as int,
    );
}

/// Where no key is in a map twice, the materialized map has under each key what looking it up finds.
pub proof fn law_get_agrees_with_materialize<
    'a,
    K: StringArrayAccessor + ?Sized,
    V: StringArrayAccessor + ?Sized,
>(map: MapItem<'a, K, V>, key: Seq<char>)
    requires
        map.keys_differ(),
    ensures
        map.materialized(key) == map.looked_up(key),
{
    lemma_found_at(
        map.key_column(),
        map.valued(),
        key,
        map.range().start as int,
        map.range().end as int,
    );
}

/// A key is in the materialized map exactly when some entry has it and a value, and then it has the
/// value of the last such entry. Entries without a value are left out.
pub proof fn law_last_value_is_materialized<
    'a,
    K: StringArrayAccessor + ?Sized,
    V: StringArrayAccessor + ?Sized,
>(map: MapItem<'a, K, V>, key: Seq<char>)
    ensures
        map.materialized(key) is Some <==> exists|i: int| #[trigger] map.has_value_at(i, key),
        forall|i: int|
            #[trigger] map.has_value_at(i, key) && (forall|j: int| #[trigger]
                map.has_value_at(j, key) ==> j <= i) ==> map.materialized(key) == Some(
                map.value_column()[i],
            ),
{
    let start = map.range().start as int;
    let end = map.range().end as int;
    lemma_last_entry(map.key_column(), map.valued(), key, start, end);
    if let Some(last) = last_entry(map.key_column(), map.valued(), key, start, end) {
        assert(map.has_value_at(last, key));
        assert forall|i: int| #[trigger] map.has_value_at(i, key) && (forall|j: int| #[trigger]
            map.has_value_at(j, key) ==> j <= i) implies i == last by {}
    }
}

proof fn lemma_last_entry(
    keys: Seq<Seq<char>>,
    valued: Seq<bool>,
    key: Seq<char>,
    from: int,
    to: int,
)
    ensures
        match last_entry(keys, valued, key, from, to) {
            Some(last) => from <= last < to && keys[last] == key && valued[last] && forall|i: int|
                last < i < to ==> !((#[trigger] keys[i]) == key && valued[i]),
            None => forall|i: int| from <= i < to ==> !((#[trigger] keys[i]) == key && valued[i]),
        },
    decreases to - from,
{
    if from < to {
        lemma_last_entry(keys, valued, key, from, to - 1);
    }
}

proof fn lemma_selected_rows_within(selection: Seq<bool>, from: int, to: int)
    ensures
        forall|k: int|
            0 <= k < selected_rows(selection, from, to).len() ==> from <= #[trigger] selected_rows(
                selection,
                from,
                to,
            )[k] < to && is_selected(selection, selected_rows(selection, from, to)[k]),
    decreases to - from,
{
    if from < to {
        lemma_selected_rows_within(selection, from + 1, to);
        let rest = selected_rows(selection, from + 1, to);
        let rows = selected_rows(selection, from, to);
        assert forall|k: int| 0 <= k < rows.len() implies from <= #[trigger] rows[k] < to
            && is_selected(selection, rows[k]) by {
            if is_selected(selection, from) {
                if k > 0 {
                    assert(rows[k] == rest[k - 1]);
                }
            } else {
                assert(rows[k] == rest[k]);
            }
        }
    }
}

/// The rows that are given are exactly the selected rows of the batch, each once and in order.
pub proof fn law_rows_are_those_selected(selection: Seq<bool>, from: int, to: int, row: int)
    ensures
        selected_rows(selection, from, to).contains(row) <==> from <= row < to && is_selected(
            selection,
            row,
        ),
        forall|i: int, j: int|
            0 <= i < j < selected_rows(selection, from, to).len() ==> selected_rows(
                selection,
                from,
                to,
            )[i] < selected_rows(selection, from, to)[j],
    decreases to - from,
{
    let rows = selected_rows(selection, from, to);
    if from < to {
        law_rows_are_those_selected(selection, from + 1, to, row);
        lemma_selected_rows_within(selection, from + 1, to);
        let rest = selected_rows(selection, from + 1, to);
        if is_selected(selection, from) {
            assert(rows =~= seq![from] + rest);
            assert(rows[0] == from);
            if rest.contains(row) {
                let k = choose|k: int| 0 <= k < rest.len() && rest[k] == row;
                assert(rows[k + 1] == row);
            }
            if rows.contains(row) && row != from {
                let k = choose|k: int| 0 <= k < rows.len() && rows[k] == row;
                assert(rest[k - 1] == row);
            }
            assert forall|i: int, j: int| 0 <= i < j < rows.len() implies rows[i] < rows[j] by {
                assert(rows[j] == rest[j - 1]);
                if i > 0 {
                    assert(rows[i] == rest[i - 1]);
                }
            }
        } else {
            assert(rows =~= rest);
        }
    }
}

/// A row is given where the selection marks it, or does not reach it; not where the selection marks
/// it as left out.
pub proof fn law_rows_beyond_the_selection_are_given(
    selection: Seq<bool>,
    from: int,
    to: int,
    row: int,
)
    requires
        0 <= from <= row < to,
    ensures
        row >= selection.len() ==> selected_rows(selection, from, to).contains(row),
        row < selection.len() ==> (selected_rows(selection, from, to).contains(row)
            <==> selection[row]),
{
    law_rows_are_those_selected(selection, from, to, row);
}

} // verus!
