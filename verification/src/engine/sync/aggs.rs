//! Aggregates: the rows of some batches in groups, and one value for each group and aggregate.

use vstd::prelude::*;

use super::batch::{
    batches_view, extract_type, extract_value, type_at, value_at, Batch, BatchView, Failure,
};
use crate::error::{DeltaResult, Error};
use crate::expressions::column_names::{path_text, ColumnName};
use crate::expressions::scalars::{scalars_view, Scalar, ScalarView};
use crate::schema::{
    fields_view, DataType, FieldView, PrimitiveType, StructField, StructType, TypeView,
};

verus! {

// ---------------------------------------------------------------------------------------------
// Aggregates
// ---------------------------------------------------------------------------------------------

/// What a choice by key works on: it picks the row with the best key among those where the sentinel
/// is not null, and takes the value from it.
#[derive(Debug)]
pub struct NonNullByOperands {
    /// The column that the result is taken from.
    pub value: ColumnName,
    /// The column that must not be null.
    pub null_sentinel: ColumnName,
    /// The column that is compared.
    pub key: ColumnName,
}

/// A value made of the rows of a group.
#[derive(Debug)]
pub enum Agg {
    /// The least value of a column.
    Min(ColumnName),
    /// The greatest value of a column.
    Max(ColumnName),
    /// The sum of a column.
    Sum(ColumnName),
    /// How many rows have a value in a column.
    Count(ColumnName),
    /// How many rows there are.
    CountStar,
    /// The value at the least key.
    MinNonNullBy(NonNullByOperands),
    /// The value at the greatest key.
    MaxNonNullBy(NonNullByOperands),
}

/// Rows grouped by some columns, and aggregates of each group.
#[derive(Debug)]
pub struct Aggregate {
    /// The columns to group by; all rows are one group if there are none.
    pub group_by: Vec<ColumnName>,
    /// The aggregates.
    pub aggs: Vec<Agg>,
    /// The schema of the result: first the columns to group by, then the aggregates.
    pub schema: StructType,
}

/// Which of two keys is better.
#[derive(Debug, Clone, Copy, PartialEq, Eq, Structural)]
pub enum Comparison {
    /// The lesser one.
    Min,
    /// The greater one.
    Max,
}

/// What an aggregate is: paths to columns.
pub enum AggView {
    /// The least or greatest value of a column.
    Best(Comparison, Seq<Seq<char>>),
    /// The sum of a column.
    Sum(Seq<Seq<char>>),
    /// How many rows have a value in a column.
    Count(Seq<Seq<char>>),
    /// How many rows there are.
    CountStar,
    /// The value at the least or greatest key.
    NonNullBy {
        /// Which key is better.
        comparison: Comparison,
        /// The column that the result is taken from.
        value: Seq<Seq<char>>,
        /// The column that must not be null.
        null_sentinel: Seq<Seq<char>>,
        /// The column that is compared.
        key: Seq<Seq<char>>,
    },
}

impl View for Agg {
    type V = AggView;

    open spec fn view(&self) -> AggView {
        match self {
            Agg::Min(path) => AggView::Best(Comparison::Min, path@),
            Agg::Max(path) => AggView::Best(Comparison::Max, path@),
            Agg::Sum(path) => AggView::Sum(path@),
            Agg::Count(path) => AggView::Count(path@),
            Agg::CountStar => AggView::CountStar,
            Agg::MinNonNullBy(operands) => AggView::NonNullBy {
                comparison: Comparison::Min,
                value: operands.value@,
                null_sentinel: operands.null_sentinel@,
                key: operands.key@,
            },
            Agg::MaxNonNullBy(operands) => AggView::NonNullBy {
                comparison: Comparison::Max,
                value: operands.value@,
                null_sentinel: operands.null_sentinel@,
                key: operands.key@,
            },
        }
    }
}

/// What some aggregates are.
pub open spec fn aggs_view(aggs: Seq<Agg>) -> Seq<AggView> {
    aggs.map_values(|agg: Agg| agg@)
}

impl Comparison {
    /// Whether a candidate takes the place of the best so far.
    pub open spec fn replaced(self, best: Option<i64>, candidate: i64) -> bool {
        match (self, best) {
            (_, None) => true,
            (Comparison::Min, Some(best)) => candidate < best,
            (Comparison::Max, Some(best)) => candidate > best,
        }
    }

    /// Whether a candidate takes the place of the best so far.
    pub fn replaces(self, best: Option<i64>, candidate: i64) -> (r: bool)
        ensures
            r == self.replaced(best, candidate),
    {
        match (self, best) {
            (_, None) => true,
            (Comparison::Min, Some(best)) => candidate < best,
            (Comparison::Max, Some(best)) => candidate > best,
        }
    }
}

// ---------------------------------------------------------------------------------------------
// States
// ---------------------------------------------------------------------------------------------

/// How far an aggregate of a group has come.
#[derive(Debug, Clone, Copy)]
pub enum AggState {
    /// A least or greatest value, or a sum; nothing before the first value.
    Long(Option<i64>),
    /// How many rows were counted.
    Count(i64),
    /// The batch and row of the best key, and that key; nothing before the first one.
    Winner(Option<((usize, usize), i64)>),
}

/// How far an aggregate of a group has come.
pub enum StateView {
    /// A least or greatest value, or a sum; nothing before the first value.
    Long(Option<i64>),
    /// How many rows were counted.
    Count(i64),
    /// The batch and row of the best key, and that key; nothing before the first one.
    Winner(Option<((int, int), i64)>),
}

impl View for AggState {
    type V = StateView;

    open spec fn view(&self) -> StateView {
        match self {
            AggState::Long(value) => StateView::Long(*value),
            AggState::Count(n) => StateView::Count(*n),
            AggState::Winner(None) => StateView::Winner(None),
            AggState::Winner(Some((at, key))) => StateView::Winner(
                Some(((at.0 as int, at.1 as int), *key)),
            ),
        }
    }
}

/// The value of a row of some batches at a path.
pub open spec fn read(input: Seq<BatchView>, at: (int, int), path: Seq<Seq<char>>) -> Option<
    ScalarView,
> {
    value_at(input[at.0].fields, input[at.0].rows[at.1], path)
}

/// The 64-bit integer of a row of some batches at a path.
pub open spec fn read_long(input: Seq<BatchView>, at: (int, int), path: Seq<Seq<char>>) -> Option<
    i64,
> {
    match read(input, at, path) {
        Some(ScalarView::Long(value)) => Some(value),
        _ => None,
    }
}

impl AggView {
    /// The state before the first row.
    pub open spec fn initial(self) -> StateView {
        match self {
            AggView::Best(_, _) => StateView::Long(None),
            AggView::Sum(_) => StateView::Long(None),
            AggView::Count(_) => StateView::Count(0),
            AggView::CountStar => StateView::Count(0),
            AggView::NonNullBy { .. } => StateView::Winner(None),
        }
    }

    /// The state after another row.
    pub open spec fn step(self, state: StateView, input: Seq<BatchView>, at: (int, int)) -> Result<
        StateView,
        Failure,
    > {
        match (self, state) {
            (AggView::Best(comparison, path), StateView::Long(best)) => {
                match read_long(input, at, path) {
                    Some(value) if comparison.replaced(best, value) => Ok(
                        StateView::Long(Some(value)),
                    ),
                    _ => Ok(state),
                }
            },
            (AggView::Sum(path), StateView::Long(sum)) => {
                match (sum, read_long(input, at, path)) {
                    (_, None) => Ok(state),
                    (None, Some(value)) => Ok(StateView::Long(Some(value))),
                    (Some(sum), Some(value)) => if i64::MIN <= sum + value <= i64::MAX {
                        Ok(StateView::Long(Some((sum + value) as i64)))
                    } else {
                        Err(Failure::Generic("SyncPlanExecutor SUM aggregate overflowed i64"@))
                    },
                }
            },
            (AggView::Count(path), StateView::Count(n)) => {
                if read(input, at, path) is None {
                    Ok(state)
                } else {
                    counted(n)
                }
            },
            (AggView::CountStar, StateView::Count(n)) => counted(n),
            (
                AggView::NonNullBy { comparison, value: _, null_sentinel, key },
                StateView::Winner(winner),
            ) => {
                let best = match winner {
                    Some((_, best)) => Some(best),
                    None => None,
                };
                match read_long(input, at, key) {
                    Some(candidate) if read(input, at, null_sentinel) is Some
                        && comparison.replaced(best, candidate) => Ok(
                        StateView::Winner(Some((at, candidate))),
                    ),
                    _ => Ok(state),
                }
            },
            _ => Err(Failure::Generic("Aggregate state is of another aggregate"@)),
        }
    }

    /// The state after some rows.
    pub open spec fn state_of(self, input: Seq<BatchView>, rows: Seq<(int, int)>) -> Result<
        StateView,
        Failure,
    >
        decreases rows.len(),
    {
        if rows.len() == 0 {
            Ok(self.initial())
        } else {
            match self.state_of(input, rows.drop_last()) {
                Err(failure) => Err(failure),
                Ok(state) => self.step(state, input, rows.last()),
            }
        }
    }
}

/// One more row counted.
pub open spec fn counted(n: i64) -> Result<StateView, Failure> {
    if n < i64::MAX {
        Ok(StateView::Count((n + 1) as i64))
    } else {
        Err(Failure::Generic("SyncPlanExecutor COUNT aggregate overflowed i64"@))
    }
}

/// The 64-bit integer of a row at a path.
fn extract_long(batch: &Batch, row: usize, path: &ColumnName) -> (r: Option<i64>)
    requires
        row < batch.rows@.len(),
    ensures
        r == (match value_at(batch@.fields, batch@.rows[row as int], path@) {
            Some(ScalarView::Long(value)) => Some(value),
            _ => None,
        }),
{
    assert(batch@.rows[row as int] == scalars_view(batch.rows@[row as int]@));
    match extract_value(&batch.schema, batch.rows[row].as_slice(), path) {
        Some(Scalar::Long(value)) => Some(*value),
        _ => None,
    }
}

/// Whether a row has a value at a path.
fn has_value(batch: &Batch, row: usize, path: &ColumnName) -> (r: bool)
    requires
        row < batch.rows@.len(),
    ensures
        r == (value_at(batch@.fields, batch@.rows[row as int], path@) is Some),
{
    assert(batch@.rows[row as int] == scalars_view(batch.rows@[row as int]@));
    extract_value(&batch.schema, batch.rows[row].as_slice(), path).is_some()
}

fn count_one(n: i64) -> (r: DeltaResult<AggState>)
    ensures
        match counted(n) {
            Ok(state) => r matches Ok(next) && next@ == state,
            Err(failure) => r matches Err(error) && failure.is(error),
        },
{
    if n < i64::MAX {
        Ok(AggState::Count(n + 1))
    } else {
        Err(Error::generic("SyncPlanExecutor COUNT aggregate overflowed i64"))
    }
}

fn best_of(comparison: Comparison, best: Option<i64>, value: Option<i64>) -> (r: Option<i64>)
    ensures
        r == (match value {
            Some(value) if comparison.replaced(best, value) => Some(value),
            _ => best,
        }),
{
    match value {
        Some(value) => if comparison.replaces(best, value) {
            Some(value)
        } else {
            best
        },
        None => best,
    }
}

fn winner_of(
    comparison: Comparison,
    winner: Option<((usize, usize), i64)>,
    at: (usize, usize),
    candidate: Option<i64>,
    qualified: bool,
) -> (r: Option<((usize, usize), i64)>)
    ensures
        r == (match candidate {
            Some(candidate) if qualified && comparison.replaced(
                match winner {
                    Some((_, best)) => Some(best),
                    None => None,
                },
                candidate,
            ) => Some((at, candidate)),
            _ => winner,
        }),
{
    let best: Option<i64> = match winner {
        Some((_, best)) => Some(best),
        None => None,
    };
    match candidate {
        Some(candidate) => if qualified && comparison.replaces(best, candidate) {
            Some((at, candidate))
        } else {
            winner
        },
        None => winner,
    }
}

impl Agg {
    /// The state before the first row.
    pub fn init_state(&self) -> (r: AggState)
        ensures
            r@ == self@.initial(),
    {
        match self {
            Agg::Min(_) => AggState::Long(None),
            Agg::Max(_) => AggState::Long(None),
            Agg::Sum(_) => AggState::Long(None),
            Agg::Count(_) => AggState::Count(0),
            Agg::CountStar => AggState::Count(0),
            Agg::MinNonNullBy(_) => AggState::Winner(None),
            Agg::MaxNonNullBy(_) => AggState::Winner(None),
        }
    }

    /// The state after another row.
    pub fn update(&self, state: AggState, input: &[Batch], at: (usize, usize)) -> (r: DeltaResult<
        AggState,
    >)
        requires
            at.0 < input@.len(),
            at.1 < input@[at.0 as int].rows@.len(),
        ensures
            match self@.step(state@, batches_view(input@), (at.0 as int, at.1 as int)) {
                Ok(next) => r matches Ok(found) && found@ == next,
                Err(failure) => r matches Err(error) && failure.is(error),
            },
    {
        let batch: &Batch = &input[at.0];
        assert(batches_view(input@)[at.0 as int] == batch@);
        match (self, state) {
            (Agg::Min(path), AggState::Long(best)) => Ok(
                AggState::Long(best_of(Comparison::Min, best, extract_long(batch, at.1, path))),
            ),
            (Agg::Max(path), AggState::Long(best)) => Ok(
                AggState::Long(best_of(Comparison::Max, best, extract_long(batch, at.1, path))),
            ),
            (Agg::Sum(path), AggState::Long(sum)) => match (sum, extract_long(batch, at.1, path)) {
                (_, None) => Ok(AggState::Long(sum)),
                (None, Some(value)) => Ok(AggState::Long(Some(value))),
                (Some(sum), Some(value)) => match sum.checked_add(value) {
                    Some(total) => Ok(AggState::Long(Some(total))),
                    None => Err(Error::generic("SyncPlanExecutor SUM aggregate overflowed i64")),
                },
            },
            (Agg::Count(path), AggState::Count(n)) => if has_value(batch, at.1, path) {
                count_one(n)
            } else {
                Ok(AggState::Count(n))
            },
            (Agg::CountStar, AggState::Count(n)) => count_one(n),
            (Agg::MinNonNullBy(operands), AggState::Winner(winner)) => Ok(
                AggState::Winner(
                    winner_of(
                        Comparison::Min,
                        winner,
                        at,
                        extract_long(batch, at.1, &operands.key),
                        has_value(batch, at.1, &operands.null_sentinel),
                    ),
                ),
            ),
            (Agg::MaxNonNullBy(operands), AggState::Winner(winner)) => Ok(
                AggState::Winner(
                    winner_of(
                        Comparison::Max,
                        winner,
                        at,
                        extract_long(batch, at.1, &operands.key),
                        has_value(batch, at.1, &operands.null_sentinel),
                    ),
                ),
            ),
            _ => Err(Error::generic("Aggregate state is of another aggregate")),
        }
    }
}

// ---------------------------------------------------------------------------------------------
// Checks
// ---------------------------------------------------------------------------------------------

/// The type of 64-bit integers.
pub open spec fn long_type() -> TypeView {
    TypeView::Primitive(PrimitiveType::Long)
}

/// Why there are no 64-bit integers at a path.
pub open spec fn long_failure(fields: Seq<FieldView>, path: Seq<Seq<char>>) -> Option<Failure> {
    match type_at(fields, path) {
        Err(failure) => Some(failure),
        Ok(ty) => if ty == long_type() {
            None
        } else {
            Some(
                Failure::Unsupported(
                    "SyncPlanExecutor aggregate operand `"@ + path_text(path, path.len())
                        + "` has non-LONG type"@,
                ),
            )
        },
    }
}

impl AggView {
    /// Why the aggregate cannot have results of a type.
    pub open spec fn bind_failure(self, output: TypeView) -> Option<Failure> {
        match self {
            AggView::NonNullBy { .. } => None,
            AggView::Best(_, _) | AggView::Sum(_) => if output == long_type() {
                None
            } else {
                Some(
                    Failure::Unsupported(
                        "SyncPlanExecutor min/max/sum aggregate with non-LONG value"@,
                    ),
                )
            },
            AggView::Count(_) | AggView::CountStar => if output == long_type() {
                None
            } else {
                Some(
                    Failure::Unsupported("SyncPlanExecutor count aggregate with non-LONG output"@),
                )
            },
        }
    }

    /// Why the aggregate cannot read a batch with those fields.
    pub open spec fn prepare_failure(self, fields: Seq<FieldView>) -> Option<Failure> {
        match self {
            AggView::Best(_, path) => long_failure(fields, path),
            AggView::Sum(path) => long_failure(fields, path),
            AggView::Count(path) => match type_at(fields, path) {
                Ok(_) => None,
                Err(failure) => Some(failure),
            },
            AggView::CountStar => None,
            AggView::NonNullBy { comparison: _, value: _, null_sentinel, key } => {
                match type_at(fields, null_sentinel) {
                    Err(failure) => Some(failure),
                    Ok(_) => long_failure(fields, key),
                }
            },
        }
    }
}

/// Why the first of `n` aggregates that cannot have its results does not.
pub open spec fn binds_failure(aggs: Seq<AggView>, output: Seq<FieldView>, n: nat) -> Option<
    Failure,
>
    decreases n,
{
    if n == 0 || n > aggs.len() || n > output.len() {
        None
    } else {
        match binds_failure(aggs, output, (n - 1) as nat) {
            Some(failure) => Some(failure),
            None => aggs[n - 1].bind_failure(output[n - 1].ty),
        }
    }
}

/// Why the first of `n` aggregates that cannot read a batch with those fields does not.
pub open spec fn prepares_failure(aggs: Seq<AggView>, fields: Seq<FieldView>, n: nat) -> Option<
    Failure,
>
    decreases n,
{
    if n == 0 || n > aggs.len() {
        None
    } else {
        match prepares_failure(aggs, fields, (n - 1) as nat) {
            Some(failure) => Some(failure),
            None => aggs[n - 1].prepare_failure(fields),
        }
    }
}

proof fn lemma_binds_failure_stays(aggs: Seq<AggView>, output: Seq<FieldView>, n: nat, m: nat)
    requires
        n <= m <= aggs.len(),
        m <= output.len(),
        binds_failure(aggs, output, n) is Some,
    ensures
        binds_failure(aggs, output, m) == binds_failure(aggs, output, n),
    decreases m,
{
    if n < m {
        lemma_binds_failure_stays(aggs, output, n, (m - 1) as nat);
    }
}

proof fn lemma_prepares_failure_stays(aggs: Seq<AggView>, fields: Seq<FieldView>, n: nat, m: nat)
    requires
        n <= m <= aggs.len(),
        prepares_failure(aggs, fields, n) is Some,
    ensures
        prepares_failure(aggs, fields, m) == prepares_failure(aggs, fields, n),
    decreases m,
{
    if n < m {
        lemma_prepares_failure_stays(aggs, fields, n, (m - 1) as nat);
    }
}

/// Whether a type is that of 64-bit integers.
pub(crate) fn is_long(ty: &DataType) -> (r: bool)
    ensures
        r == (ty@ == long_type()),
{
    match ty {
        DataType::Primitive(PrimitiveType::Long) => true,
        DataType::Array(inner) => {
            assert(ty@ == inner.view());
            false
        },
        DataType::Mapping(inner) => {
            assert(ty@ == inner.view());
            false
        },
        _ => false,
    }
}

/// Fails unless there are 64-bit integers at a path.
fn check_long(schema: &StructType, path: &ColumnName) -> (r: DeltaResult<()>)
    ensures
        match long_failure(schema@, path@) {
            None => r is Ok,
            Some(failure) => r matches Err(error) && failure.is(error),
        },
{
    match extract_type(schema, path) {
        Err(error) => Err(error),
        Ok(ty) => if is_long(ty) {
            Ok(())
        } else {
            let mut message: String = "SyncPlanExecutor aggregate operand `".to_owned();
            message.append(path.to_string().as_str());
            message.append("` has non-LONG type");
            Err(Error::Unsupported(message))
        },
    }
}

/// Fails unless there is a column at a path.
fn check_column(schema: &StructType, path: &ColumnName) -> (r: DeltaResult<()>)
    ensures
        match type_at(schema@, path@) {
            Ok(_) => r is Ok,
            Err(failure) => r matches Err(error) && failure.is(error),
        },
{
    match extract_type(schema, path) {
        Err(error) => Err(error),
        Ok(_) => Ok(()),
    }
}

impl Agg {
    /// Fails unless the aggregate can have results of a type.
    pub fn bind(&self, output: &DataType) -> (r: DeltaResult<()>)
        ensures
            match self@.bind_failure(output@) {
                None => r is Ok,
                Some(failure) => r matches Err(error) && failure.is(error),
            },
    {
        match self {
            Agg::MinNonNullBy(_) | Agg::MaxNonNullBy(_) => Ok(()),
            Agg::Min(_) | Agg::Max(_) | Agg::Sum(_) => if is_long(output) {
                Ok(())
            } else {
                Err(
                    Error::unsupported("SyncPlanExecutor min/max/sum aggregate with non-LONG value"),
                )
            },
            Agg::Count(_) | Agg::CountStar => if is_long(output) {
                Ok(())
            } else {
                Err(Error::unsupported("SyncPlanExecutor count aggregate with non-LONG output"))
            },
        }
    }

    /// Fails unless the aggregate can read a batch with that schema.
    pub fn prepare(&self, schema: &StructType) -> (r: DeltaResult<()>)
        ensures
            match self@.prepare_failure(schema@) {
                None => r is Ok,
                Some(failure) => r matches Err(error) && failure.is(error),
            },
    {
        match self {
            Agg::Min(path) => check_long(schema, path),
            Agg::Max(path) => check_long(schema, path),
            Agg::Sum(path) => check_long(schema, path),
            Agg::Count(path) => check_column(schema, path),
            Agg::CountStar => Ok(()),
            Agg::MinNonNullBy(operands) => match check_column(schema, &operands.null_sentinel) {
                Err(error) => Err(error),
                Ok(_) => check_long(schema, &operands.key),
            },
            Agg::MaxNonNullBy(operands) => match check_column(schema, &operands.null_sentinel) {
                Err(error) => Err(error),
                Ok(_) => check_long(schema, &operands.key),
            },
        }
    }
}

/// Fails unless each of the first `n` aggregates can have its results, those from `from` on.
pub(crate) fn bind_all(aggs: &[Agg], fields: &[StructField], from: usize, n: usize) -> (r: DeltaResult<()>)
    requires
        n <= aggs@.len(),
        from + n <= fields@.len(),
    ensures
        match binds_failure(aggs_view(aggs@), fields_view(fields@).skip(from as int), n as nat) {
            None => r is Ok,
            Some(failure) => r matches Err(error) && failure.is(error),
        },
{
    let ghost output = fields_view(fields@).skip(from as int);
    let count: usize = fields.len();
    let mut i: usize = 0;
    while i < n
        invariant
            i <= n <= aggs@.len(),
            from + n <= count == fields@.len(),
            output == fields_view(fields@).skip(from as int),
            binds_failure(aggs_view(aggs@), output, i as nat) is None,
        decreases n - i,
    {
        assert(aggs_view(aggs@)[i as int] == aggs@[i as int]@);
        assert(output[i as int] == fields@[from + i]@);
        match aggs[i].bind(&fields[from + i].data_type) {
            Err(error) => {
                proof {
                    lemma_binds_failure_stays(aggs_view(aggs@), output, (i + 1) as nat, n as nat);
                }
                return Err(error);
            },
            Ok(_) => {},
        }
        i += 1;
    }
    Ok(())
}

/// Fails unless each of the first `n` aggregates can read a batch with that schema.
pub(crate) fn prepare_all(aggs: &[Agg], n: usize, schema: &StructType) -> (r: DeltaResult<()>)
    requires
        n <= aggs@.len(),
    ensures
        match prepares_failure(aggs_view(aggs@), schema@, n as nat) {
            None => r is Ok,
            Some(failure) => r matches Err(error) && failure.is(error),
        },
{
    let mut i: usize = 0;
    while i < n
        invariant
            i <= n <= aggs@.len(),
            prepares_failure(aggs_view(aggs@), schema@, i as nat) is None,
        decreases n - i,
    {
        assert(aggs_view(aggs@)[i as int] == aggs@[i as int]@);
        match aggs[i].prepare(schema) {
            Err(error) => {
                proof {
                    lemma_prepares_failure_stays(
                        aggs_view(aggs@),
                        schema@,
                        (i + 1) as nat,
                        n as nat,
                    );
                }
                return Err(error);
            },
            Ok(_) => {},
        }
        i += 1;
    }
    Ok(())
}

} // verus!
