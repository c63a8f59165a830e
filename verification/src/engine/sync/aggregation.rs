//! Aggregation: one row for each group.

use vstd::prelude::*;

use super::aggs::{
    aggs_view, bind_all, binds_failure, long_type, read, Agg, AggState, AggView, Aggregate,
    StateView,
};
use super::batch::{
    batches_view, check_nulls, extract_type, extract_value, key_view, nulls_failure, option_view,
    paths_view, rows_view, type_at, Batch, BatchView, Failure, Key,
};
use super::groups::{group_rows, initial_states, job_of, Group, Job};
use crate::error::{DeltaResult, Error};
use crate::expressions::column_names::ColumnName;
use crate::expressions::scalars::{scalars_view, Scalar, ScalarView};
use crate::schema::{fields_view, DataType, FieldView, PrimitiveType, StructField, TypeView};
use crate::text::{decimal, push_decimal};

verus! {

// ---------------------------------------------------------------------------------------------
// Columns of several batches
// ---------------------------------------------------------------------------------------------

/// Why the first of `n` batches that lacks a column does so.
pub open spec fn missing_failure(input: Seq<BatchView>, path: Seq<Seq<char>>, n: nat) -> Option<
    Failure,
>
    decreases n,
{
    if n == 0 || n > input.len() {
        None
    } else {
        match missing_failure(input, path, (n - 1) as nat) {
            Some(failure) => Some(failure),
            None => match type_at(input[n - 1].fields, path) {
                Ok(_) => None,
                Err(failure) => Some(failure),
            },
        }
    }
}

/// The type of a column in each batch.
pub open spec fn column_types(input: Seq<BatchView>, path: Seq<Seq<char>>) -> Seq<TypeView> {
    input.map_values(|batch: BatchView| type_at(batch.fields, path)->Ok_0)
}

/// Why values of those types cannot stand in one column: the first of `n` that is unlike the first
/// of all.
pub open spec fn mixed_failure(types: Seq<TypeView>, n: nat) -> Option<Failure>
    decreases n,
{
    if n == 0 || n > types.len() {
        None
    } else {
        match mixed_failure(types, (n - 1) as nat) {
            Some(failure) => Some(failure),
            None => if types[n - 1] == types[0] {
                None
            } else {
                Some(
                    Failure::Misfit(
                        "It is not possible to interleave arrays of different data types ("@
                            + types[0].text() + " and "@ + types[n - 1].text() + ")"@,
                    ),
                )
            },
        }
    }
}

/// Why a column of several batches, and nulls of another type, cannot be one column.
pub open spec fn sources_failure(
    input: Seq<BatchView>,
    path: Seq<Seq<char>>,
    nulls: Option<TypeView>,
) -> Option<Failure> {
    match missing_failure(input, path, input.len()) {
        Some(failure) => Some(failure),
        None => {
            let types = column_types(input, path);
            let all = match nulls {
                Some(ty) => types.push(ty),
                None => types,
            };
            mixed_failure(all, all.len())
        },
    }
}

proof fn lemma_missing_failure_stays(
    input: Seq<BatchView>,
    path: Seq<Seq<char>>,
    n: nat,
    m: nat,
)
    requires
        n <= m <= input.len(),
        missing_failure(input, path, n) is Some,
    ensures
        missing_failure(input, path, m) == missing_failure(input, path, n),
    decreases m,
{
    if n < m {
        lemma_missing_failure_stays(input, path, n, (m - 1) as nat);
    }
}

proof fn lemma_mixed_failure_stays(types: Seq<TypeView>, n: nat, m: nat)
    requires
        n <= m <= types.len(),
        mixed_failure(types, n) is Some,
    ensures
        mixed_failure(types, m) == mixed_failure(types, n),
    decreases m,
{
    if n < m {
        lemma_mixed_failure_stays(types, n, (m - 1) as nat);
    }
}

fn mixed_error(first: &DataType, other: &DataType) -> (r: Error)
    ensures
        Failure::Misfit(
            "It is not possible to interleave arrays of different data types ("@ + first@.text()
                + " and "@ + other@.text() + ")"@,
        ).is(r),
{
    let mut message: String =
        "It is not possible to interleave arrays of different data types (".to_owned();
    message.append(first.to_string().as_str());
    message.append(" and ");
    message.append(other.to_string().as_str());
    message.append(")");
    Error::Arrow(message)
}

/// Fails unless a column of several batches, and nulls of another type, can be one column.
fn check_sources(input: &[Batch], path: &ColumnName, nulls: Option<&DataType>) -> (r: DeltaResult<
    (),
>)
    ensures
        match sources_failure(
            batches_view(input@),
            path@,
            match nulls {
                Some(ty) => Some(ty@),
                None => None,
            },
        ) {
            None => r is Ok,
            Some(failure) => r matches Err(error) && failure.is(error),
        },
{
    let ghost batches = batches_view(input@);
    let ghost types = column_types(batches, path@);
    let ghost all = match nulls {
        Some(ty) => types.push(ty@),
        None => types,
    };
    let mut all_types: Vec<&DataType> = Vec::new();
    let mut b: usize = 0;
    while b < input.len()
        invariant
            b <= input@.len(),
            batches == batches_view(input@),
            types == column_types(batches, path@),
            all_types@.len() == b,
            forall|i: int| 0 <= i < b ==> (#[trigger] all_types@[i])@ == types[i],
            missing_failure(batches, path@, b as nat) is None,
        decreases input@.len() - b,
    {
        assert(batches[b as int] == input@[b as int]@);
        match extract_type(&input[b].schema, path) {
            Err(error) => {
                proof {
                    lemma_missing_failure_stays(batches, path@, (b + 1) as nat, batches.len());
                }
                return Err(error);
            },
            Ok(ty) => {
                all_types.push(ty);
            },
        }
        b += 1;
    }
    match nulls {
        Some(ty) => {
            all_types.push(ty);
        },
        None => {},
    }
    assert(all_types@.len() == all.len());
    assert(forall|i: int| 0 <= i < all.len() ==> (#[trigger] all_types@[i])@ == all[i]);
    let mut i: usize = 0;
    while i < all_types.len()
        invariant
            i <= all_types@.len() == all.len(),
            forall|j: int| 0 <= j < all.len() ==> (#[trigger] all_types@[j])@ == all[j],
            mixed_failure(all, i as nat) is None,
            missing_failure(batches, path@, batches.len()) is None,
            batches == batches_view(input@),
            sources_failure(
                batches,
                path@,
                match nulls {
                    Some(ty) => Some(ty@),
                    None => None,
                },
            ) == mixed_failure(all, all.len()),
        decreases all_types@.len() - i,
    {
        assert(all_types@[0]@ == all[0]);
        assert(all_types@[i as int]@ == all[i as int]);
        if !all_types[i].same(all_types[0]) {
            proof {
                lemma_mixed_failure_stays(all, (i + 1) as nat, all.len());
            }
            return Err(mixed_error(all_types[0], all_types[i]));
        }
        i += 1;
    }
    Ok(())
}

// ---------------------------------------------------------------------------------------------
// The result
// ---------------------------------------------------------------------------------------------

/// A value, or a null of a type.
pub open spec fn cell(value: Option<ScalarView>, ty: TypeView) -> ScalarView {
    match value {
        Some(value) => value,
        None => ScalarView::Null(ty),
    }
}

impl AggView {
    /// The result that a state stands for.
    pub open spec fn output(
        self,
        input: Seq<BatchView>,
        ty: TypeView,
        state: StateView,
    ) -> ScalarView {
        match (self, state) {
            (_, StateView::Long(Some(value))) => ScalarView::Long(value),
            (_, StateView::Long(None)) => ScalarView::Null(long_type()),
            (_, StateView::Count(n)) => ScalarView::Long(n),
            (
                AggView::NonNullBy { comparison: _, value, null_sentinel: _, key: _ },
                StateView::Winner(Some((at, _))),
            ) => cell(read(input, at, value), ty),
            (_, StateView::Winner(_)) => ScalarView::Null(ty),
        }
    }

    /// The column that the result is taken from, where it is taken from one.
    pub open spec fn source(self) -> Option<Seq<Seq<char>>> {
        match self {
            AggView::NonNullBy { comparison: _, value, null_sentinel: _, key: _ } => Some(value),
            _ => None,
        }
    }
}

impl Job {
    /// The keys of the groups: those of the rows, but one group without columns to group by.
    pub open spec fn group_keys(self) -> Seq<Key> {
        if self.group_by.len() == 0 && self.all_rows().len() == 0 {
            seq![Seq::empty()]
        } else {
            self.keys(self.all_rows())
        }
    }

    /// The row of a group: its key, then its aggregates.
    pub open spec fn output_row(self, output: Seq<FieldView>, key: Key) -> Seq<ScalarView> {
        Seq::new(
            self.group_by.len() + self.aggs.len(),
            |j: int|
                if j < self.group_by.len() {
                    cell(key[j], output[j].ty)
                } else {
                    self.aggs[j - self.group_by.len()].output(
                        self.input,
                        output[j].ty,
                        self.state(j - self.group_by.len(), key, self.all_rows())->Ok_0,
                    )
                },
        )
    }

    /// The rows of all groups.
    pub open spec fn output_rows(self, output: Seq<FieldView>) -> Seq<Seq<ScalarView>> {
        self.group_keys().map_values(|key: Key| self.output_row(output, key))
    }

    /// Why the first of `n` columns to group by that cannot be one column does not.
    pub open spec fn keys_failure(self, n: nat) -> Option<Failure>
        decreases n,
    {
        if n == 0 || n > self.group_by.len() {
            None
        } else {
            match self.keys_failure((n - 1) as nat) {
                Some(failure) => Some(failure),
                None => sources_failure(self.input, self.group_by[n - 1], None),
            }
        }
    }

    /// Why the first of `n` aggregates that cannot be one column is not.
    pub open spec fn values_failure(self, output: Seq<FieldView>, n: nat) -> Option<Failure>
        decreases n,
    {
        if n == 0 || n > self.aggs.len() {
            None
        } else {
            match self.values_failure(output, (n - 1) as nat) {
                Some(failure) => Some(failure),
                None => match self.aggs[n - 1].source() {
                    Some(path) => sources_failure(
                        self.input,
                        path,
                        Some(output[self.group_by.len() + n - 1].ty),
                    ),
                    None => None,
                },
            }
        }
    }

    /// Why the first of `n` columns to group by that is not of the expected type is not.
    pub open spec fn types_failure(self, output: Seq<FieldView>, n: nat) -> Option<Failure>
        decreases n,
    {
        if n == 0 || n > self.group_by.len() {
            None
        } else {
            match self.types_failure(output, (n - 1) as nat) {
                Some(failure) => Some(failure),
                None => {
                    let found = column_types(self.input, self.group_by[n - 1])[0];
                    let expected = output[n - 1].ty;
                    if found == expected {
                        None
                    } else {
                        Some(
                            Failure::Misfit(
                                "column types must match schema types, expected "@
                                    + expected.text() + " but found "@ + found.text()
                                    + " at column index "@ + decimal(n - 1),
                            ),
                        )
                    }
                },
            }
        }
    }

    /// Why the rows of the groups do not fit a schema.
    pub open spec fn output_failure(self, output: Seq<FieldView>) -> Option<Failure> {
        let count = self.group_by.len() + self.aggs.len();
        match self.keys_failure(self.group_by.len()) {
            Some(failure) => Some(failure),
            None => match self.values_failure(output, self.aggs.len()) {
                Some(failure) => Some(failure),
                None => if count != output.len() {
                    Some(
                        Failure::Misfit(
                            "number of columns("@ + decimal(count as int)
                                + ") must match number of fields("@ + decimal(output.len() as int)
                                + ") in schema"@,
                        ),
                    )
                } else if count == 0 {
                    Some(
                        Failure::Misfit("must either specify a row count or at least one column"@),
                    )
                } else {
                    match nulls_failure(output, self.output_rows(output), output.len()) {
                        Some(failure) => Some(failure),
                        None => self.types_failure(output, self.group_by.len()),
                    }
                },
            },
        }
    }
}

/// How many of the aggregates have a field in the schema.
pub open spec fn bound_count(aggs: int, groups: int, fields: int) -> int {
    if fields <= groups {
        0
    } else if fields - groups < aggs {
        fields - groups
    } else {
        aggs
    }
}

impl Aggregate {
    /// What is to be done with some batches. Aggregates without a field in the schema are left out.
    pub open spec fn job(self, input: Seq<BatchView>) -> Job {
        job_of(
            input,
            self.group_by@,
            self.aggs@,
            bound_count(
                self.aggs@.len() as int,
                self.group_by@.len() as int,
                self.schema@.len() as int,
            ),
        )
    }

    /// The batches that come of some batches: none where there are no rows to group, else one.
    pub open spec fn result(self, input: Seq<BatchView>) -> Result<Seq<BatchView>, Failure> {
        let job = self.job(input);
        let output = self.schema@;
        let bound = job.aggs.len();
        match binds_failure(aggs_view(self.aggs@), output.skip(job.group_by.len() as int), bound) {
            Some(failure) => Err(failure),
            None => match job.scan_failure(input.len()) {
                Some(failure) => Err(failure),
                None => if job.group_keys().len() == 0 {
                    Ok(Seq::empty())
                } else {
                    match job.output_failure(output) {
                        Some(failure) => Err(failure),
                        None => Ok(
                            seq![BatchView { fields: output, rows: job.output_rows(output) }],
                        ),
                    }
                },
            },
        }
    }
}

// ---------------------------------------------------------------------------------------------
// Rows are where the batches have them
// ---------------------------------------------------------------------------------------------

/// Whether the batches have some rows.
spec fn within(input: Seq<BatchView>, rows: Seq<(int, int)>) -> bool {
    forall|i: int|
        0 <= i < rows.len() ==> 0 <= (#[trigger] rows[i]).0 < input.len() && 0 <= rows[i].1
            < input[rows[i].0].rows.len()
}

proof fn lemma_rows_are_within(job: Job, b: int, r: int)
    requires
        0 <= b <= job.input.len(),
        0 <= r,
        r > 0 ==> b < job.input.len() && r <= job.input[b].rows.len(),
    ensures
        within(job.input, job.rows_before(b, r)),
        b == 0 && r == 0 ==> job.rows_before(b, r).len() == 0,
    decreases b, r,
{
    if r > 0 {
        lemma_rows_are_within(job, b, r - 1);
    } else if b > 0 {
        lemma_rows_are_within(job, b - 1, job.input[b - 1].rows.len() as int);
    }
}

proof fn lemma_members_are_within(job: Job, key: Key, rows: Seq<(int, int)>)
    requires
        within(job.input, rows),
    ensures
        within(job.input, job.members(key, rows)),
    decreases rows.len(),
{
    reveal(Seq::filter);
    if rows.len() > 0 {
        let before = rows.drop_last();
        assert(within(job.input, before)) by {
            assert forall|i: int| 0 <= i < before.len() implies 0 <= (#[trigger] before[i]).0
                < job.input.len() && 0 <= before[i].1 < job.input[before[i].0].rows.len() by {
                assert(before[i] == rows[i]);
            }
        }
        lemma_members_are_within(job, key, before);
        let last = rows[rows.len() - 1];
        assert(0 <= last.0 < job.input.len());
        assert(before.push(last) =~= rows);
        super::groups::lemma_members_push(job, key, before, last);
    }
}

proof fn lemma_winner_is_within(agg: AggView, input: Seq<BatchView>, rows: Seq<(int, int)>)
    requires
        within(input, rows),
    ensures
        match agg.state_of(input, rows) {
            Ok(StateView::Winner(Some((at, _)))) => 0 <= at.0 < input.len() && 0 <= at.1
                < input[at.0].rows.len(),
            _ => true,
        },
    decreases rows.len(),
{
    if rows.len() > 0 {
        let before = rows.drop_last();
        assert(within(input, before)) by {
            assert forall|i: int| 0 <= i < before.len() implies 0 <= (#[trigger] before[i]).0
                < input.len() && 0 <= before[i].1 < input[before[i].0].rows.len() by {
                assert(before[i] == rows[i]);
            }
        }
        lemma_winner_is_within(agg, input, before);
        assert(rows.last() == rows[rows.len() - 1]);
    }
}

// ---------------------------------------------------------------------------------------------
// Evaluation
// ---------------------------------------------------------------------------------------------

fn winner_value(path: &ColumnName, input: &[Batch], winner: Option<((usize, usize), i64)>, ty: &DataType) -> (r:
    Scalar)
    requires
        winner matches Some((at, _)) ==> at.0 < input@.len() && at.1
            < input@[at.0 as int].rows@.len(),
    ensures
        match winner {
            Some((at, _)) => r@ == cell(
                read(batches_view(input@), (at.0 as int, at.1 as int), path@),
                ty@,
            ),
            None => r@ == ScalarView::Null(ty@),
        },
{
    match winner {
        None => Scalar::Null(ty.clone()),
        Some((at, _)) => {
            let batch: &Batch = &input[at.0];
            assert(batches_view(input@)[at.0 as int] == batch@);
            assert(batch@.rows[at.1 as int] == scalars_view(batch.rows@[at.1 as int]@));
            match extract_value(&batch.schema, batch.rows[at.1].as_slice(), path) {
                Some(value) => value.clone(),
                None => Scalar::Null(ty.clone()),
            }
        },
    }
}

impl Agg {
    /// The result that a state stands for.
    pub fn finalize(&self, state: AggState, input: &[Batch], ty: &DataType) -> (r: Scalar)
        requires
            state matches AggState::Winner(Some((at, _))) ==> at.0 < input@.len() && at.1
                < input@[at.0 as int].rows@.len(),
        ensures
            r@ == self@.output(batches_view(input@), ty@, state@),
    {
        match (self, state) {
            (_, AggState::Long(Some(value))) => Scalar::Long(value),
            (_, AggState::Long(None)) => Scalar::Null(DataType::Primitive(PrimitiveType::Long)),
            (_, AggState::Count(n)) => Scalar::Long(n),
            (Agg::MinNonNullBy(operands), AggState::Winner(winner)) => {
                winner_value(&operands.value, input, winner, ty)
            },
            (Agg::MaxNonNullBy(operands), AggState::Winner(winner)) => {
                winner_value(&operands.value, input, winner, ty)
            },
            (_, AggState::Winner(_)) => Scalar::Null(ty.clone()),
        }
    }
}

proof fn lemma_keys_failure_stays(job: Job, n: nat, m: nat)
    requires
        n <= m <= job.group_by.len(),
        job.keys_failure(n) is Some,
    ensures
        job.keys_failure(m) == job.keys_failure(n),
    decreases m,
{
    if n < m {
        lemma_keys_failure_stays(job, n, (m - 1) as nat);
    }
}

proof fn lemma_values_failure_stays(job: Job, output: Seq<FieldView>, n: nat, m: nat)
    requires
        n <= m <= job.aggs.len(),
        job.values_failure(output, n) is Some,
    ensures
        job.values_failure(output, m) == job.values_failure(output, n),
    decreases m,
{
    if n < m {
        lemma_values_failure_stays(job, output, n, (m - 1) as nat);
    }
}

proof fn lemma_types_failure_stays(job: Job, output: Seq<FieldView>, n: nat, m: nat)
    requires
        n <= m <= job.group_by.len(),
        job.types_failure(output, n) is Some,
    ensures
        job.types_failure(output, m) == job.types_failure(output, n),
    decreases m,
{
    if n < m {
        lemma_types_failure_stays(job, output, n, (m - 1) as nat);
    }
}

fn check_keys(input: &[Batch], group_by: &[ColumnName], Ghost(job): Ghost<Job>) -> (r: DeltaResult<
    (),
>)
    requires
        job.input == batches_view(input@),
        job.group_by == paths_view(group_by@),
    ensures
        match job.keys_failure(group_by@.len()) {
            None => r is Ok,
            Some(failure) => r matches Err(error) && failure.is(error),
        },
{
    let mut i: usize = 0;
    while i < group_by.len()
        invariant
            i <= group_by@.len(),
            job.input == batches_view(input@),
            job.group_by == paths_view(group_by@),
            job.keys_failure(i as nat) is None,
        decreases group_by@.len() - i,
    {
        assert(job.group_by[i as int] == group_by@[i as int]@);
        match check_sources(input, &group_by[i], None) {
            Err(error) => {
                proof {
                    lemma_keys_failure_stays(job, (i + 1) as nat, group_by@.len());
                }
                return Err(error);
            },
            Ok(_) => {},
        }
        i += 1;
    }
    Ok(())
}

fn check_values(
    input: &[Batch],
    aggs: &[Agg],
    n: usize,
    fields: &[StructField],
    from: usize,
    Ghost(job): Ghost<Job>,
) -> (r: DeltaResult<()>)
    requires
        n == job.aggs.len() <= aggs@.len(),
        from == job.group_by.len(),
        n > 0 ==> from + n <= fields@.len(),
        job.input == batches_view(input@),
        forall|a: int| 0 <= a < n ==> #[trigger] job.aggs[a] == aggs@[a]@,
    ensures
        match job.values_failure(fields_view(fields@), n as nat) {
            None => r is Ok,
            Some(failure) => r matches Err(error) && failure.is(error),
        },
{
    let ghost output = fields_view(fields@);
    let count: usize = fields.len();
    let mut i: usize = 0;
    while i < n
        invariant
            i <= n == job.aggs.len() <= aggs@.len(),
            from == job.group_by.len(),
            count == fields@.len(),
            n > 0 ==> from + n <= count,
            output == fields_view(fields@),
            job.input == batches_view(input@),
            forall|a: int| 0 <= a < n ==> #[trigger] job.aggs[a] == aggs@[a]@,
            job.values_failure(output, i as nat) is None,
        decreases n - i,
    {
        assert(job.aggs[i as int] == aggs@[i as int]@);
        assert(output[from + i] == fields@[from + i]@);
        let ty: &DataType = &fields[from + i].data_type;
        let checked: DeltaResult<()> = match &aggs[i] {
            Agg::MinNonNullBy(operands) => check_sources(input, &operands.value, Some(ty)),
            Agg::MaxNonNullBy(operands) => check_sources(input, &operands.value, Some(ty)),
            _ => Ok(()),
        };
        match checked {
            Err(error) => {
                proof {
                    lemma_values_failure_stays(job, output, (i + 1) as nat, n as nat);
                }
                return Err(error);
            },
            Ok(_) => {},
        }
        i += 1;
    }
    Ok(())
}

fn check_types(
    input: &[Batch],
    group_by: &[ColumnName],
    fields: &[StructField],
    Ghost(job): Ghost<Job>,
) -> (r: DeltaResult<()>)
    requires
        job.input == batches_view(input@),
        job.group_by == paths_view(group_by@),
        group_by@.len() > 0 ==> input@.len() > 0,
        group_by@.len() <= fields@.len(),
        job.keys_failure(group_by@.len()) is None,
    ensures
        match job.types_failure(fields_view(fields@), group_by@.len()) {
            None => r is Ok,
            Some(failure) => r matches Err(error) && failure.is(error),
        },
{
    let ghost output = fields_view(fields@);
    let mut i: usize = 0;
    while i < group_by.len()
        invariant
            i <= group_by@.len() <= fields@.len(),
            output == fields_view(fields@),
            job.input == batches_view(input@),
            job.group_by == paths_view(group_by@),
            group_by@.len() > 0 ==> input@.len() > 0,
            job.keys_failure(group_by@.len()) is None,
            job.types_failure(output, i as nat) is None,
        decreases group_by@.len() - i,
    {
        proof {
            assert(job.group_by[i as int] == group_by@[i as int]@);
            assert(output[i as int] == fields@[i as int]@);
            if job.keys_failure((i + 1) as nat) is Some {
                lemma_keys_failure_stays(job, (i + 1) as nat, group_by@.len());
            }
            let path = group_by@[i as int]@;
            assert(sources_failure(job.input, path, None) is None);
            if missing_failure(job.input, path, 1) is Some {
                lemma_missing_failure_stays(job.input, path, 1, job.input.len());
            }
            assert(missing_failure(job.input, path, 0) is None);
            assert(job.input[0] == input@[0]@);
            assert(column_types(job.input, path)[0] == type_at(job.input[0].fields, path)->Ok_0);
        }
        match extract_type(&input[0].schema, &group_by[i]) {
            Err(error) => {
                assert(false);
                return Err(error);
            },
            Ok(found) => {
                let expected: &DataType = &fields[i].data_type;
                if !found.same(expected) {
                    let mut message: String =
                        "column types must match schema types, expected ".to_owned();
                    message.append(expected.to_string().as_str());
                    message.append(" but found ");
                    message.append(found.to_string().as_str());
                    message.append(" at column index ");
                    push_decimal(&mut message, i as i128);
                    proof {
                        lemma_types_failure_stays(job, output, (i + 1) as nat, group_by@.len());
                    }
                    return Err(Error::Arrow(message));
                }
            },
        }
        i += 1;
    }
    Ok(())
}

/// The row of a group.
fn group_row(
    group: &Group,
    aggs: &[Agg],
    n: usize,
    fields: &[StructField],
    input: &[Batch],
    Ghost(job): Ghost<Job>,
    Ghost(key): Ghost<Key>,
) -> (r: Vec<Scalar>)
    requires
        job.input == batches_view(input@),
        n == job.aggs.len() <= aggs@.len(),
        forall|a: int| 0 <= a < n ==> #[trigger] job.aggs[a] == aggs@[a]@,
        job.group_by.len() + n == fields@.len(),
        key.len() == job.group_by.len(),
        group.holds(job, key, job.all_rows()),
    ensures
        scalars_view(r@) == job.output_row(fields_view(fields@), key),
        r@.len() == fields@.len(),
{
    let ghost output = fields_view(fields@);
    let width: usize = group.key.len();
    let mut row: Vec<Scalar> = Vec::new();
    let mut j: usize = 0;
    while j < width
        invariant
            j <= width == group.key@.len(),
            width == key.len() <= fields@.len(),
            output == fields_view(fields@),
            key == key_view(group.key@),
            row@.len() == j,
            forall|i: int| 0 <= i < j ==> (#[trigger] row@[i])@ == cell(key[i], output[i].ty),
        decreases width - j,
    {
        assert(key[j as int] == option_view(group.key@[j as int]));
        assert(output[j as int] == fields@[j as int]@);
        match &group.key[j] {
            Some(value) => {
                row.push(value.clone());
            },
            None => {
                row.push(Scalar::Null(fields[j].data_type.clone()));
            },
        }
        j += 1;
    }
    proof {
        lemma_rows_are_within(job, job.input.len() as int, 0);
        lemma_members_are_within(job, key, job.all_rows());
    }
    let mut a: usize = 0;
    let count: usize = fields.len();
    while a < n
        invariant
            a <= n == job.aggs.len() <= aggs@.len(),
            width == key.len() == job.group_by.len(),
            width + n == count == fields@.len(),
            output == fields_view(fields@),
            job.input == batches_view(input@),
            within(job.input, job.members(key, job.all_rows())),
            forall|i: int| 0 <= i < n ==> #[trigger] job.aggs[i] == aggs@[i]@,
            group.holds(job, key, job.all_rows()),
            row@.len() == width + a,
            forall|i: int| 0 <= i < width ==> (#[trigger] row@[i])@ == cell(key[i], output[i].ty),
            forall|i: int|
                width <= i < width + a ==> (#[trigger] row@[i])@ == job.aggs[i - width].output(
                    job.input,
                    output[i].ty,
                    job.state(i - width, key, job.all_rows())->Ok_0,
                ),
        decreases n - a,
    {
        proof {
            assert(job.aggs[a as int] == aggs@[a as int]@);
            assert(output[width + a] == fields@[width + a]@);
            lemma_winner_is_within(
                job.aggs[a as int],
                job.input,
                job.members(key, job.all_rows()),
            );
            assert(job.state(a as int, key, job.all_rows()) == Ok::<StateView, Failure>(
                group.states@[a as int]@,
            ));
            assert(forall|b: int| 0 <= b < input@.len() ==> #[trigger] job.input[b] == input@[b]@);
        }
        row.push(aggs[a].finalize(group.states[a], input, &fields[width + a].data_type));
        a += 1;
    }
    assert(scalars_view(row@) =~= job.output_row(output, key));
    row
}

/// The rows of some batches in groups, and one row for each group: the columns that they are grouped
/// by, then the aggregates. Without columns to group by there is one group, also of no rows.
pub fn eval_aggregate(aggregate: &Aggregate, input: &[Batch]) -> (r: DeltaResult<Vec<Batch>>)
    ensures
        match aggregate.result(batches_view(input@)) {
            Ok(batches) => r matches Ok(found) && batches_view(found@) == batches,
            Err(failure) => r matches Err(error) && failure.is(error),
        },
{
    let fields: &[StructField] = aggregate.schema.fields.as_slice();
    let width: usize = aggregate.group_by.len();
    let bound: usize = if fields.len() <= width {
        0
    } else if fields.len() - width < aggregate.aggs.len() {
        fields.len() - width
    } else {
        aggregate.aggs.len()
    };
    let ghost job = aggregate.job(batches_view(input@));
    let ghost output = aggregate.schema@;
    proof {
        assert(job.aggs.len() == bound);
        assert(job.group_by.len() == width);
        assert forall|a: int| 0 <= a < bound implies #[trigger] job.aggs[a]
            == aggregate.aggs@[a]@ by {
        }
    }
    if bound > 0 {
        match bind_all(aggregate.aggs.as_slice(), fields, width, bound) {
            Err(error) => {
                return Err(error);
            },
            Ok(_) => {},
        }
    }
    let groups: Vec<Group> = match group_rows(
        aggregate.aggs.as_slice(),
        bound,
        aggregate.group_by.as_slice(),
        input,
    ) {
        Err(error) => {
            return Err(error);
        },
        Ok(groups) => groups,
    };
    let ghost rows = job.all_rows();
    let groups: Vec<Group> = if groups.len() == 0 {
        proof {
            lemma_no_keys_without_rows(job, rows);
            assert(rows.len() == 0);
        }
        if width > 0 {
            let none: Vec<Batch> = Vec::new();
            assert(batches_view(none@) =~= Seq::empty());
            return Ok(none);
        }
        let group: Group = Group {
            key: Vec::new(),
            states: initial_states(aggregate.aggs.as_slice(), bound),
        };
        proof {
            reveal(Seq::filter);
            let key: Key = Seq::empty();
            assert(key_view(group.key@) =~= key);
            assert(job.members(key, rows) =~= Seq::empty());
            assert forall|a: int| 0 <= a < group.states@.len() implies job.state(
                a,
                key,
                rows,
            ) == Ok::<StateView, Failure>((#[trigger] group.states@[a])@) by {
                assert(job.aggs[a] == aggregate.aggs@[a]@);
            }
        }
        vec![group]
    } else {
        proof {
            lemma_no_keys_without_rows(job, rows);
        }
        groups
    };
    proof {
        assert(groups@.len() == job.group_keys().len());
        assert forall|i: int| 0 <= i < groups@.len() implies (#[trigger] groups@[i]).holds(
            job,
            job.group_keys()[i],
            rows,
        ) by {
        }
    }
    match check_keys(input, aggregate.group_by.as_slice(), Ghost(job)) {
        Err(error) => {
            return Err(error);
        },
        Ok(_) => {},
    }
    match check_values(
        input,
        aggregate.aggs.as_slice(),
        bound,
        fields,
        width,
        Ghost(job),
    ) {
        Err(error) => {
            return Err(error);
        },
        Ok(_) => {},
    }
    if fields.len() < width || fields.len() - width != bound {
        let mut message: String = "number of columns(".to_owned();
        push_decimal(&mut message, width as i128 + bound as i128);
        message.append(") must match number of fields(");
        push_decimal(&mut message, fields.len() as i128);
        message.append(") in schema");
        return Err(Error::Arrow(message));
    }
    if fields.len() == 0 {
        return Err(Error::arrow("must either specify a row count or at least one column"));
    }
    let mut cells: Vec<Vec<Scalar>> = Vec::new();
    let mut i: usize = 0;
    while i < groups.len()
        invariant
            i <= groups@.len(),
            groups@.len() == job.group_keys().len(),
            rows == job.all_rows(),
            job.input == batches_view(input@),
            bound == job.aggs.len() <= aggregate.aggs@.len(),
            forall|a: int| 0 <= a < bound ==> #[trigger] job.aggs[a] == aggregate.aggs@[a]@,
            job.group_by.len() + bound == fields@.len(),
            output == fields_view(fields@),
            forall|k: int|
                0 <= k < groups@.len() ==> (#[trigger] groups@[k]).holds(
                    job,
                    job.group_keys()[k],
                    rows,
                ),
            forall|k: int|
                0 <= k < groups@.len() ==> (#[trigger] job.group_keys()[k]).len()
                    == job.group_by.len(),
            cells@.len() == i,
            forall|k: int|
                0 <= k < i ==> (#[trigger] cells@[k])@.len() == fields@.len() && scalars_view(
                    cells@[k]@,
                ) == job.output_row(output, job.group_keys()[k]),
        decreases groups@.len() - i,
    {
        assert(groups@[i as int].holds(job, job.group_keys()[i as int], rows));
        assert(job.group_keys()[i as int].len() == job.group_by.len());
        let row: Vec<Scalar> = group_row(
            &groups[i],
            aggregate.aggs.as_slice(),
            bound,
            fields,
            input,
            Ghost(job),
            Ghost(job.group_keys()[i as int]),
        );
        cells.push(row);
        i += 1;
    }
    assert(rows_view(cells@) =~= job.output_rows(output));
    match check_nulls(fields, cells.as_slice()) {
        Err(error) => {
            return Err(error);
        },
        Ok(_) => {},
    }
    match check_types(input, aggregate.group_by.as_slice(), fields, Ghost(job)) {
        Err(error) => {
            return Err(error);
        },
        Ok(_) => {},
    }
    let batches: Vec<Batch> = vec![Batch { schema: aggregate.schema.clone(), rows: cells }];
    assert(batches_view(batches@) =~= seq![
        BatchView { fields: output, rows: job.output_rows(output) },
    ]);
    Ok(batches)
}

proof fn lemma_no_keys_without_rows(job: Job, rows: Seq<(int, int)>)
    ensures
        job.keys(rows).len() == 0 <==> rows.len() == 0,
        forall|i: int|
            0 <= i < job.keys(rows).len() ==> (#[trigger] job.keys(rows)[i]).len()
                == job.group_by.len(),
    decreases rows.len(),
{
    if rows.len() > 0 {
        lemma_no_keys_without_rows(job, rows.drop_last());
        let before = job.keys(rows.drop_last());
        let key = job.key_of(rows.last());
        if before.contains(key) {
            assert(before.len() > 0);
        }
    }
}

} // verus!
