//! The rows of some batches in groups.

use vstd::prelude::*;

use super::aggs::{aggs_view, prepare_all, prepares_failure, Agg, AggState, AggView, StateView};
use super::batch::{
    batches_view, check_paths, key_at, key_view, keys_identical, paths_failure, paths_view,
    row_key, Batch, BatchView, Failure, Key,
};
use crate::error::DeltaResult;
use crate::expressions::column_names::ColumnName;
use crate::expressions::scalars::{scalars_view, Scalar};
use crate::schema::FieldView;

verus! {

// ---------------------------------------------------------------------------------------------
// What groups are
// ---------------------------------------------------------------------------------------------

/// Batches, the columns to group their rows by, and the aggregates of the groups.
pub struct Job {
    /// The batches.
    pub input: Seq<BatchView>,
    /// The paths to the columns.
    pub group_by: Seq<Seq<Seq<char>>>,
    /// The aggregates.
    pub aggs: Seq<AggView>,
}

impl Job {
    /// The rows of the first `b` batches and the first `r` rows of the next one, each by its batch
    /// and its place there.
    pub open spec fn rows_before(self, b: int, r: int) -> Seq<(int, int)>
        decreases b, r,
    {
        if r > 0 {
            self.rows_before(b, r - 1).push((b, r - 1))
        } else if b > 0 {
            self.rows_before(b - 1, self.input[b - 1].rows.len() as int)
        } else {
            Seq::empty()
        }
    }

    /// All rows.
    pub open spec fn all_rows(self) -> Seq<(int, int)> {
        self.rows_before(self.input.len() as int, 0)
    }

    /// The values by which a row is grouped.
    pub open spec fn key_of(self, at: (int, int)) -> Key {
        key_at(self.input[at.0].fields, self.input[at.0].rows[at.1], self.group_by)
    }

    /// Those of some rows that have a key.
    pub open spec fn members(self, key: Key, rows: Seq<(int, int)>) -> Seq<(int, int)> {
        rows.filter(|at: (int, int)| self.key_of(at) == key)
    }

    /// The keys of some rows, each where it comes first.
    pub open spec fn keys(self, rows: Seq<(int, int)>) -> Seq<Key>
        decreases rows.len(),
    {
        if rows.len() == 0 {
            Seq::empty()
        } else {
            let before = self.keys(rows.drop_last());
            let key = self.key_of(rows.last());
            if before.contains(key) {
                before
            } else {
                before.push(key)
            }
        }
    }

    /// The state of an aggregate of the rows with a key.
    pub open spec fn state(self, agg: int, key: Key, rows: Seq<(int, int)>) -> Result<
        StateView,
        Failure,
    > {
        self.aggs[agg].state_of(self.input, self.members(key, rows))
    }

    /// Why the first of `n` aggregates that cannot take the last row in does not.
    pub open spec fn row_failure(self, rows: Seq<(int, int)>, n: nat) -> Option<Failure>
        decreases n,
    {
        if n == 0 {
            None
        } else {
            match self.row_failure(rows, (n - 1) as nat) {
                Some(failure) => Some(failure),
                None => match self.state(n - 1, self.key_of(rows.last()), rows) {
                    Err(failure) => Some(failure),
                    Ok(_) => None,
                },
            }
        }
    }

    /// Why the first row that an aggregate cannot take in is the first.
    pub open spec fn rows_failure(self, rows: Seq<(int, int)>) -> Option<Failure>
        decreases rows.len(),
    {
        if rows.len() == 0 {
            None
        } else {
            match self.rows_failure(rows.drop_last()) {
                Some(failure) => Some(failure),
                None => self.row_failure(rows, self.aggs.len()),
            }
        }
    }

    /// Why a batch with those fields cannot be read.
    pub open spec fn batch_failure(self, batch: BatchView) -> Option<Failure> {
        match prepares_failure(self.aggs, batch.fields, self.aggs.len()) {
            Some(failure) => Some(failure),
            None => paths_failure(batch.fields, self.group_by, self.group_by.len()),
        }
    }

    /// Why the first `n` batches cannot be grouped: a batch fails before its rows do.
    pub open spec fn scan_failure(self, n: nat) -> Option<Failure>
        decreases n,
    {
        if n == 0 {
            None
        } else {
            match self.scan_failure((n - 1) as nat) {
                Some(failure) => Some(failure),
                None => match self.batch_failure(self.input[n - 1]) {
                    Some(failure) => Some(failure),
                    None => self.rows_failure(self.rows_before(n as int, 0)),
                },
            }
        }
    }
}

// ---------------------------------------------------------------------------------------------
// Facts
// ---------------------------------------------------------------------------------------------

/// A row more is a member more, if it has the key.
pub proof fn lemma_members_push(job: Job, key: Key, rows: Seq<(int, int)>, at: (int, int))
    ensures
        job.members(key, rows.push(at)) == (if job.key_of(at) == key {
            job.members(key, rows).push(at)
        } else {
            job.members(key, rows)
        }),
{
    reveal(Seq::filter);
    assert(rows.push(at).drop_last() =~= rows);
}

/// Each key stands once.
pub proof fn lemma_keys_are_distinct(job: Job, rows: Seq<(int, int)>)
    ensures
        job.keys(rows).no_duplicates(),
    decreases rows.len(),
{
    if rows.len() > 0 {
        lemma_keys_are_distinct(job, rows.drop_last());
    }
}

/// A key stands among the keys where some row has it.
pub proof fn lemma_keys_have_members(job: Job, key: Key, rows: Seq<(int, int)>)
    ensures
        job.keys(rows).contains(key) <==> job.members(key, rows).len() > 0,
    decreases rows.len(),
{
    reveal(Seq::filter);
    if rows.len() > 0 {
        let before = rows.drop_last();
        let last = job.key_of(rows.last());
        lemma_keys_have_members(job, key, before);
        assert(before.push(rows.last()) =~= rows);
        lemma_members_push(job, key, before, rows.last());
        if !job.keys(before).contains(last) {
            let keys = job.keys(before).push(last);
            assert(keys[keys.len() - 1] == last);
            if job.keys(before).contains(key) {
                let i = choose|i: int| 0 <= i < job.keys(before).len() && job.keys(before)[i] == key;
                assert(keys[i] == key);
            }
            if keys.contains(key) && key != last {
                let i = choose|i: int| 0 <= i < keys.len() && keys[i] == key;
                assert(job.keys(before)[i] == key);
            }
        }
    } else {
        assert(job.keys(rows) =~= Seq::empty());
    }
}

proof fn lemma_rows_failure_stays(job: Job, b: int, r: int)
    requires
        0 <= b < job.input.len(),
        0 <= r <= job.input[b].rows.len(),
        job.rows_failure(job.rows_before(b, r)) is Some,
    ensures
        job.rows_failure(job.rows_before(b + 1, 0)) == job.rows_failure(job.rows_before(b, r)),
    decreases job.input[b].rows.len() - r,
{
    let len = job.input[b].rows.len() as int;
    if r < len {
        let rows = job.rows_before(b, r);
        assert(rows.push((b, r)).drop_last() =~= rows);
        lemma_rows_failure_stays(job, b, r + 1);
    } else {
        assert(job.rows_before(b + 1, 0) == job.rows_before(b, len));
    }
}

proof fn lemma_scan_failure_stays(job: Job, n: nat, m: nat)
    requires
        n <= m <= job.input.len(),
        job.scan_failure(n) is Some,
    ensures
        job.scan_failure(m) == job.scan_failure(n),
    decreases m,
{
    if n < m {
        lemma_scan_failure_stays(job, n, (m - 1) as nat);
    }
}

// ---------------------------------------------------------------------------------------------
// Groups
// ---------------------------------------------------------------------------------------------

/// The rows with a key: how far each aggregate of them has come.
#[derive(Debug)]
pub struct Group {
    /// The key.
    pub key: Vec<Option<Scalar>>,
    /// The state of each aggregate.
    pub states: Vec<AggState>,
}

impl Group {
    /// Whether the group is that of the rows with a key.
    pub open spec fn holds(self, job: Job, key: Key, rows: Seq<(int, int)>) -> bool {
        &&& key_view(self.key@) == key
        &&& self.states@.len() == job.aggs.len()
        &&& forall|a: int|
            0 <= a < self.states@.len() ==> job.state(a, key, rows) == Ok::<StateView, Failure>(
                (#[trigger] self.states@[a])@,
            )
    }
}

/// Whether some groups are those of some rows.
pub open spec fn groups_hold(groups: Seq<Group>, job: Job, rows: Seq<(int, int)>) -> bool {
    &&& groups.len() == job.keys(rows).len()
    &&& forall|i: int|
        0 <= i < groups.len() ==> (#[trigger] groups[i]).holds(job, job.keys(rows)[i], rows)
}

/// The state of each of the first `n` aggregates before the first row.
pub fn initial_states(aggs: &[Agg], n: usize) -> (r: Vec<AggState>)
    requires
        n <= aggs@.len(),
    ensures
        r@.len() == n,
        forall|a: int| 0 <= a < n ==> (#[trigger] r@[a])@ == aggs@[a]@.initial(),
{
    let mut states: Vec<AggState> = Vec::new();
    let mut i: usize = 0;
    while i < n
        invariant
            i <= n <= aggs@.len(),
            states@.len() == i,
            forall|a: int| 0 <= a < i ==> (#[trigger] states@[a])@ == aggs@[a]@.initial(),
        decreases n - i,
    {
        states.push(aggs[i].init_state());
        i += 1;
    }
    states
}

proof fn lemma_row_failure_stays(job: Job, rows: Seq<(int, int)>, n: nat, m: nat)
    requires
        n <= m,
        job.row_failure(rows, n) is Some,
    ensures
        job.row_failure(rows, m) == job.row_failure(rows, n),
    decreases m,
{
    if n < m {
        lemma_row_failure_stays(job, rows, n, (m - 1) as nat);
    }
}

/// The states of a group after another row.
fn next_states(
    aggs: &[Agg],
    states: &[AggState],
    input: &[Batch],
    at: (usize, usize),
    Ghost(job): Ghost<Job>,
    Ghost(rows): Ghost<Seq<(int, int)>>,
) -> (r: DeltaResult<Vec<AggState>>)
    requires
        at.0 < input@.len(),
        at.1 < input@[at.0 as int].rows@.len(),
        job.input == batches_view(input@),
        states@.len() == job.aggs.len() <= aggs@.len(),
        forall|a: int| 0 <= a < states@.len() ==> #[trigger] job.aggs[a] == aggs@[a]@,
        forall|a: int|
            0 <= a < states@.len() ==> job.state(
                a,
                job.key_of((at.0 as int, at.1 as int)),
                rows,
            ) == Ok::<StateView, Failure>((#[trigger] states@[a])@),
    ensures
        match job.row_failure(rows.push((at.0 as int, at.1 as int)), job.aggs.len()) {
            Some(failure) => r matches Err(error) && failure.is(error),
            None => r matches Ok(next) && next@.len() == states@.len() && forall|a: int|
                0 <= a < next@.len() ==> job.state(
                    a,
                    job.key_of((at.0 as int, at.1 as int)),
                    rows.push((at.0 as int, at.1 as int)),
                ) == Ok::<StateView, Failure>((#[trigger] next@[a])@),
        },
{
    let ghost place = (at.0 as int, at.1 as int);
    let ghost key = job.key_of(place);
    let ghost more = rows.push(place);
    let mut next: Vec<AggState> = Vec::new();
    let mut i: usize = 0;
    proof {
        lemma_members_push(job, key, rows, place);
        assert(more.last() == place);
    }
    while i < states.len()
        invariant
            i <= states@.len(),
            next@.len() == i,
            at.0 < input@.len(),
            at.1 < input@[at.0 as int].rows@.len(),
            place == (at.0 as int, at.1 as int),
            key == job.key_of(place),
            more == rows.push(place),
            more.last() == place,
            job.members(key, more) == job.members(key, rows).push(place),
            job.input == batches_view(input@),
            states@.len() == job.aggs.len() <= aggs@.len(),
            forall|a: int| 0 <= a < states@.len() ==> #[trigger] job.aggs[a] == aggs@[a]@,
            forall|a: int|
                0 <= a < states@.len() ==> job.state(a, key, rows) == Ok::<StateView, Failure>(
                    (#[trigger] states@[a])@,
                ),
            forall|a: int|
                0 <= a < i ==> job.state(a, key, more) == Ok::<StateView, Failure>(
                    (#[trigger] next@[a])@,
                ),
            job.row_failure(more, i as nat) is None,
        decreases states@.len() - i,
    {
        proof {
            let members = job.members(key, rows);
            assert(members.push(place).drop_last() =~= members);
            assert(job.aggs[i as int] == aggs@[i as int]@);
            assert(job.state(i as int, key, rows) == Ok::<StateView, Failure>(
                states@[i as int]@,
            ));
        }
        match aggs[i].update(states[i], input, at) {
            Err(error) => {
                proof {
                    assert(job.row_failure(more, (i + 1) as nat) is Some);
                    lemma_row_failure_stays(job, more, (i + 1) as nat, job.aggs.len());
                }
                return Err(error);
            },
            Ok(state) => {
                next.push(state);
            },
        }
        i += 1;
    }
    Ok(next)
}

/// The position of the group with a key.
fn find_group(groups: &[Group], key: &[Option<Scalar>]) -> (r: Option<usize>)
    ensures
        match r {
            Some(i) => i < groups@.len() && key_view(groups@[i as int].key@) == key_view(key@),
            None => forall|i: int|
                0 <= i < groups@.len() ==> key_view((#[trigger] groups@[i]).key@) != key_view(key@),
        },
{
    let mut i: usize = 0;
    while i < groups.len()
        invariant
            i <= groups@.len(),
            forall|j: int|
                0 <= j < i ==> key_view((#[trigger] groups@[j]).key@) != key_view(key@),
        decreases groups@.len() - i,
    {
        if keys_identical(groups[i].key.as_slice(), key) {
            return Some(i);
        }
        i += 1;
    }
    None
}

/// Takes another row into its group.
fn add_row(
    groups: &mut Vec<Group>,
    aggs: &[Agg],
    n: usize,
    group_by: &[ColumnName],
    input: &[Batch],
    at: (usize, usize),
    Ghost(job): Ghost<Job>,
    Ghost(rows): Ghost<Seq<(int, int)>>,
) -> (r: DeltaResult<()>)
    requires
        at.0 < input@.len(),
        at.1 < input@[at.0 as int].rows@.len(),
        job.input == batches_view(input@),
        job.group_by == paths_view(group_by@),
        n == job.aggs.len() <= aggs@.len(),
        forall|a: int| 0 <= a < n ==> #[trigger] job.aggs[a] == aggs@[a]@,
        groups_hold(old(groups)@, job, rows),
    ensures
        match job.row_failure(rows.push((at.0 as int, at.1 as int)), job.aggs.len()) {
            Some(failure) => r matches Err(error) && failure.is(error),
            None => r is Ok && groups_hold(
                final(groups)@,
                job,
                rows.push((at.0 as int, at.1 as int)),
            ),
        },
{
    let ghost place = (at.0 as int, at.1 as int);
    let ghost more = rows.push(place);
    let batch: &Batch = &input[at.0];
    let key: Vec<Option<Scalar>> = row_key(&batch.schema, batch.rows[at.1].as_slice(), group_by);
    proof {
        assert(batches_view(input@)[at.0 as int] == batch@);
        assert(batch@.rows[at.1 as int] == scalars_view(batch.rows@[at.1 as int]@));
        assert(key_view(key@) == job.key_of(place));
        assert(more.drop_last() =~= rows);
        assert(more.last() == place);
        lemma_keys_are_distinct(job, rows);
    }
    match find_group(groups.as_slice(), key.as_slice()) {
        Some(i) => {
            assert(groups@[i as int].holds(job, job.keys(rows)[i as int], rows));
            assert(job.keys(rows)[i as int] == job.key_of(place));
            match next_states(
                aggs,
                groups[i].states.as_slice(),
                input,
                at,
                Ghost(job),
                Ghost(rows),
            ) {
                Err(error) => {
                    return Err(error);
                },
                Ok(next) => {
                    let ghost before = groups@;
                    groups.set(i, Group { key, states: next });
                    proof {
                        assert(job.keys(more) == job.keys(rows));
                        assert forall|j: int| 0 <= j < groups@.len() implies (
                        #[trigger] groups@[j]).holds(job, job.keys(more)[j], more) by {
                            if j != i {
                                assert(before[j].holds(job, job.keys(rows)[j], rows));
                                lemma_members_push(job, job.keys(rows)[j], rows, place);
                                assert(groups@[j] == before[j]);
                                assert forall|a: int| 0 <= a < groups@[j].states@.len() implies job.state(
                                    a,
                                    job.keys(more)[j],
                                    more,
                                ) == Ok::<StateView, Failure>(
                                    (#[trigger] groups@[j].states@[a])@,
                                ) by {
                                    assert(job.state(a, job.keys(rows)[j], rows) == Ok::<
                                        StateView,
                                        Failure,
                                    >(before[j].states@[a]@));
                                }
                            }
                        }
                    }
                },
            }
        },
        None => {
            let states: Vec<AggState> = initial_states(aggs, n);
            proof {
                assert forall|i: int| 0 <= i < job.keys(rows).len() implies #[trigger] job.keys(
                    rows,
                )[i] != job.key_of(place) by {
                    assert(groups@[i].holds(job, job.keys(rows)[i], rows));
                }
                assert(!job.keys(rows).contains(job.key_of(place)));
                lemma_keys_have_members(job, job.key_of(place), rows);
                assert(job.members(job.key_of(place), rows).len() == 0);
                assert forall|a: int| 0 <= a < states@.len() implies job.state(
                    a,
                    job.key_of(place),
                    rows,
                ) == Ok::<StateView, Failure>((#[trigger] states@[a])@) by {
                    assert(job.aggs[a] == aggs@[a]@);
                }
            }
            match next_states(aggs, states.as_slice(), input, at, Ghost(job), Ghost(rows)) {
                Err(error) => {
                    return Err(error);
                },
                Ok(next) => {
                    let ghost before = groups@;
                    groups.push(Group { key, states: next });
                    proof {
                        assert(job.keys(more) == job.keys(rows).push(job.key_of(place)));
                        assert forall|j: int| 0 <= j < groups@.len() implies (
                        #[trigger] groups@[j]).holds(job, job.keys(more)[j], more) by {
                            if j < before.len() {
                                assert(before[j].holds(job, job.keys(rows)[j], rows));
                                assert(job.keys(more)[j] == job.keys(rows)[j]);
                                lemma_members_push(job, job.keys(rows)[j], rows, place);
                                assert(groups@[j] == before[j]);
                                assert forall|a: int| 0 <= a < groups@[j].states@.len() implies job.state(
                                    a,
                                    job.keys(more)[j],
                                    more,
                                ) == Ok::<StateView, Failure>(
                                    (#[trigger] groups@[j].states@[a])@,
                                ) by {
                                    assert(job.state(a, job.keys(rows)[j], rows) == Ok::<
                                        StateView,
                                        Failure,
                                    >(before[j].states@[a]@));
                                }
                            }
                        }
                    }
                },
            }
        },
    }
    Ok(())
}

/// The batches, paths and aggregates as they are grouped: the first `n` aggregates count.
pub open spec fn job_of(
    input: Seq<BatchView>,
    group_by: Seq<ColumnName>,
    aggs: Seq<Agg>,
    n: int,
) -> Job {
    Job {
        input,
        group_by: paths_view(group_by),
        aggs: aggs_view(aggs).take(n),
    }
}

/// The groups of the rows of some batches, with the state of each of the first `n` aggregates.
pub fn group_rows(aggs: &[Agg], n: usize, group_by: &[ColumnName], input: &[Batch]) -> (r:
    DeltaResult<Vec<Group>>)
    requires
        n <= aggs@.len(),
    ensures
        ({
            let job = job_of(batches_view(input@), group_by@, aggs@, n as int);
            match job.scan_failure(input@.len()) {
                Some(failure) => r matches Err(error) && failure.is(error),
                None => r matches Ok(groups) && groups_hold(groups@, job, job.all_rows()),
            }
        }),
{
    let ghost job = job_of(batches_view(input@), group_by@, aggs@, n as int);
    let mut groups: Vec<Group> = Vec::new();
    let mut b: usize = 0;
    while b < input.len()
        invariant
            b <= input@.len(),
            n <= aggs@.len(),
            job == job_of(batches_view(input@), group_by@, aggs@, n as int),
            groups_hold(groups@, job, job.rows_before(b as int, 0)),
            job.scan_failure(b as nat) is None,
            job.rows_failure(job.rows_before(b as int, 0)) is None,
        decreases input@.len() - b,
    {
        let batch: &Batch = &input[b];
        proof {
            assert(job.input[b as int] == batch@);
            lemma_prepares_take(aggs_view(aggs@), n as nat, batch@.fields, n as nat);
        }
        match prepare_all(aggs, n, &batch.schema) {
            Err(error) => {
                proof {
                    lemma_scan_failure_stays(job, (b + 1) as nat, input@.len());
                }
                return Err(error);
            },
            Ok(_) => {},
        }
        match check_paths(&batch.schema, group_by) {
            Err(error) => {
                proof {
                    lemma_scan_failure_stays(job, (b + 1) as nat, input@.len());
                }
                return Err(error);
            },
            Ok(_) => {},
        }
        let mut i: usize = 0;
        while i < batch.rows.len()
            invariant
                b < input@.len(),
                i <= batch.rows@.len(),
                *batch == input@[b as int],
                n <= aggs@.len(),
                job == job_of(batches_view(input@), group_by@, aggs@, n as int),
                job.input[b as int] == batch@,
                groups_hold(groups@, job, job.rows_before(b as int, i as int)),
                job.scan_failure(b as nat) is None,
                job.batch_failure(job.input[b as int]) is None,
                job.rows_failure(job.rows_before(b as int, i as int)) is None,
            decreases batch.rows@.len() - i,
        {
            let ghost rows = job.rows_before(b as int, i as int);
            proof {
                assert(job.rows_before(b as int, i + 1) == rows.push((b as int, i as int)));
                assert(rows.push((b as int, i as int)).drop_last() =~= rows);
                assert forall|a: int| 0 <= a < n implies #[trigger] job.aggs[a] == aggs@[a]@ by {
                }
            }
            match add_row(
                &mut groups,
                aggs,
                n,
                group_by,
                input,
                (b, i),
                Ghost(job),
                Ghost(rows),
            ) {
                Err(error) => {
                    proof {
                        lemma_rows_failure_stays(job, b as int, i + 1);
                        lemma_scan_failure_stays(job, (b + 1) as nat, input@.len());
                    }
                    return Err(error);
                },
                Ok(_) => {},
            }
            i += 1;
        }
        assert(job.rows_before(b + 1, 0) == job.rows_before(b as int, batch@.rows.len() as int));
        b += 1;
    }
    Ok(groups)
}

proof fn lemma_prepares_take(
    aggs: Seq<AggView>,
    m: nat,
    fields: Seq<FieldView>,
    n: nat,
)
    requires
        n <= m <= aggs.len(),
    ensures
        prepares_failure(aggs.take(m as int), fields, n) == prepares_failure(aggs, fields, n),
    decreases n,
{
    if n > 0 {
        lemma_prepares_take(aggs, m, fields, (n - 1) as nat);
    }
}

} // verus!
