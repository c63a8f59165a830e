//! Filters and semi-joins.

use vstd::prelude::*;

use super::batch::{
    batches_view, check_paths, key_at, key_view, keys_identical, paths_failure, paths_view,
    row_key, rows_view, Batch, BatchView, Failure, Key,
};
use crate::error::DeltaResult;
use crate::expressions::column_names::ColumnName;
use crate::expressions::scalars::{scalars_clone, scalars_view, Scalar, ScalarView};

verus! {

// ---------------------------------------------------------------------------------------------
// Keys
// ---------------------------------------------------------------------------------------------

/// What some keys are.
pub open spec fn keys_view(keys: Seq<Vec<Option<Scalar>>>) -> Seq<Key> {
    keys.map_values(|key: Vec<Option<Scalar>>| key_view(key@))
}

/// The keys of the rows of a batch.
pub open spec fn batch_keys(batch: BatchView, paths: Seq<Seq<Seq<char>>>) -> Seq<Key> {
    batch.rows.map_values(|row: Seq<ScalarView>| key_at(batch.fields, row, paths))
}

/// The key of each row of a batch: its values in some columns. Without columns all keys are the
/// same.
pub fn encode_keys_as_rows(batch: &Batch, columns: &[ColumnName]) -> (r: DeltaResult<
    Vec<Vec<Option<Scalar>>>,
>)
    ensures
        match paths_failure(batch@.fields, paths_view(columns@), columns@.len()) {
            Some(failure) => r matches Err(error) && failure.is(error),
            None => r matches Ok(keys) && keys_view(keys@) == batch_keys(
                batch@,
                paths_view(columns@),
            ),
        },
{
    match check_paths(&batch.schema, columns) {
        Err(error) => {
            return Err(error);
        },
        Ok(_) => {},
    }
    let mut keys: Vec<Vec<Option<Scalar>>> = Vec::new();
    let mut i: usize = 0;
    while i < batch.rows.len()
        invariant
            i <= batch.rows@.len(),
            keys@.len() == i,
            forall|j: int|
                0 <= j < i ==> key_view((#[trigger] keys@[j])@) == key_at(
                    batch@.fields,
                    batch@.rows[j],
                    paths_view(columns@),
                ),
        decreases batch.rows@.len() - i,
    {
        assert(batch@.rows[i as int] == scalars_view(batch.rows@[i as int]@));
        keys.push(row_key(&batch.schema, batch.rows[i].as_slice(), columns));
        i += 1;
    }
    assert(keys_view(keys@) =~= batch_keys(batch@, paths_view(columns@)));
    Ok(keys)
}

// ---------------------------------------------------------------------------------------------
// Filters
// ---------------------------------------------------------------------------------------------

/// Those of some rows that a mask keeps.
pub open spec fn kept(rows: Seq<Seq<ScalarView>>, mask: Seq<bool>) -> Seq<Seq<ScalarView>>
    decreases rows.len(),
{
    if rows.len() == 0 || mask.len() == 0 {
        Seq::empty()
    } else if mask[0] {
        seq![rows[0]] + kept(rows.skip(1), mask.skip(1))
    } else {
        kept(rows.skip(1), mask.skip(1))
    }
}

/// The rows of a batch that a mask keeps.
pub fn filter_rows(batch: &Batch, mask: &[bool]) -> (r: Batch)
    requires
        mask@.len() == batch.rows@.len(),
    ensures
        r@ == (BatchView { fields: batch@.fields, rows: kept(batch@.rows, mask@) }),
{
    let mut rows: Vec<Vec<Scalar>> = Vec::new();
    let mut i: usize = 0;
    assert(batch@.rows.skip(0) =~= batch@.rows);
    assert(mask@.skip(0) =~= mask@);
    while i < mask.len()
        invariant
            i <= mask@.len() == batch.rows@.len(),
            rows_view(rows@) + kept(batch@.rows.skip(i as int), mask@.skip(i as int)) =~= kept(
                batch@.rows,
                mask@,
            ),
        decreases mask@.len() - i,
    {
        let ghost before = rows@;
        proof {
            assert(batch@.rows.skip(i as int).skip(1) =~= batch@.rows.skip(i + 1));
            assert(mask@.skip(i as int).skip(1) =~= mask@.skip(i + 1));
            assert(batch@.rows.skip(i as int)[0] == scalars_view(batch.rows@[i as int]@));
        }
        if mask[i] {
            rows.push(scalars_clone(batch.rows[i].as_slice()));
            assert(rows_view(rows@) =~= rows_view(before).push(batch@.rows[i as int]));
        }
        i += 1;
    }
    let r: Batch = Batch { schema: batch.schema.clone(), rows };
    assert(r@.rows =~= kept(batch@.rows, mask@));
    r
}

/// A predicate keeps the rows where it holds, not those where it does not hold or is null.
pub open spec fn holds_mask(verdicts: Seq<Option<bool>>) -> Seq<bool> {
    verdicts.map_values(|verdict: Option<bool>| verdict == Some(true))
}

/// The rows of a batch for which a predicate holds, given its verdict on each.
pub fn eval_filter(batch: &Batch, verdicts: &[Option<bool>]) -> (r: Batch)
    requires
        verdicts@.len() == batch.rows@.len(),
    ensures
        r@ == (BatchView {
            fields: batch@.fields,
            rows: kept(batch@.rows, holds_mask(verdicts@)),
        }),
{
    let mut mask: Vec<bool> = Vec::new();
    let mut i: usize = 0;
    while i < verdicts.len()
        invariant
            i <= verdicts@.len(),
            mask@.len() == i,
            forall|j: int| 0 <= j < i ==> #[trigger] mask@[j] == (verdicts@[j] == Some(true)),
        decreases verdicts@.len() - i,
    {
        mask.push(matches!(verdicts[i], Some(true)));
        i += 1;
    }
    assert(mask@ =~= holds_mask(verdicts@));
    filter_rows(batch, mask.as_slice())
}

// ---------------------------------------------------------------------------------------------
// Semi-joins
// ---------------------------------------------------------------------------------------------

/// A join that keeps the rows of one side whose key is among those of the other, or is not.
#[derive(Debug)]
pub struct SemiJoin {
    /// The columns of the side whose rows are kept.
    pub probe_keys: Vec<ColumnName>,
    /// The columns of the other side.
    pub build_keys: Vec<ColumnName>,
    /// Whether the rows are kept whose key is not among the others.
    pub inverted: bool,
}

/// Whether some row of some batches has a key.
pub open spec fn has_key(batches: Seq<BatchView>, paths: Seq<Seq<Seq<char>>>, key: Key) -> bool {
    exists|b: int, i: int|
        0 <= b < batches.len() && 0 <= i < batches[b].rows.len() && #[trigger] batch_keys(
            batches[b],
            paths,
        )[i] == key
}

/// Why the first of `n` batches without some columns lacks them.
pub open spec fn batches_failure(
    batches: Seq<BatchView>,
    paths: Seq<Seq<Seq<char>>>,
    n: nat,
) -> Option<Failure>
    decreases n,
{
    if n == 0 || n > batches.len() {
        None
    } else {
        match batches_failure(batches, paths, (n - 1) as nat) {
            Some(failure) => Some(failure),
            None => paths_failure(batches[n - 1].fields, paths, paths.len()),
        }
    }
}

proof fn lemma_batches_failure_stays(
    batches: Seq<BatchView>,
    paths: Seq<Seq<Seq<char>>>,
    n: nat,
    m: nat,
)
    requires
        n <= m <= batches.len(),
        batches_failure(batches, paths, n) is Some,
    ensures
        batches_failure(batches, paths, m) == batches_failure(batches, paths, n),
    decreases m,
{
    if n < m {
        lemma_batches_failure_stays(batches, paths, n, (m - 1) as nat);
    }
}

impl SemiJoin {
    /// Which rows of a batch are kept.
    pub open spec fn mask(self, batch: BatchView, build: Seq<BatchView>) -> Seq<bool> {
        batch_keys(batch, paths_view(self.probe_keys@)).map_values(
            |key: Key| self.inverted != has_key(build, paths_view(self.build_keys@), key),
        )
    }

    /// What the join makes of some batches.
    pub open spec fn result(self, probe: Seq<BatchView>, build: Seq<BatchView>) -> Result<
        Seq<BatchView>,
        Failure,
    > {
        match batches_failure(build, paths_view(self.build_keys@), build.len()) {
            Some(failure) => Err(failure),
            None => match batches_failure(probe, paths_view(self.probe_keys@), probe.len()) {
                Some(failure) => Err(failure),
                None => Ok(
                    probe.map_values(
                        |batch: BatchView|
                            BatchView {
                                fields: batch.fields,
                                rows: kept(batch.rows, self.mask(batch, build)),
                            },
                    ),
                ),
            },
        }
    }
}

/// Whether some keys hold a key.
fn contains_key(keys: &[Vec<Option<Scalar>>], key: &[Option<Scalar>]) -> (r: bool)
    ensures
        r == keys_view(keys@).contains(key_view(key@)),
{
    let mut i: usize = 0;
    while i < keys.len()
        invariant
            i <= keys@.len(),
            forall|j: int| 0 <= j < i ==> #[trigger] keys_view(keys@)[j] != key_view(key@),
        decreases keys@.len() - i,
    {
        assert(keys_view(keys@)[i as int] == key_view(keys@[i as int]@));
        if keys_identical(keys[i].as_slice(), key) {
            return true;
        }
        i += 1;
    }
    false
}

/// The keys of all rows of some batches.
fn collect_keys(batches: &[Batch], columns: &[ColumnName]) -> (r: DeltaResult<
    Vec<Vec<Option<Scalar>>>,
>)
    ensures
        match batches_failure(batches_view(batches@), paths_view(columns@), batches@.len()) {
            Some(failure) => r matches Err(error) && failure.is(error),
            None => r matches Ok(keys) && forall|key: Key| #[trigger]
                keys_view(keys@).contains(key) <==> has_key(
                    batches_view(batches@),
                    paths_view(columns@),
                    key,
                ),
        },
{
    let ghost views = batches_view(batches@);
    let ghost paths = paths_view(columns@);
    let mut all: Vec<Vec<Option<Scalar>>> = Vec::new();
    let mut b: usize = 0;
    proof {
        assert forall|key: Key| #[trigger] keys_view(all@).contains(key) <==> has_key(
            views.take(0),
            paths,
            key,
        ) by {
        }
    }
    while b < batches.len()
        invariant
            b <= batches@.len(),
            views == batches_view(batches@),
            paths == paths_view(columns@),
            batches_failure(views, paths, b as nat) is None,
            forall|key: Key| #[trigger]
                keys_view(all@).contains(key) <==> has_key(views.take(b as int), paths, key),
        decreases batches@.len() - b,
    {
        assert(views[b as int] == batches@[b as int]@);
        let mut keys: Vec<Vec<Option<Scalar>>> = match encode_keys_as_rows(&batches[b], columns) {
            Err(error) => {
                proof {
                    lemma_batches_failure_stays(views, paths, (b + 1) as nat, views.len());
                }
                return Err(error);
            },
            Ok(keys) => keys,
        };
        let ghost before = all@;
        let ghost added = keys@;
        all.append(&mut keys);
        proof {
            let all_views = keys_view(all@);
            assert(all@ == before + added);
            assert(keys_view(before) + keys_view(added) =~= all_views);
            assert forall|key: Key| #[trigger] all_views.contains(key) <==> has_key(
                views.take(b + 1),
                paths,
                key,
            ) by {
                lemma_has_key_step(views, paths, b as int, key);
                let old_views = keys_view(before);
                let new_views = keys_view(added);
                if all_views.contains(key) {
                    let i = choose|i: int| 0 <= i < all_views.len() && all_views[i] == key;
                    if i < old_views.len() {
                        assert(old_views[i] == key);
                        assert(old_views.contains(key));
                    } else {
                        assert(new_views[i - old_views.len()] == key);
                        assert(new_views.contains(key));
                    }
                }
                if old_views.contains(key) {
                    let i = choose|i: int| 0 <= i < old_views.len() && old_views[i] == key;
                    assert(all_views[i] == key);
                }
                if new_views.contains(key) {
                    let i = choose|i: int| 0 <= i < new_views.len() && new_views[i] == key;
                    assert(all_views[old_views.len() + i] == key);
                }
            }
        }
        b += 1;
    }
    assert(views.take(b as int) =~= views);
    Ok(all)
}

proof fn lemma_has_key_step(
    batches: Seq<BatchView>,
    paths: Seq<Seq<Seq<char>>>,
    b: int,
    key: Key,
)
    requires
        0 <= b < batches.len(),
    ensures
        has_key(batches.take(b + 1), paths, key) <==> has_key(batches.take(b), paths, key)
            || batch_keys(batches[b], paths).contains(key),
{
    let longer = batches.take(b + 1);
    let shorter = batches.take(b);
    if has_key(longer, paths, key) {
        let (c, i) = choose|c: int, i: int|
            0 <= c < longer.len() && 0 <= i < longer[c].rows.len() && #[trigger] batch_keys(
                longer[c],
                paths,
            )[i] == key;
        if c < b {
            assert(shorter[c] == longer[c]);
            assert(batch_keys(shorter[c], paths)[i] == key);
        } else {
            assert(batch_keys(batches[b], paths)[i] == key);
        }
    }
    if has_key(shorter, paths, key) {
        let (c, i) = choose|c: int, i: int|
            0 <= c < shorter.len() && 0 <= i < shorter[c].rows.len() && #[trigger] batch_keys(
                shorter[c],
                paths,
            )[i] == key;
        assert(longer[c] == shorter[c]);
        assert(batch_keys(longer[c], paths)[i] == key);
    }
    if batch_keys(batches[b], paths).contains(key) {
        let i = choose|i: int|
            0 <= i < batch_keys(batches[b], paths).len() && batch_keys(batches[b], paths)[i] == key;
        assert(longer[b] == batches[b]);
        assert(batch_keys(longer[b], paths)[i] == key);
    }
}

/// The rows of one side whose key is among those of the other, or is not.
pub fn eval_semi_join(join: &SemiJoin, probe: &[Batch], build: &[Batch]) -> (r: DeltaResult<
    Vec<Batch>,
>)
    ensures
        match join.result(batches_view(probe@), batches_view(build@)) {
            Ok(batches) => r matches Ok(found) && batches_view(found@) == batches,
            Err(failure) => r matches Err(error) && failure.is(error),
        },
{
    let ghost probes = batches_view(probe@);
    let ghost builds = batches_view(build@);
    let ghost paths = paths_view(join.probe_keys@);
    let build_keys: Vec<Vec<Option<Scalar>>> = match collect_keys(
        build,
        join.build_keys.as_slice(),
    ) {
        Err(error) => {
            return Err(error);
        },
        Ok(keys) => keys,
    };
    let mut batches: Vec<Batch> = Vec::new();
    let mut b: usize = 0;
    while b < probe.len()
        invariant
            b <= probe@.len(),
            probes == batches_view(probe@),
            builds == batches_view(build@),
            paths == paths_view(join.probe_keys@),
            batches_failure(builds, paths_view(join.build_keys@), builds.len()) is None,
            batches_failure(probes, paths, b as nat) is None,
            forall|key: Key| #[trigger]
                keys_view(build_keys@).contains(key) <==> has_key(
                    builds,
                    paths_view(join.build_keys@),
                    key,
                ),
            batches@.len() == b,
            forall|i: int|
                0 <= i < b ==> (#[trigger] batches@[i])@ == (BatchView {
                    fields: probes[i].fields,
                    rows: kept(probes[i].rows, join.mask(probes[i], builds)),
                }),
        decreases probe@.len() - b,
    {
        assert(probes[b as int] == probe@[b as int]@);
        let keys: Vec<Vec<Option<Scalar>>> = match encode_keys_as_rows(
            &probe[b],
            join.probe_keys.as_slice(),
        ) {
            Err(error) => {
                proof {
                    lemma_batches_failure_stays(probes, paths, (b + 1) as nat, probes.len());
                }
                return Err(error);
            },
            Ok(keys) => keys,
        };
        let mut mask: Vec<bool> = Vec::new();
        let mut i: usize = 0;
        while i < keys.len()
            invariant
                i <= keys@.len(),
                b < probe@.len(),
                builds == batches_view(build@),
                probes[b as int] == probe@[b as int]@,
                paths == paths_view(join.probe_keys@),
                keys_view(keys@) == batch_keys(probes[b as int], paths),
                forall|key: Key| #[trigger]
                    keys_view(build_keys@).contains(key) <==> has_key(
                        builds,
                        paths_view(join.build_keys@),
                        key,
                    ),
                mask@.len() == i,
                forall|j: int|
                    0 <= j < i ==> #[trigger] mask@[j] == (join.inverted != has_key(
                        builds,
                        paths_view(join.build_keys@),
                        keys_view(keys@)[j],
                    )),
            decreases keys@.len() - i,
        {
            assert(keys_view(keys@)[i as int] == key_view(keys@[i as int]@));
            let found: bool = contains_key(build_keys.as_slice(), keys[i].as_slice());
            mask.push(join.inverted != found);
            i += 1;
        }
        proof {
            assert(keys_view(keys@).len() == keys@.len());
            assert(mask@ =~= join.mask(probes[b as int], builds));
            assert(probes[b as int].rows.len() == probe@[b as int].rows@.len());
        }
        batches.push(filter_rows(&probe[b], mask.as_slice()));
        b += 1;
    }
    proof {
        let result = join.result(probes, builds);
        assert(result is Ok);
        assert(batches_view(batches@) =~= result->Ok_0);
    }
    Ok(batches)
}

proof fn lemma_kept_and_others(rows: Seq<Seq<ScalarView>>, a: Seq<bool>, b: Seq<bool>)
    requires
        a.len() == rows.len(),
        b.len() == rows.len(),
        forall|i: int| 0 <= i < rows.len() ==> #[trigger] a[i] != b[i],
    ensures
        kept(rows, a).len() + kept(rows, b).len() == rows.len(),
    decreases rows.len(),
{
    if rows.len() > 0 {
        assert(a[0] != b[0]);
        assert forall|i: int| 0 <= i < rows.skip(1).len() implies #[trigger] a.skip(1)[i]
            != b.skip(1)[i] by {
            assert(a[i + 1] != b[i + 1]);
        }
        lemma_kept_and_others(rows.skip(1), a.skip(1), b.skip(1));
    }
}

/// A join and the same join inverted share the rows of a batch: each row is kept by one of them.
pub proof fn law_inverted_join_keeps_the_others(
    join: SemiJoin,
    inverted: SemiJoin,
    batch: BatchView,
    build: Seq<BatchView>,
)
    requires
        inverted.probe_keys == join.probe_keys,
        inverted.build_keys == join.build_keys,
        inverted.inverted != join.inverted,
    ensures
        forall|i: int|
            0 <= i < batch.rows.len() ==> #[trigger] join.mask(batch, build)[i] != inverted.mask(
                batch,
                build,
            )[i],
        kept(batch.rows, join.mask(batch, build)).len() + kept(
            batch.rows,
            inverted.mask(batch, build),
        ).len() == batch.rows.len(),
{
    lemma_kept_and_others(batch.rows, join.mask(batch, build), inverted.mask(batch, build));
}

} // verus!
