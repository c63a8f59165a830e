//! Queries: plans whose nodes are evaluated one after the other.
//!
//! Reading files and evaluating expressions is left to the caller. [`execute_query`] goes on until
//! it needs that, and is called again with what came of it.

use vstd::prelude::*;

use super::aggregation::eval_aggregate;
use super::aggs::Aggregate;
use super::batch::{batches_view, rows_view, Batch, BatchView, Failure};
use super::plan::{eval_semi_join, SemiJoin};
use super::scan::{
    dynamic_scan_files, files_view, values_batch, values_to_record_batch, DynamicScan, ScanFile,
    ScanFileView,
};
use crate::error::{DeltaResult, Error};
use crate::expressions::scalars::{scalars_clone, scalars_view, Scalar};
use crate::expressions::tree::{Expression, Predicate};
use crate::schema::StructType;

verus! {

// ---------------------------------------------------------------------------------------------
// Plans
// ---------------------------------------------------------------------------------------------

/// What kind of file rows are read from.
#[derive(Debug, Clone, Copy, PartialEq, Eq, Structural)]
pub enum FileType {
    /// A JSON file.
    Json,
    /// A Parquet file.
    Parquet,
}

/// What a node of a plan does.
#[derive(Debug)]
pub enum Operator {
    /// Reads the rows of files.
    Scan {
        /// What kind of files they are.
        file_type: FileType,
        /// The files.
        files: Vec<ScanFile>,
        /// The columns whose values stand beside the rows of a file.
        file_constant_columns: Vec<String>,
        /// The schema of the rows.
        schema: StructType,
    },
    /// Gives literal rows.
    Values {
        /// Their schema.
        schema: StructType,
        /// The rows.
        rows: Vec<Vec<Scalar>>,
    },
    /// Gives the rows of all inputs, one input after the other.
    UnionAll,
    /// Evaluates an expression on each row of its input.
    Project {
        /// The expression.
        expr: Expression,
        /// The schema of the result.
        schema: StructType,
    },
    /// Keeps the rows of its input for which a predicate holds.
    Filter {
        /// The predicate.
        predicate: Predicate,
    },
    /// Reads the files that the rows of its input name.
    DynamicScan {
        /// Which files they are.
        scan: DynamicScan,
        /// What kind of files they are.
        file_type: FileType,
        /// The schema of the rows.
        schema: StructType,
    },
    /// Groups the rows of its input.
    Aggregate(Aggregate),
    /// Keeps the rows of its first input whose key is among those of the second, or is not.
    SemiJoin(SemiJoin),
}

/// A node of a plan: what it does, and which nodes before it that is done with.
#[derive(Debug)]
pub struct PlanNode {
    /// What the node does.
    pub op: Operator,
    /// The positions, in the plan, of the nodes that it takes as inputs.
    pub inputs: Vec<usize>,
}

/// Each row has at least so many values.
pub open spec fn rows_wide(rows: Seq<Vec<Scalar>>, width: nat) -> bool {
    forall|i: int| 0 <= i < rows.len() ==> (#[trigger] rows[i])@.len() >= width
}

fn has_values(rows: &[Vec<Scalar>], width: usize) -> (r: bool)
    ensures
        r == rows_wide(rows@, width as nat),
{
    let mut i: usize = 0;
    while i < rows.len()
        invariant
            i <= rows@.len(),
            forall|j: int| 0 <= j < i ==> (#[trigger] rows@[j])@.len() >= width,
        decreases rows@.len() - i,
    {
        if rows[i].len() < width {
            assert(rows@[i as int]@.len() < width);
            return false;
        }
        i += 1;
    }
    true
}

impl PlanNode {
    /// How many of its inputs the node looks at.
    pub open spec fn used(self) -> nat {
        match self.op {
            Operator::Scan { .. } => 0,
            Operator::Values { .. } => 0,
            Operator::UnionAll => self.inputs@.len(),
            Operator::SemiJoin(_) => 2,
            _ => 1,
        }
    }

    /// The inputs that the node looks at are there and are among the first `n` nodes, and literal
    /// rows have a value for each field.
    pub open spec fn wf(self, n: int) -> bool {
        &&& self.used() <= self.inputs@.len()
        &&& forall|i: int| 0 <= i < self.used() ==> (#[trigger] self.inputs@[i]) < n
        &&& self.op matches Operator::Values { schema, rows } ==> rows_wide(
            rows@,
            schema.fields@.len(),
        )
    }
}

/// Each node takes its inputs from the nodes before it.
pub open spec fn plan_wf(nodes: Seq<PlanNode>) -> bool {
    forall|k: int| 0 <= k < nodes.len() ==> (#[trigger] nodes[k]).wf(k)
}

impl PlanNode {
    /// Whether the node finds the inputs that it looks at among the first `n` nodes, and literal rows
    /// have a value for each field.
    pub fn is_valid(&self, n: usize) -> (r: bool)
        ensures
            r == self.wf(n as int),
    {
        let used: usize = match &self.op {
            Operator::Scan { .. } | Operator::Values { .. } => 0,
            Operator::UnionAll => self.inputs.len(),
            Operator::SemiJoin(_) => 2,
            _ => 1,
        };
        if used > self.inputs.len() {
            return false;
        }
        let mut i: usize = 0;
        while i < used
            invariant
                i <= used <= self.inputs@.len(),
                used == self.used(),
                forall|j: int| 0 <= j < i ==> (#[trigger] self.inputs@[j]) < n,
            decreases used - i,
        {
            if self.inputs[i] >= n {
                return false;
            }
            i += 1;
        }
        match &self.op {
            Operator::Values { schema, rows } => has_values(rows.as_slice(), schema.fields.len()),
            _ => true,
        }
    }
}

/// Whether each node takes its inputs from the nodes before it, and literal rows have a value for
/// each field.
pub fn is_valid_plan(nodes: &[PlanNode]) -> (r: bool)
    ensures
        r == plan_wf(nodes@),
{
    let mut k: usize = 0;
    while k < nodes.len()
        invariant
            k <= nodes@.len(),
            forall|j: int| 0 <= j < k ==> (#[trigger] nodes@[j]).wf(j),
        decreases nodes@.len() - k,
    {
        if !nodes[k].is_valid(k) {
            return false;
        }
        k += 1;
    }
    true
}

// ---------------------------------------------------------------------------------------------
// What comes of a node
// ---------------------------------------------------------------------------------------------

/// What the nodes of a plan gave.
pub open spec fn outputs_view(outputs: Seq<Vec<Batch>>) -> Seq<Seq<BatchView>> {
    outputs.map_values(|output: Vec<Batch>| batches_view(output@))
}

/// Work that the caller has to do for a node.
#[derive(Debug)]
pub enum Task {
    /// To read the files that the node names.
    Scan,
    /// To read these files.
    DynamicScan(Vec<ScanFile>),
    /// To evaluate the expression of the node on the batches of this node.
    Project(usize),
    /// To evaluate the predicate of the node on the batches of this node.
    Filter(usize),
}

/// What the work is.
pub enum TaskView {
    /// To read the files that the node names.
    Scan,
    /// To read these files.
    DynamicScan(Seq<ScanFileView>),
    /// To evaluate the expression of the node on the batches of this node.
    Project(int),
    /// To evaluate the predicate of the node on the batches of this node.
    Filter(int),
}

impl View for Task {
    type V = TaskView;

    open spec fn view(&self) -> TaskView {
        match self {
            Task::Scan => TaskView::Scan,
            Task::DynamicScan(files) => TaskView::DynamicScan(files_view(files@)),
            Task::Project(input) => TaskView::Project(*input as int),
            Task::Filter(input) => TaskView::Filter(*input as int),
        }
    }
}

/// What comes of a node.
#[derive(Debug)]
pub enum NodeStep {
    /// Batches.
    Ready(Vec<Batch>),
    /// The caller has to do something.
    Outside(Task),
}

/// What comes of a node.
pub enum NodeView {
    /// Batches.
    Ready(Seq<BatchView>),
    /// The caller has to do something.
    Outside(TaskView),
}

impl View for NodeStep {
    type V = NodeView;

    open spec fn view(&self) -> NodeView {
        match self {
            NodeStep::Ready(batches) => NodeView::Ready(batches_view(batches@)),
            NodeStep::Outside(task) => NodeView::Outside(task@),
        }
    }
}

/// The batches of the first `n` inputs, one input after the other.
pub open spec fn united(
    inputs: Seq<usize>,
    results: Seq<Seq<BatchView>>,
    n: nat,
) -> Seq<BatchView>
    decreases n,
{
    if n == 0 {
        Seq::empty()
    } else {
        united(inputs, results, (n - 1) as nat) + results[inputs[n - 1] as int]
    }
}

/// What comes of a node, given what the nodes before it gave.
pub open spec fn node_outcome(node: PlanNode, results: Seq<Seq<BatchView>>) -> Result<
    NodeView,
    Failure,
> {
    let first = node.inputs@[0] as int;
    match node.op {
        Operator::Scan { .. } => Ok(NodeView::Outside(TaskView::Scan)),
        Operator::Values { schema, rows } => match values_batch(schema@, rows_view(rows@)) {
            Ok(batch) => Ok(NodeView::Ready(seq![batch])),
            Err(failure) => Err(failure),
        },
        Operator::UnionAll => Ok(
            NodeView::Ready(united(node.inputs@, results, node.inputs@.len())),
        ),
        Operator::Project { .. } => if results[first].len() == 0 {
            Ok(NodeView::Ready(Seq::empty()))
        } else {
            Ok(NodeView::Outside(TaskView::Project(first)))
        },
        Operator::Filter { .. } => if results[first].len() == 0 {
            Ok(NodeView::Ready(Seq::empty()))
        } else {
            Ok(NodeView::Outside(TaskView::Filter(first)))
        },
        Operator::DynamicScan { scan, .. } => match scan.files(
            results[first],
            results[first].len(),
        ) {
            Ok(files) => Ok(NodeView::Outside(TaskView::DynamicScan(files))),
            Err(failure) => Err(failure),
        },
        Operator::Aggregate(aggregate) => match aggregate.result(results[first]) {
            Ok(batches) => Ok(NodeView::Ready(batches)),
            Err(failure) => Err(failure),
        },
        Operator::SemiJoin(join) => match join.result(
            results[first],
            results[node.inputs@[1] as int],
        ) {
            Ok(batches) => Ok(NodeView::Ready(batches)),
            Err(failure) => Err(failure),
        },
    }
}

fn rows_clone(rows: &[Vec<Scalar>]) -> (r: Vec<Vec<Scalar>>)
    ensures
        rows_view(r@) == rows_view(rows@),
        r@.len() == rows@.len(),
        forall|i: int| 0 <= i < r@.len() ==> (#[trigger] r@[i])@.len() == rows@[i]@.len(),
{
    let mut r: Vec<Vec<Scalar>> = Vec::new();
    let mut i: usize = 0;
    while i < rows.len()
        invariant
            i <= rows@.len(),
            r@.len() == i,
            forall|j: int|
                0 <= j < i ==> scalars_view((#[trigger] r@[j])@) == scalars_view(rows@[j]@),
        decreases rows@.len() - i,
    {
        r.push(scalars_clone(rows[i].as_slice()));
        i += 1;
    }
    assert forall|j: int| 0 <= j < r@.len() implies (#[trigger] r@[j])@.len()
        == rows@[j]@.len() by {
        assert(scalars_view(r@[j]@).len() == scalars_view(rows@[j]@).len());
    }
    assert(rows_view(r@) =~= rows_view(rows@));
    r
}

fn batch_clone(batch: &Batch) -> (r: Batch)
    ensures
        r@ == batch@,
{
    Batch { schema: batch.schema.clone(), rows: rows_clone(batch.rows.as_slice()) }
}

/// The batches of some nodes, given what all nodes gave: those of one node after those of the other.
pub fn union_all(inputs: &[usize], results: &[Vec<Batch>]) -> (r: Vec<Batch>)
    requires
        forall|i: int| 0 <= i < inputs@.len() ==> (#[trigger] inputs@[i]) < results@.len(),
    ensures
        batches_view(r@) == united(inputs@, outputs_view(results@), inputs@.len()),
{
    let ghost outputs = outputs_view(results@);
    let mut r: Vec<Batch> = Vec::new();
    let mut i: usize = 0;
    assert(batches_view(r@) =~= Seq::empty());
    while i < inputs.len()
        invariant
            i <= inputs@.len(),
            outputs == outputs_view(results@),
            forall|j: int| 0 <= j < inputs@.len() ==> (#[trigger] inputs@[j]) < results@.len(),
            batches_view(r@) == united(inputs@, outputs, i as nat),
        decreases inputs@.len() - i,
    {
        let ghost before = batches_view(r@);
        let batches: &Vec<Batch> = &results[inputs[i]];
        let ghost all = batches_view(batches@);
        assert(all == outputs[inputs@[i as int] as int]);
        let mut b: usize = 0;
        assert(batches_view(r@) =~= before + all.take(0));
        while b < batches.len()
            invariant
                b <= batches@.len(),
                all == batches_view(batches@),
                batches_view(r@) == before + all.take(b as int),
            decreases batches@.len() - b,
        {
            let ghost so_far = r@;
            r.push(batch_clone(&batches[b]));
            proof {
                assert(batches_view(r@) =~= batches_view(so_far).push(all[b as int]));
                assert(all.take(b + 1) =~= all.take(b as int).push(all[b as int]));
                assert(batches_view(r@) =~= before + all.take(b + 1));
            }
            b += 1;
        }
        assert(all.take(b as int) =~= all);
        i += 1;
    }
    r
}

/// What comes of a node, given what the nodes before it gave.
pub fn eval_node(node: &PlanNode, results: &[Vec<Batch>]) -> (r: DeltaResult<NodeStep>)
    requires
        node.wf(results@.len() as int),
    ensures
        match node_outcome(*node, outputs_view(results@)) {
            Ok(outcome) => r matches Ok(step) && step@ == outcome,
            Err(failure) => r matches Err(error) && failure.is(error),
        },
{
    let ghost outputs = outputs_view(results@);
    proof {
        if node.used() > 0 {
            assert(node.inputs@[0] < results@.len());
            assert(outputs[node.inputs@[0] as int] == batches_view(
                results@[node.inputs@[0] as int]@,
            ));
        }
    }
    match &node.op {
        Operator::Scan { .. } => Ok(NodeStep::Outside(Task::Scan)),
        Operator::Values { schema, rows } => {
            match values_to_record_batch(schema.clone(), rows_clone(rows.as_slice())) {
                Err(error) => Err(error),
                Ok(batch) => {
                    let ghost view = batch@;
                    let mut batches: Vec<Batch> = Vec::new();
                    batches.push(batch);
                    assert(batches_view(batches@) =~= seq![view]);
                    Ok(NodeStep::Ready(batches))
                },
            }
        },
        Operator::UnionAll => Ok(NodeStep::Ready(union_all(node.inputs.as_slice(), results))),
        Operator::Project { .. } => {
            let input: usize = node.inputs[0];
            if results[input].len() == 0 {
                let none: Vec<Batch> = Vec::new();
                assert(batches_view(none@) =~= Seq::empty());
                Ok(NodeStep::Ready(none))
            } else {
                Ok(NodeStep::Outside(Task::Project(input)))
            }
        },
        Operator::Filter { .. } => {
            let input: usize = node.inputs[0];
            if results[input].len() == 0 {
                let none: Vec<Batch> = Vec::new();
                assert(batches_view(none@) =~= Seq::empty());
                Ok(NodeStep::Ready(none))
            } else {
                Ok(NodeStep::Outside(Task::Filter(input)))
            }
        },
        Operator::DynamicScan { scan, .. } => {
            match dynamic_scan_files(scan, results[node.inputs[0]].as_slice()) {
                Err(error) => Err(error),
                Ok(files) => Ok(NodeStep::Outside(Task::DynamicScan(files))),
            }
        },
        Operator::Aggregate(aggregate) => {
            match eval_aggregate(aggregate, results[node.inputs[0]].as_slice()) {
                Err(error) => Err(error),
                Ok(batches) => Ok(NodeStep::Ready(batches)),
            }
        },
        Operator::SemiJoin(join) => {
            assert(node.inputs@[1] < results@.len());
            assert(outputs[node.inputs@[1] as int] == batches_view(
                results@[node.inputs@[1] as int]@,
            ));
            match eval_semi_join(
                join,
                results[node.inputs[0]].as_slice(),
                results[node.inputs[1]].as_slice(),
            ) {
                Err(error) => Err(error),
                Ok(batches) => Ok(NodeStep::Ready(batches)),
            }
        },
    }
}

// ---------------------------------------------------------------------------------------------
// What comes of a query
// ---------------------------------------------------------------------------------------------

/// Where a query has got to.
#[derive(Debug)]
pub enum QueryStep {
    /// It is over, with these batches.
    Done(Vec<Batch>),
    /// The caller has to do something for the next node.
    Outside {
        /// What the nodes before it gave.
        outputs: Vec<Vec<Batch>>,
        /// What has to be done.
        task: Task,
    },
}

/// Where a query has got to.
pub enum QueryView {
    /// It is over, with these batches.
    Done(Seq<BatchView>),
    /// The caller has to do something for the next node.
    Outside(Seq<Seq<BatchView>>, TaskView),
}

impl View for QueryStep {
    type V = QueryView;

    open spec fn view(&self) -> QueryView {
        match self {
            QueryStep::Done(batches) => QueryView::Done(batches_view(batches@)),
            QueryStep::Outside { outputs, task } => QueryView::Outside(
                outputs_view(outputs@),
                task@,
            ),
        }
    }
}

/// Where a query gets to, when its first nodes gave `outputs`: the nodes are evaluated in order, and
/// the last one gives the result.
pub open spec fn query_outcome(nodes: Seq<PlanNode>, outputs: Seq<Seq<BatchView>>) -> Result<
    QueryView,
    Failure,
>
    decreases nodes.len() - outputs.len(),
{
    if outputs.len() >= nodes.len() {
        if outputs.len() == 0 {
            Err(Failure::Generic("plan has no nodes"@))
        } else {
            Ok(QueryView::Done(outputs.last()))
        }
    } else {
        match node_outcome(nodes[outputs.len() as int], outputs) {
            Err(failure) => Err(failure),
            Ok(NodeView::Outside(task)) => Ok(QueryView::Outside(outputs, task)),
            Ok(NodeView::Ready(batches)) => query_outcome(nodes, outputs.push(batches)),
        }
    }
}

/// Evaluates the next node. It adds to the outputs, unless the caller has to do something.
fn advance(nodes: &[PlanNode], outputs: &mut Vec<Vec<Batch>>) -> (r: DeltaResult<Option<Task>>)
    requires
        plan_wf(nodes@),
        old(outputs)@.len() < nodes@.len(),
    ensures
        match node_outcome(nodes@[old(outputs)@.len() as int], outputs_view(old(outputs)@)) {
            Err(failure) => r matches Err(error) && failure.is(error),
            Ok(NodeView::Outside(task)) => r matches Ok(Some(found)) && found@ == task
                && final(outputs)@ == old(outputs)@,
            Ok(NodeView::Ready(batches)) => r matches Ok(found) && found is None && outputs_view(
                final(outputs)@,
            ) == outputs_view(old(outputs)@).push(batches),
        },
{
    assert(nodes@[outputs@.len() as int].wf(outputs@.len() as int));
    match eval_node(&nodes[outputs.len()], outputs.as_slice()) {
        Err(error) => Err(error),
        Ok(NodeStep::Outside(task)) => Ok(Some(task)),
        Ok(NodeStep::Ready(batches)) => {
            let ghost view = batches_view(batches@);
            let ghost before = outputs@;
            outputs.push(batches);
            assert(outputs_view(outputs@) =~= outputs_view(before).push(view));
            Ok(None)
        },
    }
}

/// Goes on with a query whose first nodes gave `outputs`, until it is over or the caller has to do
/// something for the next node. What comes of that is the next of the outputs.
pub fn execute_query(nodes: &[PlanNode], outputs: Vec<Vec<Batch>>) -> (r: DeltaResult<QueryStep>)
    requires
        plan_wf(nodes@),
        outputs@.len() <= nodes@.len(),
    ensures
        match query_outcome(nodes@, outputs_view(outputs@)) {
            Ok(outcome) => r matches Ok(step) && step@ == outcome,
            Err(failure) => r matches Err(error) && failure.is(error),
        },
{
    let ghost outcome = query_outcome(nodes@, outputs_view(outputs@));
    let mut reached: Vec<Vec<Batch>> = outputs;
    while reached.len() < nodes.len()
        invariant
            plan_wf(nodes@),
            reached@.len() <= nodes@.len(),
            outcome == query_outcome(nodes@, outputs_view(outputs@)),
            outcome == query_outcome(nodes@, outputs_view(reached@)),
        decreases nodes@.len() - reached@.len(),
    {
        let ghost before = outputs_view(reached@);
        assert(before.len() == reached@.len());
        match advance(nodes, &mut reached) {
            Err(error) => {
                return Err(error);
            },
            Ok(Some(task)) => {
                return Ok(QueryStep::Outside { outputs: reached, task });
            },
            Ok(None) => {
                assert(outputs_view(reached@).len() == before.len() + 1);
            },
        }
    }
    let ghost all = reached@;
    match reached.pop() {
        None => Err(Error::generic("plan has no nodes")),
        Some(terminal) => {
            assert(outputs_view(all).last() == batches_view(terminal@));
            Ok(QueryStep::Done(terminal))
        },
    }
}

// ---------------------------------------------------------------------------------------------
// Laws
// ---------------------------------------------------------------------------------------------

/// A query that needs the caller keeps what its nodes gave so far, and stops at a node of the plan
/// that needs just that.
pub proof fn law_query_keeps_outputs(
    nodes: Seq<PlanNode>,
    outputs: Seq<Seq<BatchView>>,
    reached: Seq<Seq<BatchView>>,
    task: TaskView,
)
    requires
        query_outcome(nodes, outputs) == Ok::<QueryView, Failure>(
            QueryView::Outside(reached, task),
        ),
    ensures
        outputs.len() <= reached.len() < nodes.len(),
        reached.take(outputs.len() as int) == outputs,
        node_outcome(nodes[reached.len() as int], reached) == Ok::<NodeView, Failure>(
            NodeView::Outside(task),
        ),
    decreases nodes.len() - outputs.len(),
{
    match node_outcome(nodes[outputs.len() as int], outputs) {
        Ok(NodeView::Ready(batches)) => {
            let more = outputs.push(batches);
            law_query_keeps_outputs(nodes, more, reached, task);
            assert(reached.take(outputs.len() as int) =~= more.take(outputs.len() as int));
            assert(more.take(outputs.len() as int) =~= outputs);
        },
        _ => {
            assert(reached.take(outputs.len() as int) =~= outputs);
        },
    }
}

/// A union of some inputs and then of others is the union of the first, followed by that of the
/// others.
pub proof fn law_union_follows_the_inputs(
    a: Seq<usize>,
    b: Seq<usize>,
    results: Seq<Seq<BatchView>>,
)
    ensures
        united(a + b, results, (a + b).len()) == united(a, results, a.len()) + united(
            b,
            results,
            b.len(),
        ),
    decreases b.len(),
{
    let all = a + b;
    if b.len() == 0 {
        assert(all =~= a);
        assert(united(a, results, a.len()) + united(b, results, 0) =~= united(
            a,
            results,
            a.len(),
        ));
    } else {
        let fewer = b.drop_last();
        law_union_follows_the_inputs(a, fewer, results);
        assert(all.drop_last() =~= a + fewer);
        lemma_united_prefix(all, a + fewer, results, (a + fewer).len());
        lemma_united_prefix(b, fewer, results, fewer.len());
        let last = results[b.last() as int];
        assert(all[all.len() - 1] == b.last());
        assert(united(a, results, a.len()) + (united(fewer, results, fewer.len()) + last) =~= united(
            a,
            results,
            a.len(),
        ) + united(fewer, results, fewer.len()) + last);
    }
}

proof fn lemma_united_prefix(
    inputs: Seq<usize>,
    fewer: Seq<usize>,
    results: Seq<Seq<BatchView>>,
    n: nat,
)
    requires
        n <= fewer.len() <= inputs.len(),
        forall|i: int| 0 <= i < fewer.len() ==> (#[trigger] fewer[i]) == inputs[i],
    ensures
        united(inputs, results, n) == united(fewer, results, n),
    decreases n,
{
    if n > 0 {
        lemma_united_prefix(inputs, fewer, results, (n - 1) as nat);
        assert(fewer[n - 1] == inputs[n - 1]);
    }
}

} // verus!
