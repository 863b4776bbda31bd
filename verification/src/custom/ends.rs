//! When validating a workflow ends: the nodes that validation can reach from the
//! start node lead to nodes of lower rank only, and each of them has a state.
use vstd::arithmetic::mul::lemma_mul_inequality;
use vstd::arithmetic::power::{lemma_pow_increases, lemma_pow_positive, pow};
use vstd::prelude::*;

use super::{
    positions, check_input, check_inputs, find_ctx, find_start, first_ctx, first_start, push_successors, run_validation,
    spec_validate_node, successors, validate_workflow, validation_outcome, validation_step, InputsOutcome,
    StepOutcome, ValidationContext, ValidationModel, WorkflowValidationError,
};
use crate::models::custom::{Workflow, WorkflowNode};

verus! {

/// The ids of the states, in order.
pub open spec fn ctx_ids(ctx: Seq<ValidationModel>) -> Seq<usize> {
    ctx.map_values(|m: ValidationModel| m.id)
}

proof fn lemma_first_ctx_by_ids(a: Seq<ValidationModel>, b: Seq<ValidationModel>, id: usize)
    requires
        ctx_ids(a) == ctx_ids(b),
    ensures
        first_ctx(a, id) == first_ctx(b, id),
    decreases a.len(),
{
    assert(a.len() == ctx_ids(a).len());
    assert(b.len() == ctx_ids(b).len());
    if a.len() > 0 {
        assert(ctx_ids(a.drop_last()) =~= ctx_ids(a).drop_last());
        assert(ctx_ids(b.drop_last()) =~= ctx_ids(b).drop_last());
        assert(a.last().id == ctx_ids(a)[a.len() - 1]);
        assert(b.last().id == ctx_ids(b)[b.len() - 1]);
        lemma_first_ctx_by_ids(a.drop_last(), b.drop_last(), id);
    }
}

proof fn lemma_first_ctx_in_range(ctx: Seq<ValidationModel>, id: usize)
    ensures
        first_ctx(ctx, id) matches Some(q) ==> 0 <= q < ctx.len() && ctx[q].id == id,
    decreases ctx.len(),
{
    if ctx.len() > 0 {
        lemma_first_ctx_in_range(ctx.drop_last(), id);
    }
}

proof fn lemma_check_inputs_keeps_ids(ctx: Seq<ValidationModel>, node: WorkflowNode, k: int)
    requires
        first_ctx(ctx, node.id) is Some,
    ensures
        !(check_inputs(ctx, node, k) is Stuck),
        check_inputs(ctx, node, k) matches InputsOutcome::Done(c) ==> ctx_ids(c) == ctx_ids(ctx),
    decreases k,
{
    if k > 0 {
        lemma_check_inputs_keeps_ids(ctx, node, k - 1);
        if let InputsOutcome::Done(c) = check_inputs(ctx, node, k - 1) {
            lemma_first_ctx_by_ids(c, ctx, node.id);
            lemma_first_ctx_in_range(c, node.id);
            let input = node.inputs@[k - 1];
            if let InputsOutcome::Done(c2) = check_input(c, node, input) {
                let q = first_ctx(c, node.id)->0;
                assert(ctx_ids(c2) =~= ctx_ids(c));
            }
        }
    }
}

proof fn lemma_validate_node_keeps_id(node: WorkflowNode, m: ValidationModel)
    ensures
        spec_validate_node(node, m).0.id == m.id,
{
}

/// Validating one node that has a state never gets stuck, keeps the states' ids, and
/// queues the node's successors.
proof fn lemma_step_keeps_ids(nodes: Seq<WorkflowNode>, ctx: Seq<ValidationModel>, k: int)
    requires
        0 <= k < nodes.len(),
        first_ctx(ctx, nodes[k].id) is Some,
    ensures
        !(validation_step(nodes, ctx, k) is Stuck),
        validation_step(nodes, ctx, k) matches StepOutcome::Next(c2, s) ==> ctx_ids(c2) == ctx_ids(ctx)
            && successors(nodes, nodes[k].next@, nodes[k].next@.len() as int) == Ok::<Seq<int>, usize>(s),
{
    let node = nodes[k];
    lemma_check_inputs_keeps_ids(ctx, node, node.inputs@.len() as int);
    if let InputsOutcome::Done(c) = check_inputs(ctx, node, node.inputs@.len() as int) {
        lemma_first_ctx_by_ids(c, ctx, node.id);
        lemma_first_ctx_in_range(c, node.id);
        let q = first_ctx(c, node.id)->0;
        lemma_validate_node_keeps_id(node, c[q]);
        let c2 = c.update(q, spec_validate_node(node, c[q]).0);
        assert(ctx_ids(c2) =~= ctx_ids(c));
    }
}

/// The largest number of outcomes that a node of `nodes` leads on from.
pub open spec fn max_next(nodes: Seq<WorkflowNode>) -> nat
    decreases nodes.len(),
{
    if nodes.len() == 0 {
        0
    } else {
        let m = max_next(nodes.drop_last());
        if nodes.last().next@.len() > m {
            nodes.last().next@.len()
        } else {
            m
        }
    }
}

proof fn lemma_max_next(nodes: Seq<WorkflowNode>, k: int)
    requires
        0 <= k < nodes.len(),
    ensures
        nodes[k].next@.len() <= max_next(nodes),
    decreases nodes.len(),
{
    if k < nodes.len() - 1 {
        assert(nodes.drop_last()[k] == nodes[k]);
        lemma_max_next(nodes.drop_last(), k);
    }
}

/// A node that validation may reach, of rank `rank[k]` (a rank below 0 marks a node
/// validation cannot reach): it has a state, and each node it leads to may be reached
/// and has a lower rank.
pub open spec fn ranked_ok(nodes: Seq<WorkflowNode>, ctx: Seq<ValidationModel>, rank: Seq<int>, k: int) -> bool {
    &&& first_ctx(ctx, nodes[k].id) is Some
    &&& successors(nodes, nodes[k].next@, nodes[k].next@.len() as int) matches Ok(s) ==> forall|j: int|
        0 <= j < s.len() ==> 0 <= #[trigger] s[j] < nodes.len() && 0 <= rank[s[j]] < rank[k]
}

/// Every node of nonnegative rank is as [`ranked_ok`] says: the nodes that validation
/// can reach form no cycle and have states.
pub open spec fn well_ranked(nodes: Seq<WorkflowNode>, ctx: Seq<ValidationModel>, rank: Seq<int>) -> bool {
    &&& rank.len() == nodes.len()
    &&& forall|k: int| 0 <= k < nodes.len() && rank[k] >= 0 ==> #[trigger] ranked_ok(nodes, ctx, rank, k)
}

/// The weight of the queue `q`: each queued node weighs `base` to its rank.
pub open spec fn weight(base: nat, rank: Seq<int>, q: Seq<int>) -> int
    decreases q.len(),
{
    if q.len() == 0 {
        0
    } else {
        weight(base, rank, q.drop_last()) + pow(base as int, rank[q.last()] as nat)
    }
}

proof fn lemma_weight_nonnegative(base: nat, rank: Seq<int>, q: Seq<int>)
    requires
        base > 0,
    ensures
        weight(base, rank, q) >= 0,
    decreases q.len(),
{
    if q.len() > 0 {
        lemma_weight_nonnegative(base, rank, q.drop_last());
        lemma_pow_positive(base as int, rank[q.last()] as nat);
    }
}

proof fn lemma_weight_add(base: nat, rank: Seq<int>, a: Seq<int>, b: Seq<int>)
    ensures
        weight(base, rank, a + b) == weight(base, rank, a) + weight(base, rank, b),
    decreases b.len(),
{
    if b.len() == 0 {
        assert(a + b =~= a);
    } else {
        assert((a + b).drop_last() =~= a + b.drop_last());
        assert((a + b).last() == b.last());
        lemma_weight_add(base, rank, a, b.drop_last());
    }
}

proof fn lemma_weight_bound(base: nat, rank: Seq<int>, s: Seq<int>, r: int)
    requires
        base > 0,
        r >= 1,
        forall|j: int| 0 <= j < s.len() ==> 0 <= #[trigger] rank[s[j]] < r,
    ensures
        weight(base, rank, s) <= s.len() * pow(base as int, (r - 1) as nat),
    decreases s.len(),
{
    if s.len() > 0 {
        let d = s.drop_last();
        assert forall|j: int| 0 <= j < d.len() implies 0 <= #[trigger] rank[d[j]] < r by {
            assert(d[j] == s[j]);
        }
        lemma_weight_bound(base, rank, d, r);
        assert(rank[s[s.len() - 1]] < r);
        lemma_pow_increases(base, rank[s.last()] as nat, (r - 1) as nat);
        assert(s.len() * pow(base as int, (r - 1) as nat) == d.len() * pow(base as int, (r - 1) as nat) + pow(
            base as int,
            (r - 1) as nat,
        )) by (nonlinear_arith)
            requires
                s.len() == d.len() + 1,
        ;
    }
}

/// Validation from a queue of reachable nodes ends when the nodes are well ranked.
proof fn lemma_validation_ends(
    nodes: Seq<WorkflowNode>,
    ctx: Seq<ValidationModel>,
    queue: Seq<int>,
    rank: Seq<int>,
)
    requires
        well_ranked(nodes, ctx, rank),
        forall|j: int| 0 <= j < queue.len() ==> 0 <= #[trigger] queue[j] < nodes.len() && rank[queue[j]] >= 0,
    ensures
        exists|f: nat| #[trigger] run_validation(nodes, ctx, queue, f) is Some,
    decreases weight(max_next(nodes) + 1, rank, queue),
{
    let base: nat = max_next(nodes) + 1;
    if queue.len() == 0 {
        assert(run_validation(nodes, ctx, queue, 0) is Some);
    } else {
        let k = queue[0];
        assert(0 <= k < nodes.len() && rank[k] >= 0);
        assert(ranked_ok(nodes, ctx, rank, k));
        lemma_step_keeps_ids(nodes, ctx, k);
        match validation_step(nodes, ctx, k) {
            StepOutcome::Stuck => {},
            StepOutcome::Failed(c, e) => {
                assert(run_validation(nodes, ctx, queue, 1) is Some);
            },
            StepOutcome::Next(c2, s) => {
                assert forall|m: int| 0 <= m < nodes.len() && rank[m] >= 0 implies #[trigger] ranked_ok(
                    nodes,
                    c2,
                    rank,
                    m,
                ) by {
                    assert(ranked_ok(nodes, ctx, rank, m));
                    lemma_first_ctx_by_ids(c2, ctx, nodes[m].id);
                }
                let rest = queue.drop_first();
                let nq = rest + s;
                assert forall|j: int| 0 <= j < nq.len() implies 0 <= #[trigger] nq[j] < nodes.len() && rank[nq[j]]
                    >= 0 by {
                    if j < rest.len() {
                        assert(nq[j] == queue[j + 1]);
                    } else {
                        assert(nq[j] == s[j - rest.len()]);
                    }
                }
                assert(queue =~= seq![k] + rest);
                lemma_weight_add(base, rank, seq![k], rest);
                lemma_weight_add(base, rank, rest, s);
                assert(seq![k].drop_last() =~= Seq::<int>::empty());
                assert(seq![k].last() == k);
                assert(weight(base, rank, Seq::<int>::empty()) == 0);
                assert(weight(base, rank, seq![k]) == pow(base as int, rank[k] as nat));
                lemma_weight_nonnegative(base, rank, rest);
                lemma_weight_nonnegative(base, rank, s);
                lemma_weight_nonnegative(base, rank, nq);
                lemma_pow_positive(base as int, rank[k] as nat);
                if s.len() > 0 {
                    assert(0 <= rank[s[0]] < rank[k]);
                    assert forall|j: int| 0 <= j < s.len() implies 0 <= #[trigger] rank[s[j]] < rank[k] by {}
                    lemma_weight_bound(base, rank, s, rank[k]);
                    lemma_max_next(nodes, k);
                    assert(s.len() == nodes[k].next@.len()) by {
                        lemma_successors_len(nodes, nodes[k].next@, nodes[k].next@.len() as int);
                    }
                    let p = pow(base as int, (rank[k] - 1) as nat);
                    lemma_pow_positive(base as int, (rank[k] - 1) as nat);
                    let e = rank[k] as nat;
                    assert(pow(base as int, e) == base * pow(base as int, (e - 1) as nat)) by {
                        reveal(pow);
                    }
                    assert((e - 1) as nat == (rank[k] - 1) as nat);
                    assert(pow(base as int, rank[k] as nat) == base * p);
                    lemma_mul_inequality(s.len() as int, (base - 1) as int, p);
                    assert(s.len() * p < base * p) by (nonlinear_arith)
                        requires
                            s.len() * p <= (base - 1) * p,
                            p > 0,
                    ;
                } else {
                    assert(weight(base, rank, s) == 0);
                }
                lemma_validation_ends(nodes, c2, nq, rank);
                let f = choose|f: nat| #[trigger] run_validation(nodes, c2, nq, f) is Some;
                assert(run_validation(nodes, ctx, queue, f + 1) == run_validation(nodes, c2, nq, f));
            },
        }
    }
}

proof fn lemma_successors_len(nodes: Seq<WorkflowNode>, next: Seq<(String, usize)>, k: int)
    requires
        0 <= k,
    ensures
        successors(nodes, next, k) matches Ok(s) ==> s.len() == k,
    decreases k,
{
    if k > 0 {
        lemma_successors_len(nodes, next, k - 1);
    }
}

/// Validation ends on a workflow whose nodes are well ranked from its start node.
pub proof fn lemma_ranked_validation_ends(workflow: Workflow, ctx: Seq<ValidationModel>, rank: Seq<int>)
    requires
        well_ranked(workflow.nodes@, ctx, rank),
        first_start(workflow.nodes@) matches Some(s) ==> rank[s] >= 0,
    ensures
        validation_outcome(workflow, ctx) is Some,
{
    if let Some(s) = first_start(workflow.nodes@) {
        super::lemma_first_start_in_range(workflow.nodes@);
        lemma_validation_ends(workflow.nodes@, ctx, seq![s], rank);
    }
}

/// The positions of the nodes that the node at `k` leads to, when the workflow has
/// them all.
fn successor_positions(nodes: &Vec<WorkflowNode>, k: usize) -> (r: Option<Vec<usize>>)
    requires
        k < nodes@.len(),
    ensures
        match successors(nodes@, nodes@[k as int].next@, nodes@[k as int].next@.len() as int) {
            Ok(s) => r matches Some(v) && positions(v@) == s,
            Err(_) => r is None,
        },
{
    let mut next: Vec<usize> = Vec::new();
    let ghost empty = next@;
    assert(positions(empty) =~= Seq::<int>::empty());
    match push_successors(nodes, &nodes[k].next, &mut next) {
        Ok(()) => {
            assert(Seq::<int>::empty() + positions(next@) =~= positions(next@));
            Some(next)
        },
        Err(_) => None,
    }
}

/// Tests that validating the workflow from the states `execution_context` ends: it
/// does when the workflow has no start node, and when the nodes reachable from the
/// start node form no cycle and each has a state. A `true` answer is proved to mean
/// that validation ends.
pub fn validation_ends(workflow: &Workflow, execution_context: &ValidationContext) -> (r: bool)
    ensures
        r ==> validation_outcome(*workflow, execution_context.model()) is Some,
{
    let nodes = &workflow.nodes;
    let n = nodes.len();
    let start = match find_start(nodes) {
        None => {
            return true;
        },
        Some(s) => s,
    };
    // The nodes reachable from the start node, spread over `n` rounds.
    let mut reach: Vec<bool> = Vec::new();
    let mut i: usize = 0;
    while i < n
        invariant
            i <= n,
            reach@.len() == i,
        decreases n - i,
    {
        reach.push(i == start);
        i = i + 1;
    }
    let mut round: usize = 0;
    while round < n
        invariant
            n == nodes@.len(),
            reach@.len() == n,
        decreases n - round,
    {
        let mut k: usize = 0;
        while k < n
            invariant
                n == nodes@.len(),
                reach@.len() == n,
                k <= n,
            decreases n - k,
        {
            if reach[k] {
                if let Some(next) = successor_positions(nodes, k) {
                    let mut j: usize = 0;
                    while j < next.len()
                        invariant
                            reach@.len() == n,
                            j <= next@.len(),
                        decreases next@.len() - j,
                    {
                        if next[j] < n {
                            reach.set(next[j], true);
                        }
                        j = j + 1;
                    }
                }
            }
            k = k + 1;
        }
        round = round + 1;
    }
    // Ranks: a node ranks above every node it leads to, found over `n` rounds.
    let mut rank: Vec<u64> = Vec::new();
    let mut i: usize = 0;
    while i < n
        invariant
            i <= n,
            rank@.len() == i,
        decreases n - i,
    {
        rank.push(0);
        i = i + 1;
    }
    let mut round: usize = 0;
    while round < n
        invariant
            n == nodes@.len(),
            reach@.len() == n,
            rank@.len() == n,
        decreases n - round,
    {
        let mut k: usize = 0;
        while k < n
            invariant
                n == nodes@.len(),
                reach@.len() == n,
                rank@.len() == n,
                k <= n,
            decreases n - k,
        {
            if reach[k] {
                if let Some(next) = successor_positions(nodes, k) {
                    let mut j: usize = 0;
                    while j < next.len()
                        invariant
                            rank@.len() == n,
                            k < n,
                            j <= next@.len(),
                        decreases next@.len() - j,
                    {
                        let p = next[j];
                        if p < n && rank[p] < u64::MAX && rank[p] + 1 > rank[k] {
                            let raised = rank[p] + 1;
                            rank.set(k, raised);
                        }
                        j = j + 1;
                    }
                }
            }
            k = k + 1;
        }
        round = round + 1;
    }
    // Check the ranks.
    let ghost ctx = execution_context.model();
    let ghost rk = Seq::new(n as nat, |m: int| if reach@[m] { rank@[m] as int } else { -1int });
    let mut k: usize = 0;
    while k < n
        invariant
            n == nodes@.len(),
            reach@.len() == n,
            rank@.len() == n,
            k <= n,
            ctx == execution_context.model(),
            rk == Seq::new(n as nat, |m: int| if reach@[m] { rank@[m] as int } else { -1int }),
            forall|m: int| 0 <= m < k && rk[m] >= 0 ==> #[trigger] ranked_ok(nodes@, ctx, rk, m),
        decreases n - k,
    {
        if reach[k] {
            if find_ctx(&execution_context.nodes, nodes[k].id).is_none() {
                return false;
            }
            if let Some(next) = successor_positions(nodes, k) {
                let ghost s = positions(next@);
                let mut j: usize = 0;
                while j < next.len()
                    invariant
                        n == nodes@.len(),
                        reach@.len() == n,
                        rank@.len() == n,
                        k < n,
                        reach@[k as int],
                        s == positions(next@),
                        rk == Seq::new(n as nat, |m: int| if reach@[m] { rank@[m] as int } else { -1int }),
                        j <= next@.len(),
                        forall|i: int| 0 <= i < j ==> 0 <= #[trigger] s[i] < n && 0 <= rk[s[i]] < rk[k as int],
                    decreases next@.len() - j,
                {
                    let p = next[j];
                    if !(p < n && reach[p] && rank[p] < rank[k]) {
                        return false;
                    }
                    assert(s[j as int] == p as int);
                    j = j + 1;
                }
            }
            assert(ranked_ok(nodes@, ctx, rk, k as int));
        }
        k = k + 1;
    }
    if !reach[start] {
        return false;
    }
    proof {
        lemma_ranked_validation_ends(*workflow, ctx, rk);
    }
    true
}

/// Validates the workflow with [`validate_workflow`] when [`validation_ends`]
/// shows that validation ends; otherwise answers `None` and leaves the states
/// as they are.
pub fn try_validate_workflow(workflow: &Workflow, execution_context: &mut ValidationContext) -> (r: Option<
    Result<(), WorkflowValidationError>,
>)
    requires
        old(execution_context).wf(),
    ensures
        final(execution_context).wf(),
        r is None ==> *final(execution_context) == *old(execution_context),
        validation_outcome(*workflow, old(execution_context).model()) is None ==> r is None,
        r matches Some(res) ==> validation_outcome(*workflow, old(execution_context).model()) matches Some(o)
            && {
            &&& final(execution_context).model() == o.0
            &&& match o.1 {
                Ok(()) => res is Ok,
                Err(e) => res matches Err(err) && err.model() == e,
            }
        },
{
    if validation_ends(workflow, execution_context) {
        Some(validate_workflow(workflow, execution_context))
    } else {
        None
    }
}

} // verus!
