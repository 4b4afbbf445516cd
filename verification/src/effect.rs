//! What a walk does to the state it is given: which edges it changes, what it
//! appends to the recorded task calls and to the results, and what a failure
//! says of the graph.

use vstd::prelude::*;
use crate::error::{function_name, AnalyzeErrorView};
use crate::graph::{qualified_name, single_location, EdgeView, ProgramCounter, TaskDefView};
use crate::walker::{
    assigned, condition_stop, walk, walk_branches, Scope, TaskCallInfoView, WalkState, Walked,
};

verus! {

/// The edge `edge` after planning: a task invocation whose candidates are
/// exactly one location has that location assigned; every other edge is as it
/// was.
pub open spec fn planned(edge: EdgeView) -> EdgeView {
    match edge {
        EdgeView::Node { locs, .. } => match single_location(locs) {
            Some(loc) => assigned(edge, loc),
            None => edge,
        },
        _ => edge,
    }
}

/// Whether one of the task calls from position `from` on stands at edge
/// `idx`.
pub open spec fn called_at(tasks: Seq<TaskCallInfoView>, from: int, idx: int) -> bool {
    exists|k: int| from <= k < tasks.len() && (#[trigger] tasks[k]).pg.edge_idx == idx
}

/// Whether `call` is the record of a task invocation among `edges`: it names
/// an edge of the walked function that invokes a compute task with exactly one
/// candidate location, and holds the qualified name of that task and the
/// input datasets of that edge.
pub open spec fn records(cx: Scope, edges: Seq<EdgeView>, call: TaskCallInfoView) -> bool {
    &&& call.pg.func_id == cx.func_id
    &&& call.pg.edge_idx < edges.len()
    &&& edges[call.pg.edge_idx as int] matches EdgeView::Node { task, locs, input, .. }
    &&& single_location(locs) is Some
    &&& task < cx.table.tasks.len()
    &&& cx.table.tasks[task as int] matches TaskDefView::Compute(def)
    &&& call.name == qualified_name(def)
    &&& call.datasets == input
}

/// Whether the graph gives cause for the failure `err`.
pub open spec fn justified(cx: Scope, edges: Seq<EdgeView>, err: AnalyzeErrorView) -> bool {
    match err {
        AnalyzeErrorView::AmbiguousLocation { id, node_func_id, node_edge_idx, task } => {
            &&& id == cx.id
            &&& node_func_id == function_name(cx.table, cx.func_id)
            &&& node_edge_idx < edges.len()
            &&& edges[node_edge_idx as int] matches EdgeView::Node { task: task_id, locs, .. }
            &&& single_location(locs) is None
            &&& task_id < cx.table.tasks.len()
            &&& cx.table.tasks[task_id as int] matches TaskDefView::Compute(def)
            &&& task == qualified_name(def)
        },
        AnalyzeErrorView::IllegalTransferTask { id, node } => {
            &&& id == cx.id
            &&& node.func_id == cx.func_id
            &&& node.edge_idx < edges.len()
            &&& edges[node.edge_idx as int] matches EdgeView::Node { task: task_id, .. }
            &&& task_id < cx.table.tasks.len()
            &&& cx.table.tasks[task_id as int] is Transfer
        },
        AnalyzeErrorView::UnknownEdgeIndex { id, func_id, edge_idx, max } => {
            &&& id == cx.id
            &&& func_id == cx.func_id
            &&& max == edges.len()
            &&& edge_idx >= edges.len()
        },
        AnalyzeErrorView::UnknownTaskId { id, node, task_id } => {
            &&& id == cx.id
            &&& node.func_id == cx.func_id
            &&& node.edge_idx < edges.len()
            &&& edges[node.edge_idx as int] matches EdgeView::Node { task, .. }
            &&& task == task_id
            &&& task_id >= cx.table.tasks.len()
        },
        AnalyzeErrorView::PathLimitExceeded { id, node } => {
            &&& id == cx.id
            &&& node.func_id == cx.func_id
            &&& node.edge_idx < edges.len()
        },
    }
}

/// How the end `w` of a walk relates to the state `s` it started from.
///
/// The walk keeps the number of edges. It keeps the task calls and the
/// results that were there and appends to them; unless `is_main` holds it
/// leaves the results alone. Each task call it appends is the record of a
/// task invocation of the graph. An edge at which it recorded a call is
/// planned, every other edge is untouched. A failure has its cause in the
/// graph.
pub open spec fn extends(cx: Scope, is_main: bool, s: WalkState, w: Walked) -> bool {
    &&& w.state.edges.len() == s.edges.len()
    &&& s.tasks.len() <= w.state.tasks.len()
    &&& forall|k: int| 0 <= k < s.tasks.len() ==> #[trigger] w.state.tasks[k] == s.tasks[k]
    &&& forall|k: int|
        s.tasks.len() <= k < w.state.tasks.len() ==> records(
            cx,
            s.edges,
            #[trigger] w.state.tasks[k],
        )
    &&& forall|i: int|
        0 <= i < s.edges.len() ==> #[trigger] w.state.edges[i] == if called_at(
            w.state.tasks,
            s.tasks.len() as int,
            i,
        ) {
            planned(s.edges[i])
        } else {
            s.edges[i]
        }
    &&& s.results.len() <= w.state.results.len()
    &&& w.state.results.subrange(0, s.results.len() as int) == s.results
    &&& !is_main ==> w.state.results == s.results
    &&& w.error matches Some(err) ==> justified(cx, s.edges, err)
}

/// A walk that does nothing extends its state.
pub proof fn lemma_extends_nothing(cx: Scope, is_main: bool, s: WalkState)
    ensures
        extends(cx, is_main, s, Walked { state: s, error: None }),
{
    assert(s.results.subrange(0, s.results.len() as int) =~= s.results);
}

/// One walk after another extends the state that the first started from.
pub proof fn lemma_extends_twice(
    cx: Scope,
    first_main: bool,
    second_main: bool,
    is_main: bool,
    s: WalkState,
    mid: Walked,
    w: Walked,
)
    requires
        extends(cx, first_main, s, mid),
        mid.error is None,
        extends(cx, second_main, mid.state, w),
        first_main ==> is_main,
        second_main ==> is_main,
    ensures
        extends(cx, is_main, s, w),
{
    let m = mid.state;
    assert forall|k: int| s.tasks.len() <= k < w.state.tasks.len() implies records(
        cx,
        s.edges,
        #[trigger] w.state.tasks[k],
    ) by {
        let call = w.state.tasks[k];
        if k < m.tasks.len() {
            assert(w.state.tasks[k] == m.tasks[k]);
        } else {
            assert(records(cx, m.edges, call));
            let idx = call.pg.edge_idx as int;
            assert(m.edges[idx] == planned(s.edges[idx]) || m.edges[idx] == s.edges[idx]);
        }
    }
    assert forall|i: int| 0 <= i < s.edges.len() implies #[trigger] w.state.edges[i]
        == if called_at(w.state.tasks, s.tasks.len() as int, i) {
        planned(s.edges[i])
    } else {
        s.edges[i]
    } by {
        let early = called_at(m.tasks, s.tasks.len() as int, i);
        let late = called_at(w.state.tasks, m.tasks.len() as int, i);
        let any = called_at(w.state.tasks, s.tasks.len() as int, i);
        if early {
            let k = choose|k: int|
                s.tasks.len() <= k < m.tasks.len() && (#[trigger] m.tasks[k]).pg.edge_idx == i;
            assert(w.state.tasks[k] == m.tasks[k]);
            assert(any);
        }
        if late {
            let k = choose|k: int|
                m.tasks.len() <= k < w.state.tasks.len() && (#[trigger] w.state.tasks[k]).pg.edge_idx
                    == i;
            assert(s.tasks.len() <= k);
            assert(any);
        }
        if any {
            let k = choose|k: int|
                s.tasks.len() <= k < w.state.tasks.len() && (#[trigger] w.state.tasks[k]).pg.edge_idx
                    == i;
            if k < m.tasks.len() {
                assert(w.state.tasks[k] == m.tasks[k]);
                assert(early);
            } else {
                assert(late);
            }
        }
        assert(m.edges[i] == if early {
            planned(s.edges[i])
        } else {
            s.edges[i]
        });
        assert(w.state.edges[i] == if late {
            planned(m.edges[i])
        } else {
            m.edges[i]
        });
        assert(planned(planned(s.edges[i])) == planned(s.edges[i]));
    }
    assert(w.state.results.subrange(0, s.results.len() as int) =~= s.results) by {
        assert forall|j: int| 0 <= j < s.results.len() implies w.state.results[j]
            == s.results[j] by {
            assert(w.state.results.subrange(0, m.results.len() as int)[j] == w.state.results[j]);
            assert(m.results.subrange(0, s.results.len() as int)[j] == m.results[j]);
        }
    }
    if w.error is Some {
        let err = w.error->0;
        assert(justified(cx, m.edges, err));
        match err {
            AnalyzeErrorView::AmbiguousLocation { node_edge_idx, .. } => {
                let idx = node_edge_idx as int;
                assert(m.edges[idx] == planned(s.edges[idx]) || m.edges[idx] == s.edges[idx]);
            },
            AnalyzeErrorView::IllegalTransferTask { node, .. } => {
                let idx = node.edge_idx as int;
                assert(m.edges[idx] == planned(s.edges[idx]) || m.edges[idx] == s.edges[idx]);
            },
            AnalyzeErrorView::UnknownTaskId { node, .. } => {
                let idx = node.edge_idx as int;
                assert(m.edges[idx] == planned(s.edges[idx]) || m.edges[idx] == s.edges[idx]);
            },
            _ => {},
        }
    }
}

/// A failure that the graph gives cause for, met before anything was done,
/// extends the state.
pub proof fn lemma_extends_failure(cx: Scope, is_main: bool, s: WalkState, err: AnalyzeErrorView)
    requires
        justified(cx, s.edges, err),
    ensures
        extends(cx, is_main, s, Walked { state: s, error: Some(err) }),
{
    assert(s.results.subrange(0, s.results.len() as int) =~= s.results);
}

/// Every walk extends the state it starts from.
pub proof fn lemma_walk_extends(
    cx: Scope,
    s: WalkState,
    pc: usize,
    stop: Option<usize>,
    is_main: bool,
    fuel: nat,
)
    ensures
        extends(cx, is_main, s, walk(cx, s, pc, stop, is_main, fuel)),
    decreases fuel, 0nat,
{
    let w = walk(cx, s, pc, stop, is_main, fuel);
    if stop == Some(pc) {
        lemma_extends_nothing(cx, is_main, s);
    } else if pc >= s.edges.len() {
        lemma_extends_failure(cx, is_main, s, w.error->0);
    } else if fuel == 0 {
        lemma_extends_failure(cx, is_main, s, w.error->0);
    } else {
        let rest = (fuel - 1) as nat;
        match s.edges[pc as int] {
            EdgeView::Node { task, locs, at, input, next } => {
                if task >= cx.table.tasks.len() {
                    lemma_extends_failure(cx, is_main, s, w.error->0);
                } else {
                    match cx.table.tasks[task as int] {
                        TaskDefView::Transfer => {
                            lemma_extends_failure(cx, is_main, s, w.error->0);
                        },
                        TaskDefView::Compute(def) => match single_location(locs) {
                            None => {
                                lemma_extends_failure(cx, is_main, s, w.error->0);
                            },
                            Some(loc) => {
                                let call = TaskCallInfoView {
                                    pg: ProgramCounter { func_id: cx.func_id, edge_idx: pc },
                                    name: qualified_name(def),
                                    datasets: input,
                                };
                                let p = WalkState {
                                    edges: s.edges.update(
                                        pc as int,
                                        assigned(s.edges[pc as int], loc),
                                    ),
                                    tasks: s.tasks.push(call),
                                    results: s.results,
                                };
                                let step = Walked { state: p, error: None };
                                assert(extends(cx, is_main, s, step)) by {
                                    assert(p.tasks[s.tasks.len() as int] == call);
                                    assert(called_at(p.tasks, s.tasks.len() as int, pc as int));
                                    assert(p.results.subrange(0, s.results.len() as int)
                                        =~= s.results);
                                }
                                lemma_walk_extends(cx, p, next, stop, is_main, rest);
                                lemma_extends_twice(cx, is_main, is_main, is_main, s, step, w);
                            },
                        },
                    }
                }
            },
            EdgeView::Linear { next } => {
                lemma_walk_extends(cx, s, next, stop, is_main, rest);
            },
            EdgeView::Join { next } => {
                lemma_walk_extends(cx, s, next, stop, is_main, rest);
            },
            EdgeView::Call { next } => {
                lemma_walk_extends(cx, s, next, stop, is_main, rest);
            },
            EdgeView::Stop => {
                lemma_extends_nothing(cx, is_main, s);
            },
            EdgeView::Return { result } => {
                if is_main {
                    assert((s.results + result).subrange(0, s.results.len() as int)
                        =~= s.results);
                } else {
                    lemma_extends_nothing(cx, is_main, s);
                }
            },
            EdgeView::Branch { true_next, false_next, merge } => {
                let first = walk(cx, s, true_next, merge, is_main, rest);
                lemma_walk_extends(cx, s, true_next, merge, is_main, rest);
                if first.error is None {
                    let second = match false_next {
                        Some(entry) => walk(cx, first.state, entry, merge, is_main, rest),
                        None => first,
                    };
                    if let Some(entry) = false_next {
                        lemma_walk_extends(cx, first.state, entry, merge, is_main, rest);
                        lemma_extends_twice(cx, is_main, is_main, is_main, s, first, second);
                    }
                    if second.error is None {
                        if let Some(after) = merge {
                            lemma_walk_extends(cx, second.state, after, stop, is_main, rest);
                            lemma_extends_twice(cx, is_main, is_main, is_main, s, second, w);
                        }
                    }
                }
            },
            EdgeView::Parallel { branches, merge } => {
                let arms = walk_branches(cx, s, branches, 0, merge, rest);
                lemma_walk_branches_extends(cx, s, branches, 0, merge, rest);
                if arms.error is None {
                    lemma_walk_extends(cx, arms.state, merge, stop, is_main, rest);
                    lemma_extends_twice(cx, false, is_main, is_main, s, arms, w);
                } else {
                    lemma_extends_weaker(cx, is_main, s, arms);
                }
            },
            EdgeView::Loop { cond, body, next } => {
                let first = walk(cx, s, cond, condition_stop(body), is_main, rest);
                lemma_walk_extends(cx, s, cond, condition_stop(body), is_main, rest);
                if first.error is None {
                    let second = walk(cx, first.state, body, Some(cond), is_main, rest);
                    lemma_walk_extends(cx, first.state, body, Some(cond), is_main, rest);
                    lemma_extends_twice(cx, is_main, is_main, is_main, s, first, second);
                    if second.error is None {
                        if let Some(after) = next {
                            lemma_walk_extends(cx, second.state, after, stop, is_main, rest);
                            lemma_extends_twice(cx, is_main, is_main, is_main, s, second, w);
                        }
                    }
                }
            },
        }
    }
}

/// What holds of a walk that leaves the results alone holds of it wherever
/// results may be added.
pub proof fn lemma_extends_weaker(cx: Scope, is_main: bool, s: WalkState, w: Walked)
    requires
        extends(cx, false, s, w),
    ensures
        extends(cx, is_main, s, w),
{
}

/// The walks of the branches of a `Parallel` extend the state they start
/// from, and leave the results alone.
pub proof fn lemma_walk_branches_extends(
    cx: Scope,
    s: WalkState,
    branches: Seq<usize>,
    from: nat,
    merge: usize,
    fuel: nat,
)
    ensures
        extends(cx, false, s, walk_branches(cx, s, branches, from, merge, fuel)),
    decreases fuel, 1 + branches.len() - from,
{
    if from >= branches.len() {
        lemma_extends_nothing(cx, false, s);
    } else {
        let first = walk(cx, s, branches[from as int], Some(merge), false, fuel);
        lemma_walk_extends(cx, s, branches[from as int], Some(merge), false, fuel);
        if first.error is None {
            let w = walk_branches(cx, first.state, branches, from + 1, merge, fuel);
            lemma_walk_branches_extends(cx, first.state, branches, from + 1, merge, fuel);
            lemma_extends_twice(cx, false, false, false, s, first, w);
        }
    }
}

} // verus!
