//! Which edges a walk reaches, and what reaching a task invocation means
//! for the outcome of the walk.

use vstd::prelude::*;
use crate::effect::{extends, lemma_walk_branches_extends, lemma_walk_extends, planned};
use crate::error::{function_name, AnalyzeErrorView};
use crate::graph::{qualified_name, single_location, EdgeView, ProgramCounter, TaskDefView};
use crate::walker::{
    assigned, condition_stop, walk, walk_branches, Scope, TaskCallInfoView, WalkState, Walked,
};

verus! {

/// Whether the walk from `pc` reaches the edge at position `target`: whether
/// it comes to that edge, not as its stopping point, with fuel left to follow
/// it. Nothing is reached after a failure.
pub open spec fn reaches(
    cx: Scope,
    s: WalkState,
    pc: usize,
    stop: Option<usize>,
    is_main: bool,
    fuel: nat,
    target: usize,
) -> bool
    decreases fuel, 0nat,
{
    if stop == Some(pc) || pc >= s.edges.len() || fuel == 0 {
        false
    } else if pc == target {
        true
    } else {
        let rest = (fuel - 1) as nat;
        match s.edges[pc as int] {
            EdgeView::Node { task, locs, at, input, next } => {
                &&& node_failure(cx, s.edges[pc as int], pc) is None
                &&& reaches(cx, after_node(cx, s, pc), next, stop, is_main, rest, target)
            },
            EdgeView::Linear { next } => reaches(cx, s, next, stop, is_main, rest, target),
            EdgeView::Join { next } => reaches(cx, s, next, stop, is_main, rest, target),
            EdgeView::Call { next } => reaches(cx, s, next, stop, is_main, rest, target),
            EdgeView::Stop => false,
            EdgeView::Return { .. } => false,
            EdgeView::Branch { true_next, false_next, merge } => {
                let first = walk(cx, s, true_next, merge, is_main, rest);
                let second = match false_next {
                    Some(entry) => walk(cx, first.state, entry, merge, is_main, rest),
                    None => first,
                };
                ||| reaches(cx, s, true_next, merge, is_main, rest, target)
                ||| (first.error is None && false_next is Some && reaches(
                    cx,
                    first.state,
                    false_next->0,
                    merge,
                    is_main,
                    rest,
                    target,
                ))
                ||| (first.error is None && second.error is None && merge is Some && reaches(
                    cx,
                    second.state,
                    merge->0,
                    stop,
                    is_main,
                    rest,
                    target,
                ))
            },
            EdgeView::Parallel { branches, merge } => {
                let arms = walk_branches(cx, s, branches, 0, merge, rest);
                ||| reaches_in_branches(cx, s, branches, 0, merge, rest, target)
                ||| (arms.error is None && reaches(
                    cx,
                    arms.state,
                    merge,
                    stop,
                    is_main,
                    rest,
                    target,
                ))
            },
            EdgeView::Loop { cond, body, next } => {
                let first = walk(cx, s, cond, condition_stop(body), is_main, rest);
                let second = walk(cx, first.state, body, Some(cond), is_main, rest);
                ||| reaches(cx, s, cond, condition_stop(body), is_main, rest, target)
                ||| (first.error is None && reaches(
                    cx,
                    first.state,
                    body,
                    Some(cond),
                    is_main,
                    rest,
                    target,
                ))
                ||| (first.error is None && second.error is None && next is Some && reaches(
                    cx,
                    second.state,
                    next->0,
                    stop,
                    is_main,
                    rest,
                    target,
                ))
            },
        }
    }
}

/// Whether the walks of the branches of a `Parallel` from the branch at
/// position `from` on reach the edge at position `target`.
pub open spec fn reaches_in_branches(
    cx: Scope,
    s: WalkState,
    branches: Seq<usize>,
    from: nat,
    merge: usize,
    fuel: nat,
    target: usize,
) -> bool
    decreases fuel, 1 + branches.len() - from,
{
    if from >= branches.len() {
        false
    } else {
        let first = walk(cx, s, branches[from as int], Some(merge), false, fuel);
        ||| reaches(cx, s, branches[from as int], Some(merge), false, fuel, target)
        ||| (first.error is None && reaches_in_branches(
            cx,
            first.state,
            branches,
            from + 1,
            merge,
            fuel,
            target,
        ))
    }
}

/// The failure that the edge at position `idx` causes when a walk reaches it:
/// a task invocation fails where its task has no definition, where its task
/// is a transfer, and where its candidate locations are not exactly one. No
/// other edge fails.
pub open spec fn node_failure(cx: Scope, edge: EdgeView, idx: usize) -> Option<AnalyzeErrorView> {
    let node = ProgramCounter { func_id: cx.func_id, edge_idx: idx };
    match edge {
        EdgeView::Node { task, locs, .. } => {
            if task >= cx.table.tasks.len() {
                Some(AnalyzeErrorView::UnknownTaskId { id: cx.id, node, task_id: task })
            } else {
                match cx.table.tasks[task as int] {
                    TaskDefView::Transfer => Some(
                        AnalyzeErrorView::IllegalTransferTask { id: cx.id, node },
                    ),
                    TaskDefView::Compute(def) => match single_location(locs) {
                        None => Some(
                            AnalyzeErrorView::AmbiguousLocation {
                                id: cx.id,
                                node_func_id: function_name(cx.table, cx.func_id),
                                node_edge_idx: idx,
                                task: qualified_name(def),
                            },
                        ),
                        Some(_) => None,
                    },
                }
            }
        },
        _ => None,
    }
}

/// The state after the walk has planned and recorded the task invocation at
/// position `pc`, which does not fail.
pub open spec fn after_node(cx: Scope, s: WalkState, pc: usize) -> WalkState {
    match s.edges[pc as int] {
        EdgeView::Node { task, locs, at, input, next } => WalkState {
            edges: s.edges.update(pc as int, planned(s.edges[pc as int])),
            tasks: s.tasks.push(
                TaskCallInfoView {
                    pg: ProgramCounter { func_id: cx.func_id, edge_idx: pc },
                    name: qualified_name(cx.table.tasks[task as int]->Compute_0),
                    datasets: input,
                },
            ),
            results: s.results,
        },
        _ => s,
    }
}

/// What reaching the edge at position `idx` means for the end `w` of a walk
/// that started with `edge` at that position: an edge that fails is the
/// failure of the walk, and a task invocation that does not fail is planned.
pub open spec fn decided(cx: Scope, edge: EdgeView, idx: usize, w: Walked) -> bool {
    match node_failure(cx, edge, idx) {
        Some(err) => w.error == Some(err),
        None => idx < w.state.edges.len() && w.state.edges[idx as int] == planned(edge),
    }
}

proof fn lemma_decided_later(
    cx: Scope,
    is_main: bool,
    s: WalkState,
    mid: Walked,
    w: Walked,
    idx: usize,
    first_main: bool,
)
    requires
        idx < s.edges.len(),
        extends(cx, first_main, s, mid),
        extends(cx, is_main, mid.state, w),
        mid.error is None,
        decided(cx, mid.state.edges[idx as int], idx, w),
    ensures
        decided(cx, s.edges[idx as int], idx, w),
{
    let i = idx as int;
    assert(mid.state.edges[i] == planned(s.edges[i]) || mid.state.edges[i] == s.edges[i]);
    assert(planned(planned(s.edges[i])) == planned(s.edges[i]));
}

proof fn lemma_decided_earlier(
    cx: Scope,
    is_main: bool,
    s: WalkState,
    mid: Walked,
    w: Walked,
    idx: usize,
    first_main: bool,
)
    requires
        idx < s.edges.len(),
        extends(cx, first_main, s, mid),
        extends(cx, is_main, mid.state, w),
        mid.error is None,
        decided(cx, s.edges[idx as int], idx, mid),
    ensures
        decided(cx, s.edges[idx as int], idx, w),
{
    let i = idx as int;
    assert(w.state.edges[i] == planned(mid.state.edges[i]) || w.state.edges[i]
        == mid.state.edges[i]);
    assert(planned(planned(s.edges[i])) == planned(s.edges[i]));
}

/// An edge that a walk reaches lies within the graph and decides the walk.
pub proof fn lemma_reached_is_decided(
    cx: Scope,
    s: WalkState,
    pc: usize,
    stop: Option<usize>,
    is_main: bool,
    fuel: nat,
    target: usize,
)
    requires
        reaches(cx, s, pc, stop, is_main, fuel, target),
    ensures
        target < s.edges.len(),
        decided(cx, s.edges[target as int], target, walk(cx, s, pc, stop, is_main, fuel)),
    decreases fuel, 0nat,
{
    let w = walk(cx, s, pc, stop, is_main, fuel);
    let rest = (fuel - 1) as nat;
    lemma_walk_extends(cx, s, pc, stop, is_main, fuel);
    match s.edges[pc as int] {
        EdgeView::Node { task, locs, at, input, next } => {
            if node_failure(cx, s.edges[pc as int], pc) is None {
                let p = after_node(cx, s, pc);
                let step = Walked { state: p, error: None };
                assert(p.edges =~= s.edges.update(
                    pc as int,
                    assigned(s.edges[pc as int], single_location(locs)->0),
                ));
                assert(w == walk(cx, p, next, stop, is_main, rest));
                lemma_walk_extends(cx, p, next, stop, is_main, rest);
                assert(extends(cx, is_main, s, step)) by {
                    assert(p.tasks[s.tasks.len() as int].pg.edge_idx == pc);
                    assert(crate::effect::called_at(p.tasks, s.tasks.len() as int, pc as int));
                    assert(p.results.subrange(0, s.results.len() as int) =~= s.results);
                }
                if pc == target {
                    assert(decided(cx, s.edges[target as int], target, step));
                    lemma_decided_earlier(cx, is_main, s, step, w, target, is_main);
                } else {
                    lemma_reached_is_decided(cx, p, next, stop, is_main, rest, target);
                    lemma_decided_later(cx, is_main, s, step, w, target, is_main);
                }
            }
        },
        EdgeView::Linear { next } => {
            if pc != target {
                lemma_reached_is_decided(cx, s, next, stop, is_main, rest, target);
            }
        },
        EdgeView::Join { next } => {
            if pc != target {
                lemma_reached_is_decided(cx, s, next, stop, is_main, rest, target);
            }
        },
        EdgeView::Call { next } => {
            if pc != target {
                lemma_reached_is_decided(cx, s, next, stop, is_main, rest, target);
            }
        },
        EdgeView::Stop => {},
        EdgeView::Return { .. } => {},
        EdgeView::Branch { true_next, false_next, merge } => {
            if pc != target {
                let first = walk(cx, s, true_next, merge, is_main, rest);
                lemma_walk_extends(cx, s, true_next, merge, is_main, rest);
                let second = match false_next {
                    Some(entry) => walk(cx, first.state, entry, merge, is_main, rest),
                    None => first,
                };
                if first.error is None {
                    if let Some(entry) = false_next {
                        lemma_walk_extends(cx, first.state, entry, merge, is_main, rest);
                        crate::effect::lemma_extends_twice(
                            cx,
                            is_main,
                            is_main,
                            is_main,
                            s,
                            first,
                            second,
                        );
                    }
                    if second.error is None {
                        if let Some(after) = merge {
                            lemma_walk_extends(cx, second.state, after, stop, is_main, rest);
                        }
                    }
                }
                if reaches(cx, s, true_next, merge, is_main, rest, target) {
                    lemma_reached_is_decided(cx, s, true_next, merge, is_main, rest, target);
                    if first.error is None {
                        if let Some(entry) = false_next {
                            lemma_decided_earlier(cx, is_main, s, first, second, target, is_main);
                        }
                        if second.error is None {
                            if let Some(after) = merge {
                                lemma_decided_earlier(cx, is_main, s, second, w, target, is_main);
                            }
                        }
                    }
                } else if first.error is None && false_next is Some && reaches(
                    cx,
                    first.state,
                    false_next->0,
                    merge,
                    is_main,
                    rest,
                    target,
                ) {
                    lemma_reached_is_decided(
                        cx,
                        first.state,
                        false_next->0,
                        merge,
                        is_main,
                        rest,
                        target,
                    );
                    lemma_decided_later(cx, is_main, s, first, second, target, is_main);
                    if second.error is None {
                        if let Some(after) = merge {
                            lemma_decided_earlier(cx, is_main, s, second, w, target, is_main);
                        }
                    }
                } else {
                    let after = merge->0;
                    lemma_reached_is_decided(cx, second.state, after, stop, is_main, rest, target);
                    lemma_decided_later(cx, is_main, s, second, w, target, is_main);
                }
            }
        },
        EdgeView::Parallel { branches, merge } => {
            if pc != target {
                let arms = walk_branches(cx, s, branches, 0, merge, rest);
                lemma_walk_branches_extends(cx, s, branches, 0, merge, rest);
                if arms.error is None {
                    lemma_walk_extends(cx, arms.state, merge, stop, is_main, rest);
                }
                if reaches_in_branches(cx, s, branches, 0, merge, rest, target) {
                    lemma_reached_in_branches_is_decided(cx, s, branches, 0, merge, rest, target);
                    if arms.error is None {
                        lemma_decided_earlier(cx, is_main, s, arms, w, target, false);
                    }
                } else {
                    lemma_reached_is_decided(cx, arms.state, merge, stop, is_main, rest, target);
                    lemma_decided_later(cx, is_main, s, arms, w, target, false);
                }
            }
        },
        EdgeView::Loop { cond, body, next } => {
            if pc != target {
                let first = walk(cx, s, cond, condition_stop(body), is_main, rest);
                let second = walk(cx, first.state, body, Some(cond), is_main, rest);
                lemma_walk_extends(cx, s, cond, condition_stop(body), is_main, rest);
                if first.error is None {
                    lemma_walk_extends(cx, first.state, body, Some(cond), is_main, rest);
                    crate::effect::lemma_extends_twice(
                        cx,
                        is_main,
                        is_main,
                        is_main,
                        s,
                        first,
                        second,
                    );
                    if second.error is None {
                        if let Some(after) = next {
                            lemma_walk_extends(cx, second.state, after, stop, is_main, rest);
                        }
                    }
                }
                if reaches(cx, s, cond, condition_stop(body), is_main, rest, target) {
                    lemma_reached_is_decided(
                        cx,
                        s,
                        cond,
                        condition_stop(body),
                        is_main,
                        rest,
                        target,
                    );
                    if first.error is None {
                        lemma_decided_earlier(cx, is_main, s, first, second, target, is_main);
                        if second.error is None {
                            if let Some(after) = next {
                                lemma_decided_earlier(cx, is_main, s, second, w, target, is_main);
                            }
                        }
                    }
                } else if first.error is None && reaches(
                    cx,
                    first.state,
                    body,
                    Some(cond),
                    is_main,
                    rest,
                    target,
                ) {
                    lemma_reached_is_decided(
                        cx,
                        first.state,
                        body,
                        Some(cond),
                        is_main,
                        rest,
                        target,
                    );
                    lemma_decided_later(cx, is_main, s, first, second, target, is_main);
                    if second.error is None {
                        if let Some(after) = next {
                            lemma_decided_earlier(cx, is_main, s, second, w, target, is_main);
                        }
                    }
                } else {
                    let after = next->0;
                    lemma_reached_is_decided(cx, second.state, after, stop, is_main, rest, target);
                    lemma_decided_later(cx, is_main, s, second, w, target, is_main);
                }
            }
        },
    }
}

/// An edge that the walks of the branches of a `Parallel` reach lies within
/// the graph and decides those walks.
pub proof fn lemma_reached_in_branches_is_decided(
    cx: Scope,
    s: WalkState,
    branches: Seq<usize>,
    from: nat,
    merge: usize,
    fuel: nat,
    target: usize,
)
    requires
        reaches_in_branches(cx, s, branches, from, merge, fuel, target),
    ensures
        target < s.edges.len(),
        decided(
            cx,
            s.edges[target as int],
            target,
            walk_branches(cx, s, branches, from, merge, fuel),
        ),
    decreases fuel, 1 + branches.len() - from,
{
    let w = walk_branches(cx, s, branches, from, merge, fuel);
    let first = walk(cx, s, branches[from as int], Some(merge), false, fuel);
    lemma_walk_extends(cx, s, branches[from as int], Some(merge), false, fuel);
    if first.error is None {
        lemma_walk_branches_extends(cx, first.state, branches, from + 1, merge, fuel);
    }
    if reaches(cx, s, branches[from as int], Some(merge), false, fuel, target) {
        lemma_reached_is_decided(cx, s, branches[from as int], Some(merge), false, fuel, target);
        if first.error is None {
            lemma_decided_earlier(cx, false, s, first, w, target, false);
        }
    } else {
        lemma_reached_in_branches_is_decided(
            cx,
            first.state,
            branches,
            from + 1,
            merge,
            fuel,
            target,
        );
        lemma_decided_later(cx, false, s, first, w, target, false);
    }
}

/// A walk that reaches a task invocation whose candidate locations are not
/// exactly one fails with an ambiguous location that names that very edge,
/// the walked function and the qualified name of the task. The task of the
/// invocation is a compute task that the symbol table defines.
pub proof fn law_reached_ambiguous_node_fails(
    cx: Scope,
    s: WalkState,
    pc: usize,
    stop: Option<usize>,
    is_main: bool,
    fuel: nat,
    target: usize,
)
    requires
        reaches(cx, s, pc, stop, is_main, fuel, target),
        s.edges[target as int] matches EdgeView::Node { task, locs, .. } && task
            < cx.table.tasks.len() && cx.table.tasks[task as int] is Compute && single_location(
            locs,
        ) is None,
    ensures
        walk(cx, s, pc, stop, is_main, fuel).error == Some(
            AnalyzeErrorView::AmbiguousLocation {
                id: cx.id,
                node_func_id: function_name(cx.table, cx.func_id),
                node_edge_idx: target,
                task: qualified_name(
                    cx.table.tasks[s.edges[target as int]->Node_task as int]->Compute_0,
                ),
            },
        ),
{
    lemma_reached_is_decided(cx, s, pc, stop, is_main, fuel, target);
}

/// A walk that reaches a task invocation of a transfer task fails with an
/// illegal transfer task at that very edge.
pub proof fn law_reached_transfer_node_fails(
    cx: Scope,
    s: WalkState,
    pc: usize,
    stop: Option<usize>,
    is_main: bool,
    fuel: nat,
    target: usize,
)
    requires
        reaches(cx, s, pc, stop, is_main, fuel, target),
        s.edges[target as int] matches EdgeView::Node { task, .. } && task < cx.table.tasks.len()
            && cx.table.tasks[task as int] is Transfer,
    ensures
        walk(cx, s, pc, stop, is_main, fuel).error == Some(
            AnalyzeErrorView::IllegalTransferTask {
                id: cx.id,
                node: ProgramCounter { func_id: cx.func_id, edge_idx: target },
            },
        ),
{
    lemma_reached_is_decided(cx, s, pc, stop, is_main, fuel, target);
}

/// A walk that reaches a task invocation of a task without definition fails
/// with an unknown task id at that very edge.
pub proof fn law_reached_undefined_task_fails(
    cx: Scope,
    s: WalkState,
    pc: usize,
    stop: Option<usize>,
    is_main: bool,
    fuel: nat,
    target: usize,
)
    requires
        reaches(cx, s, pc, stop, is_main, fuel, target),
        s.edges[target as int] matches EdgeView::Node { task, .. } && task
            >= cx.table.tasks.len(),
    ensures
        walk(cx, s, pc, stop, is_main, fuel).error == Some(
            AnalyzeErrorView::UnknownTaskId {
                id: cx.id,
                node: ProgramCounter { func_id: cx.func_id, edge_idx: target },
                task_id: s.edges[target as int]->Node_task,
            },
        ),
{
    lemma_reached_is_decided(cx, s, pc, stop, is_main, fuel, target);
}

/// After a walk that succeeds, every task invocation that it reached has
/// exactly one candidate location, and that location is assigned to it.
pub proof fn law_reached_node_is_planned(
    cx: Scope,
    s: WalkState,
    pc: usize,
    stop: Option<usize>,
    is_main: bool,
    fuel: nat,
    target: usize,
)
    requires
        reaches(cx, s, pc, stop, is_main, fuel, target),
        walk(cx, s, pc, stop, is_main, fuel).error is None,
        s.edges[target as int] is Node,
    ensures
        ({
            let w = walk(cx, s, pc, stop, is_main, fuel);
            &&& w.state.edges[target as int] matches EdgeView::Node { locs, at, .. }
            &&& locs == s.edges[target as int]->Node_locs
            &&& at is Some
            &&& at == single_location(locs)
        }),
{
    lemma_reached_is_decided(cx, s, pc, stop, is_main, fuel, target);
}

/// A walk reaches the edge it starts at, unless that edge is its stopping
/// point, lies outside the graph or finds no fuel left.
pub proof fn law_entry_is_reached(
    cx: Scope,
    s: WalkState,
    pc: usize,
    stop: Option<usize>,
    is_main: bool,
    fuel: nat,
)
    ensures
        reaches(cx, s, pc, stop, is_main, fuel, pc) == (stop != Some(pc) && pc < s.edges.len()
            && fuel > 0),
{
}

/// The edge that a failure lays the blame on, where it is a task
/// invocation.
pub open spec fn blamed_node(err: AnalyzeErrorView) -> Option<usize> {
    match err {
        AnalyzeErrorView::AmbiguousLocation { node_edge_idx, .. } => Some(node_edge_idx),
        AnalyzeErrorView::IllegalTransferTask { node, .. } => Some(node.edge_idx),
        AnalyzeErrorView::UnknownTaskId { node, .. } => Some(node.edge_idx),
        _ => None,
    }
}

/// A walk that fails at a task invocation has reached it.
pub proof fn law_blamed_node_is_reached(
    cx: Scope,
    s: WalkState,
    pc: usize,
    stop: Option<usize>,
    is_main: bool,
    fuel: nat,
)
    ensures
        walk(cx, s, pc, stop, is_main, fuel).error matches Some(err) ==> (blamed_node(
            err,
        ) matches Some(target) ==> reaches(cx, s, pc, stop, is_main, fuel, target)),
    decreases fuel, 0nat,
{
    if stop == Some(pc) || pc >= s.edges.len() || fuel == 0 {
    } else {
        let rest = (fuel - 1) as nat;
        match s.edges[pc as int] {
            EdgeView::Node { task, locs, at, input, next } => {
                if node_failure(cx, s.edges[pc as int], pc) is None {
                    let p = after_node(cx, s, pc);
                    assert(p.edges =~= s.edges.update(
                        pc as int,
                        assigned(s.edges[pc as int], single_location(locs)->0),
                    ));
                    law_blamed_node_is_reached(cx, p, next, stop, is_main, rest);
                }
            },
            EdgeView::Linear { next } => {
                law_blamed_node_is_reached(cx, s, next, stop, is_main, rest);
            },
            EdgeView::Join { next } => {
                law_blamed_node_is_reached(cx, s, next, stop, is_main, rest);
            },
            EdgeView::Call { next } => {
                law_blamed_node_is_reached(cx, s, next, stop, is_main, rest);
            },
            EdgeView::Stop => {},
            EdgeView::Return { .. } => {},
            EdgeView::Branch { true_next, false_next, merge } => {
                let first = walk(cx, s, true_next, merge, is_main, rest);
                law_blamed_node_is_reached(cx, s, true_next, merge, is_main, rest);
                if first.error is None {
                    let second = match false_next {
                        Some(entry) => walk(cx, first.state, entry, merge, is_main, rest),
                        None => first,
                    };
                    if let Some(entry) = false_next {
                        law_blamed_node_is_reached(cx, first.state, entry, merge, is_main, rest);
                    }
                    if second.error is None {
                        if let Some(after) = merge {
                            law_blamed_node_is_reached(
                                cx,
                                second.state,
                                after,
                                stop,
                                is_main,
                                rest,
                            );
                        }
                    }
                }
            },
            EdgeView::Parallel { branches, merge } => {
                let arms = walk_branches(cx, s, branches, 0, merge, rest);
                lemma_blamed_node_is_reached_in_branches(cx, s, branches, 0, merge, rest);
                if arms.error is None {
                    law_blamed_node_is_reached(cx, arms.state, merge, stop, is_main, rest);
                }
            },
            EdgeView::Loop { cond, body, next } => {
                let first = walk(cx, s, cond, condition_stop(body), is_main, rest);
                law_blamed_node_is_reached(cx, s, cond, condition_stop(body), is_main, rest);
                if first.error is None {
                    let second = walk(cx, first.state, body, Some(cond), is_main, rest);
                    law_blamed_node_is_reached(cx, first.state, body, Some(cond), is_main, rest);
                    if second.error is None {
                        if let Some(after) = next {
                            law_blamed_node_is_reached(
                                cx,
                                second.state,
                                after,
                                stop,
                                is_main,
                                rest,
                            );
                        }
                    }
                }
            },
        }
    }
}

proof fn lemma_blamed_node_is_reached_in_branches(
    cx: Scope,
    s: WalkState,
    branches: Seq<usize>,
    from: nat,
    merge: usize,
    fuel: nat,
)
    ensures
        walk_branches(cx, s, branches, from, merge, fuel).error matches Some(err) ==> (blamed_node(
            err,
        ) matches Some(target) ==> reaches_in_branches(
            cx,
            s,
            branches,
            from,
            merge,
            fuel,
            target,
        )),
    decreases fuel, 1 + branches.len() - from,
{
    if from < branches.len() {
        let first = walk(cx, s, branches[from as int], Some(merge), false, fuel);
        law_blamed_node_is_reached(cx, s, branches[from as int], Some(merge), false, fuel);
        if first.error is None {
            lemma_blamed_node_is_reached_in_branches(
                cx,
                first.state,
                branches,
                from + 1,
                merge,
                fuel,
            );
        }
    }
}

} // verus!
