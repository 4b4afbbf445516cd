//! What holds of every walk, proved from the definition of the walk.

use vstd::prelude::*;
use crate::effect::{called_at, extends, lemma_walk_branches_extends, lemma_walk_extends, planned};
use crate::graph::{qualified_name, single_location, EdgeView, ProgramCounter, TaskDefView};
use crate::walker::{
    assigned, condition_stop, walk, walk_branches, Scope, TaskCallInfoView, WalkState, Walked,
};

verus! {

/// The edge `edge` without an assigned location.
pub open spec fn unassigned(edge: EdgeView) -> EdgeView {
    match edge {
        EdgeView::Node { task, locs, at, input, next } => EdgeView::Node {
            task,
            locs,
            at: None,
            input,
            next,
        },
        _ => edge,
    }
}

/// Whether two graphs differ in nothing but the locations assigned to their
/// task invocations.
pub open spec fn same_shape(a: Seq<EdgeView>, b: Seq<EdgeView>) -> bool {
    &&& a.len() == b.len()
    &&& forall|i: int| 0 <= i < a.len() ==> unassigned(#[trigger] a[i]) == unassigned(b[i])
}

/// Whether two states hold the same task calls and results over graphs of the
/// same shape.
pub open spec fn alike(a: WalkState, b: WalkState) -> bool {
    &&& same_shape(a.edges, b.edges)
    &&& a.tasks == b.tasks
    &&& a.results == b.results
}

/// A walk does not read the assigned locations: from two states that are
/// alike, it ends alike, with the same failure if any.
pub proof fn lemma_walk_ignores_assignments(
    cx: Scope,
    a: WalkState,
    b: WalkState,
    pc: usize,
    stop: Option<usize>,
    is_main: bool,
    fuel: nat,
)
    requires
        alike(a, b),
    ensures
        alike(
            walk(cx, a, pc, stop, is_main, fuel).state,
            walk(cx, b, pc, stop, is_main, fuel).state,
        ),
        walk(cx, a, pc, stop, is_main, fuel).error == walk(cx, b, pc, stop, is_main, fuel).error,
    decreases fuel, 0nat,
{
    if stop == Some(pc) {
    } else if pc >= a.edges.len() {
    } else if fuel == 0 {
    } else {
        let rest = (fuel - 1) as nat;
        assert(unassigned(a.edges[pc as int]) == unassigned(b.edges[pc as int]));
        match a.edges[pc as int] {
            EdgeView::Node { task, locs, at, input, next } => {
                if task < cx.table.tasks.len() {
                    match cx.table.tasks[task as int] {
                        TaskDefView::Transfer => {},
                        TaskDefView::Compute(def) => match single_location(locs) {
                            None => {},
                            Some(loc) => {
                                let call = TaskCallInfoView {
                                    pg: ProgramCounter { func_id: cx.func_id, edge_idx: pc },
                                    name: qualified_name(def),
                                    datasets: input,
                                };
                                let pa = WalkState {
                                    edges: a.edges.update(
                                        pc as int,
                                        assigned(a.edges[pc as int], loc),
                                    ),
                                    tasks: a.tasks.push(call),
                                    results: a.results,
                                };
                                let pb = WalkState {
                                    edges: b.edges.update(
                                        pc as int,
                                        assigned(b.edges[pc as int], loc),
                                    ),
                                    tasks: b.tasks.push(call),
                                    results: b.results,
                                };
                                assert(alike(pa, pb));
                                lemma_walk_ignores_assignments(
                                    cx,
                                    pa,
                                    pb,
                                    next,
                                    stop,
                                    is_main,
                                    rest,
                                );
                            },
                        },
                    }
                }
            },
            EdgeView::Linear { next } => {
                lemma_walk_ignores_assignments(cx, a, b, next, stop, is_main, rest);
            },
            EdgeView::Join { next } => {
                lemma_walk_ignores_assignments(cx, a, b, next, stop, is_main, rest);
            },
            EdgeView::Call { next } => {
                lemma_walk_ignores_assignments(cx, a, b, next, stop, is_main, rest);
            },
            EdgeView::Stop => {},
            EdgeView::Return { result } => {},
            EdgeView::Branch { true_next, false_next, merge } => {
                let fa = walk(cx, a, true_next, merge, is_main, rest);
                let fb = walk(cx, b, true_next, merge, is_main, rest);
                lemma_walk_ignores_assignments(cx, a, b, true_next, merge, is_main, rest);
                if fa.error is None {
                    let sa = match false_next {
                        Some(entry) => walk(cx, fa.state, entry, merge, is_main, rest),
                        None => fa,
                    };
                    let sb = match false_next {
                        Some(entry) => walk(cx, fb.state, entry, merge, is_main, rest),
                        None => fb,
                    };
                    if let Some(entry) = false_next {
                        lemma_walk_ignores_assignments(
                            cx,
                            fa.state,
                            fb.state,
                            entry,
                            merge,
                            is_main,
                            rest,
                        );
                    }
                    if sa.error is None {
                        if let Some(after) = merge {
                            lemma_walk_ignores_assignments(
                                cx,
                                sa.state,
                                sb.state,
                                after,
                                stop,
                                is_main,
                                rest,
                            );
                        }
                    }
                }
            },
            EdgeView::Parallel { branches, merge } => {
                let arms_a = walk_branches(cx, a, branches, 0, merge, rest);
                let arms_b = walk_branches(cx, b, branches, 0, merge, rest);
                lemma_walk_branches_ignore_assignments(cx, a, b, branches, 0, merge, rest);
                if arms_a.error is None {
                    lemma_walk_ignores_assignments(
                        cx,
                        arms_a.state,
                        arms_b.state,
                        merge,
                        stop,
                        is_main,
                        rest,
                    );
                }
            },
            EdgeView::Loop { cond, body, next } => {
                let fa = walk(cx, a, cond, condition_stop(body), is_main, rest);
                let fb = walk(cx, b, cond, condition_stop(body), is_main, rest);
                lemma_walk_ignores_assignments(cx, a, b, cond, condition_stop(body), is_main, rest);
                if fa.error is None {
                    let sa = walk(cx, fa.state, body, Some(cond), is_main, rest);
                    let sb = walk(cx, fb.state, body, Some(cond), is_main, rest);
                    lemma_walk_ignores_assignments(
                        cx,
                        fa.state,
                        fb.state,
                        body,
                        Some(cond),
                        is_main,
                        rest,
                    );
                    if sa.error is None {
                        if let Some(after) = next {
                            lemma_walk_ignores_assignments(
                                cx,
                                sa.state,
                                sb.state,
                                after,
                                stop,
                                is_main,
                                rest,
                            );
                        }
                    }
                }
            },
        }
    }
}

/// The walks of the branches of a `Parallel` do not read the assigned
/// locations either.
pub proof fn lemma_walk_branches_ignore_assignments(
    cx: Scope,
    a: WalkState,
    b: WalkState,
    branches: Seq<usize>,
    from: nat,
    merge: usize,
    fuel: nat,
)
    requires
        alike(a, b),
    ensures
        alike(
            walk_branches(cx, a, branches, from, merge, fuel).state,
            walk_branches(cx, b, branches, from, merge, fuel).state,
        ),
        walk_branches(cx, a, branches, from, merge, fuel).error == walk_branches(
            cx,
            b,
            branches,
            from,
            merge,
            fuel,
        ).error,
    decreases fuel, 1 + branches.len() - from,
{
    if from < branches.len() {
        let fa = walk(cx, a, branches[from as int], Some(merge), false, fuel);
        let fb = walk(cx, b, branches[from as int], Some(merge), false, fuel);
        lemma_walk_ignores_assignments(cx, a, b, branches[from as int], Some(merge), false, fuel);
        if fa.error is None {
            lemma_walk_branches_ignore_assignments(
                cx,
                fa.state,
                fb.state,
                branches,
                from + 1,
                merge,
                fuel,
            );
        }
    }
}

/// Running the analysis again on the graph that a successful analysis left
/// changes nothing: it succeeds, records the same task calls, collects the
/// same results and leaves every assigned location as it is.
pub proof fn law_analysis_is_idempotent(
    cx: Scope,
    s: WalkState,
    pc: usize,
    stop: Option<usize>,
    is_main: bool,
    fuel: nat,
)
    requires
        walk(cx, s, pc, stop, is_main, fuel).error is None,
    ensures
        ({
            let once = walk(cx, s, pc, stop, is_main, fuel);
            let again = walk(
                cx,
                WalkState { edges: once.state.edges, tasks: s.tasks, results: s.results },
                pc,
                stop,
                is_main,
                fuel,
            );
            again == once
        }),
{
    let once = walk(cx, s, pc, stop, is_main, fuel);
    let t = WalkState { edges: once.state.edges, tasks: s.tasks, results: s.results };
    let again = walk(cx, t, pc, stop, is_main, fuel);
    lemma_walk_extends(cx, s, pc, stop, is_main, fuel);
    lemma_walk_extends(cx, t, pc, stop, is_main, fuel);
    assert(alike(s, t)) by {
        assert forall|i: int| 0 <= i < s.edges.len() implies unassigned(#[trigger] s.edges[i])
            == unassigned(t.edges[i]) by {
            assert(t.edges[i] == planned(s.edges[i]) || t.edges[i] == s.edges[i]);
        }
    }
    lemma_walk_ignores_assignments(cx, s, t, pc, stop, is_main, fuel);
    assert(again.state.edges =~= once.state.edges) by {
        assert forall|i: int| 0 <= i < s.edges.len() implies again.state.edges[i]
            == once.state.edges[i] by {
            assert(planned(planned(s.edges[i])) == planned(s.edges[i]));
        }
    }
}

/// A walk over a graph in which every task invocation with exactly one
/// candidate location already has it assigned leaves the graph as it is.
pub proof fn law_planned_graph_is_kept(
    cx: Scope,
    s: WalkState,
    pc: usize,
    stop: Option<usize>,
    is_main: bool,
    fuel: nat,
)
    requires
        forall|i: int| 0 <= i < s.edges.len() ==> planned(#[trigger] s.edges[i]) == s.edges[i],
    ensures
        walk(cx, s, pc, stop, is_main, fuel).state.edges == s.edges,
{
    lemma_walk_extends(cx, s, pc, stop, is_main, fuel);
    assert(walk(cx, s, pc, stop, is_main, fuel).state.edges =~= s.edges);
}

/// Whether every edge that `edge` names as a successor lies within a
/// function of `len` edges.
pub open spec fn targets_in_range(edge: EdgeView, len: nat) -> bool {
    match edge {
        EdgeView::Node { next, .. } => next < len,
        EdgeView::Linear { next } => next < len,
        EdgeView::Stop => true,
        EdgeView::Branch { true_next, false_next, merge } => {
            &&& true_next < len
            &&& false_next matches Some(entry) ==> entry < len
            &&& merge matches Some(after) ==> after < len
        },
        EdgeView::Parallel { branches, merge } => {
            &&& forall|k: int| 0 <= k < branches.len() ==> #[trigger] branches[k] < len
            &&& merge < len
        },
        EdgeView::Join { next } => next < len,
        EdgeView::Loop { cond, body, next } => {
            &&& cond < len
            &&& body < len
            &&& next matches Some(after) ==> after < len
        },
        EdgeView::Call { next } => next < len,
        EdgeView::Return { .. } => true,
    }
}

/// Whether `edge`, if it invokes a task, invokes a compute task that the
/// symbol table defines and has exactly one candidate location.
pub open spec fn resolvable(cx: Scope, edge: EdgeView) -> bool {
    edge matches EdgeView::Node { task, locs, .. } ==> {
        &&& task < cx.table.tasks.len()
        &&& cx.table.tasks[task as int] is Compute
        &&& single_location(locs) is Some
    }
}

/// Whether every task invocation of the graph is resolvable and every
/// successor lies within the graph.
pub open spec fn trivially_plannable(cx: Scope, edges: Seq<EdgeView>) -> bool {
    forall|i: int|
        0 <= i < edges.len() ==> targets_in_range(#[trigger] edges[i], edges.len()) && resolvable(
            cx,
            edges[i],
        )
}

proof fn lemma_plannable_is_kept(cx: Scope, is_main: bool, s: WalkState, w: Walked)
    requires
        trivially_plannable(cx, s.edges),
        extends(cx, is_main, s, w),
    ensures
        trivially_plannable(cx, w.state.edges),
{
    assert forall|i: int| 0 <= i < w.state.edges.len() implies targets_in_range(
        #[trigger] w.state.edges[i],
        w.state.edges.len(),
    ) && resolvable(cx, w.state.edges[i]) by {
        assert(targets_in_range(s.edges[i], s.edges.len()) && resolvable(cx, s.edges[i]));
        assert(w.state.edges[i] == planned(s.edges[i]) || w.state.edges[i] == s.edges[i]);
    }
}

proof fn lemma_plannable_walk(
    cx: Scope,
    s: WalkState,
    pc: usize,
    stop: Option<usize>,
    is_main: bool,
    fuel: nat,
)
    requires
        trivially_plannable(cx, s.edges),
        pc < s.edges.len(),
    ensures
        walk(cx, s, pc, stop, is_main, fuel).error matches Some(err)
            ==> err is PathLimitExceeded,
        trivially_plannable(cx, walk(cx, s, pc, stop, is_main, fuel).state.edges),
    decreases fuel, 0nat,
{
    let w = walk(cx, s, pc, stop, is_main, fuel);
    lemma_walk_extends(cx, s, pc, stop, is_main, fuel);
    lemma_plannable_is_kept(cx, is_main, s, w);
    if stop == Some(pc) {
    } else if fuel == 0 {
    } else {
        let rest = (fuel - 1) as nat;
        assert(targets_in_range(s.edges[pc as int], s.edges.len()) && resolvable(
            cx,
            s.edges[pc as int],
        ));
        match s.edges[pc as int] {
            EdgeView::Node { task, locs, at, input, next } => {
                match cx.table.tasks[task as int] {
                    TaskDefView::Transfer => {},
                    TaskDefView::Compute(def) => {
                        let loc = single_location(locs)->0;
                        let call = TaskCallInfoView {
                            pg: ProgramCounter { func_id: cx.func_id, edge_idx: pc },
                            name: qualified_name(def),
                            datasets: input,
                        };
                        let p = WalkState {
                            edges: s.edges.update(pc as int, assigned(s.edges[pc as int], loc)),
                            tasks: s.tasks.push(call),
                            results: s.results,
                        };
                        assert(trivially_plannable(cx, p.edges)) by {
                            assert forall|i: int| 0 <= i < p.edges.len() implies targets_in_range(
                                #[trigger] p.edges[i],
                                p.edges.len(),
                            ) && resolvable(cx, p.edges[i]) by {
                                assert(targets_in_range(s.edges[i], s.edges.len()) && resolvable(
                                    cx,
                                    s.edges[i],
                                ));
                            }
                        }
                        lemma_plannable_walk(cx, p, next, stop, is_main, rest);
                    },
                }
            },
            EdgeView::Linear { next } => {
                lemma_plannable_walk(cx, s, next, stop, is_main, rest);
            },
            EdgeView::Join { next } => {
                lemma_plannable_walk(cx, s, next, stop, is_main, rest);
            },
            EdgeView::Call { next } => {
                lemma_plannable_walk(cx, s, next, stop, is_main, rest);
            },
            EdgeView::Stop => {},
            EdgeView::Return { result } => {},
            EdgeView::Branch { true_next, false_next, merge } => {
                let first = walk(cx, s, true_next, merge, is_main, rest);
                lemma_plannable_walk(cx, s, true_next, merge, is_main, rest);
                lemma_walk_extends(cx, s, true_next, merge, is_main, rest);
                if first.error is None {
                    let second = match false_next {
                        Some(entry) => walk(cx, first.state, entry, merge, is_main, rest),
                        None => first,
                    };
                    if let Some(entry) = false_next {
                        lemma_plannable_walk(cx, first.state, entry, merge, is_main, rest);
                        lemma_walk_extends(cx, first.state, entry, merge, is_main, rest);
                    }
                    if second.error is None {
                        if let Some(after) = merge {
                            lemma_plannable_walk(cx, second.state, after, stop, is_main, rest);
                        }
                    }
                }
            },
            EdgeView::Parallel { branches, merge } => {
                let arms = walk_branches(cx, s, branches, 0, merge, rest);
                lemma_plannable_branches(cx, s, branches, 0, merge, rest);
                lemma_walk_branches_extends(cx, s, branches, 0, merge, rest);
                if arms.error is None {
                    lemma_plannable_walk(cx, arms.state, merge, stop, is_main, rest);
                }
            },
            EdgeView::Loop { cond, body, next } => {
                let first = walk(cx, s, cond, condition_stop(body), is_main, rest);
                lemma_plannable_walk(cx, s, cond, condition_stop(body), is_main, rest);
                lemma_walk_extends(cx, s, cond, condition_stop(body), is_main, rest);
                if first.error is None {
                    let second = walk(cx, first.state, body, Some(cond), is_main, rest);
                    lemma_plannable_walk(cx, first.state, body, Some(cond), is_main, rest);
                    lemma_walk_extends(cx, first.state, body, Some(cond), is_main, rest);
                    if second.error is None {
                        if let Some(after) = next {
                            lemma_plannable_walk(cx, second.state, after, stop, is_main, rest);
                        }
                    }
                }
            },
        }
    }
}

proof fn lemma_plannable_branches(
    cx: Scope,
    s: WalkState,
    branches: Seq<usize>,
    from: nat,
    merge: usize,
    fuel: nat,
)
    requires
        trivially_plannable(cx, s.edges),
        forall|k: int| 0 <= k < branches.len() ==> #[trigger] branches[k] < s.edges.len(),
    ensures
        walk_branches(cx, s, branches, from, merge, fuel).error matches Some(err)
            ==> err is PathLimitExceeded,
        trivially_plannable(cx, walk_branches(cx, s, branches, from, merge, fuel).state.edges),
    decreases fuel, 1 + branches.len() - from,
{
    if from < branches.len() {
        let first = walk(cx, s, branches[from as int], Some(merge), false, fuel);
        lemma_plannable_walk(cx, s, branches[from as int], Some(merge), false, fuel);
        lemma_walk_extends(cx, s, branches[from as int], Some(merge), false, fuel);
        if first.error is None {
            lemma_plannable_branches(cx, first.state, branches, from + 1, merge, fuel);
        }
    }
}

/// Over a graph in which every task invocation names a compute task of the
/// symbol table and has exactly one candidate location, and every successor
/// lies within the graph, a walk from one of its edges fails for no reason
/// but the length of a path. Every task invocation at which it recorded a
/// call has its one candidate as assigned location.
pub proof fn law_plannable_graph_is_planned(
    cx: Scope,
    s: WalkState,
    pc: usize,
    stop: Option<usize>,
    is_main: bool,
    fuel: nat,
)
    requires
        trivially_plannable(cx, s.edges),
        pc < s.edges.len(),
    ensures
        ({
            let w = walk(cx, s, pc, stop, is_main, fuel);
            &&& w.error matches Some(err) ==> err is PathLimitExceeded
            &&& forall|k: int|
                s.tasks.len() <= k < w.state.tasks.len() ==> {
                    &&& (#[trigger] w.state.tasks[k]).pg.edge_idx < w.state.edges.len()
                    &&& w.state.edges[w.state.tasks[k].pg.edge_idx as int] matches EdgeView::Node {
                        locs,
                        at,
                        ..
                    }
                    &&& at is Some
                    &&& at == single_location(locs)
                }
        }),
{
    lemma_plannable_walk(cx, s, pc, stop, is_main, fuel);
    law_recorded_calls_are_planned(cx, s, pc, stop, is_main, fuel);
}

/// A walk changes nothing of a graph but assigned locations: it keeps the
/// number of edges, and every edge is left as it was or, where it is a task
/// invocation with exactly one candidate location, has that location
/// assigned.
pub proof fn law_walk_changes_assignments_only(
    cx: Scope,
    s: WalkState,
    pc: usize,
    stop: Option<usize>,
    is_main: bool,
    fuel: nat,
)
    ensures
        ({
            let w = walk(cx, s, pc, stop, is_main, fuel);
            &&& w.state.edges.len() == s.edges.len()
            &&& forall|i: int|
                0 <= i < s.edges.len() ==> #[trigger] w.state.edges[i] == s.edges[i]
                    || w.state.edges[i] == planned(s.edges[i])
        }),
{
    lemma_walk_extends(cx, s, pc, stop, is_main, fuel);
}

/// Whatever the graph, every task call that a walk records stands at a task
/// invocation that has exactly one candidate location, and the walk leaves
/// that location assigned to it. This holds of a walk that fails later, too.
pub proof fn law_recorded_calls_are_planned(
    cx: Scope,
    s: WalkState,
    pc: usize,
    stop: Option<usize>,
    is_main: bool,
    fuel: nat,
)
    ensures
        ({
            let w = walk(cx, s, pc, stop, is_main, fuel);
            forall|k: int|
                s.tasks.len() <= k < w.state.tasks.len() ==> {
                    &&& (#[trigger] w.state.tasks[k]).pg.edge_idx < w.state.edges.len()
                    &&& w.state.edges[w.state.tasks[k].pg.edge_idx as int] matches EdgeView::Node {
                        locs,
                        at,
                        ..
                    }
                    &&& at is Some
                    &&& at == single_location(locs)
                }
        }),
{
    let w = walk(cx, s, pc, stop, is_main, fuel);
    lemma_walk_extends(cx, s, pc, stop, is_main, fuel);
    assert forall|k: int| s.tasks.len() <= k < w.state.tasks.len() implies {
        &&& (#[trigger] w.state.tasks[k]).pg.edge_idx < w.state.edges.len()
        &&& w.state.edges[w.state.tasks[k].pg.edge_idx as int] matches EdgeView::Node {
            locs,
            at,
            ..
        }
        &&& at is Some
        &&& at == single_location(locs)
    } by {
        let call = w.state.tasks[k];
        let idx = call.pg.edge_idx as int;
        assert(crate::effect::records(cx, s.edges, call));
        assert(called_at(w.state.tasks, s.tasks.len() as int, idx));
        assert(w.state.edges[idx] == planned(s.edges[idx]));
    }
}

/// Every failure of a walk has its cause in the graph the walk started from.
/// An ambiguous location names an edge that invokes a compute task and whose
/// candidate locations are not exactly one, together with the qualified name
/// of that task and the name of the walked function. An illegal transfer
/// names an edge that invokes a transfer task. An unknown task id names an
/// edge that invokes a task the symbol table does not define. An unknown edge
/// index lies outside the graph.
pub proof fn law_failure_has_its_cause(
    cx: Scope,
    s: WalkState,
    pc: usize,
    stop: Option<usize>,
    is_main: bool,
    fuel: nat,
)
    ensures
        walk(cx, s, pc, stop, is_main, fuel).error matches Some(err) ==> crate::effect::justified(
            cx,
            s.edges,
            err,
        ),
{
    lemma_walk_extends(cx, s, pc, stop, is_main, fuel);
}

/// At a `Branch` without merge point the walk is the walk of the arms and
/// nothing more: whatever stands behind the arms is not entered from here.
pub proof fn law_branch_without_merge_ends_path(
    cx: Scope,
    s: WalkState,
    pc: usize,
    stop: Option<usize>,
    is_main: bool,
    fuel: nat,
)
    requires
        stop != Some(pc),
        fuel > 0,
        pc < s.edges.len(),
        s.edges[pc as int] matches EdgeView::Branch { merge, .. } && merge is None,
    ensures
        ({
            let true_next = s.edges[pc as int]->Branch_true_next;
            let false_next = s.edges[pc as int]->Branch_false_next;
            let first = walk(cx, s, true_next, None, is_main, (fuel - 1) as nat);
            walk(cx, s, pc, stop, is_main, fuel) == if first.error is Some {
                first
            } else {
                match false_next {
                    Some(entry) => walk(cx, first.state, entry, None, is_main, (fuel - 1) as nat),
                    None => first,
                }
            }
        }),
{
}

/// A walk that is not the top level of the workflow adds nothing to the
/// results, whatever it meets.
pub proof fn law_only_top_level_adds_results(
    cx: Scope,
    s: WalkState,
    pc: usize,
    stop: Option<usize>,
    fuel: nat,
)
    ensures
        walk(cx, s, pc, stop, false, fuel).state.results == s.results,
{
    lemma_walk_extends(cx, s, pc, stop, false, fuel);
}

/// The branches of a `Parallel` add nothing to the results, whatever they
/// return; the walk goes on from the merge point with the results it had
/// before the branches, as the top level if it was one.
pub proof fn law_parallel_branches_add_no_results(
    cx: Scope,
    s: WalkState,
    pc: usize,
    stop: Option<usize>,
    is_main: bool,
    fuel: nat,
)
    requires
        stop != Some(pc),
        fuel > 0,
        pc < s.edges.len(),
        s.edges[pc as int] is Parallel,
    ensures
        ({
            let branches = s.edges[pc as int]->Parallel_branches;
            let merge = s.edges[pc as int]->Parallel_merge;
            let arms = walk_branches(cx, s, branches, 0, merge, (fuel - 1) as nat);
            &&& arms.state.results == s.results
            &&& walk(cx, s, pc, stop, is_main, fuel) == if arms.error is Some {
                arms
            } else {
                walk(cx, arms.state, merge, stop, is_main, (fuel - 1) as nat)
            }
        }),
{
    let branches = s.edges[pc as int]->Parallel_branches;
    let merge = s.edges[pc as int]->Parallel_merge;
    lemma_walk_branches_extends(cx, s, branches, 0, merge, (fuel - 1) as nat);
}

/// A `Return` ends the path. At the top level of the workflow it adds its
/// datasets to the results, in their order; elsewhere it adds nothing.
pub proof fn law_return_adds_results_at_top_level(
    cx: Scope,
    s: WalkState,
    pc: usize,
    stop: Option<usize>,
    is_main: bool,
    fuel: nat,
)
    requires
        stop != Some(pc),
        fuel > 0,
        pc < s.edges.len(),
        s.edges[pc as int] is Return,
    ensures
        ({
            let w = walk(cx, s, pc, stop, is_main, fuel);
            &&& w.error is None
            &&& w.state.edges == s.edges
            &&& w.state.tasks == s.tasks
            &&& w.state.results == if is_main {
                s.results + s.edges[pc as int]->Return_result
            } else {
                s.results
            }
        }),
{
}

/// Whether every successor that `edge`, the edge at position `idx`, names
/// stands behind it.
pub open spec fn leads_forward(edge: EdgeView, idx: int) -> bool {
    match edge {
        EdgeView::Node { next, .. } => next > idx,
        EdgeView::Linear { next } => next > idx,
        EdgeView::Stop => true,
        EdgeView::Branch { true_next, false_next, merge } => {
            &&& true_next > idx
            &&& false_next matches Some(entry) ==> entry > idx
            &&& merge matches Some(after) ==> after > idx
        },
        EdgeView::Parallel { branches, merge } => {
            &&& forall|k: int| 0 <= k < branches.len() ==> #[trigger] branches[k] > idx
            &&& merge > idx
        },
        EdgeView::Join { next } => next > idx,
        EdgeView::Loop { cond, body, next } => {
            &&& cond > idx
            &&& body > idx
            &&& next matches Some(after) ==> after > idx
        },
        EdgeView::Call { next } => next > idx,
        EdgeView::Return { .. } => true,
    }
}

/// Whether no edge of the graph names a successor at or before its own
/// position.
pub open spec fn forward_only(edges: Seq<EdgeView>) -> bool {
    forall|i: int| 0 <= i < edges.len() ==> leads_forward(#[trigger] edges[i], i)
}

proof fn lemma_forward_is_kept(cx: Scope, is_main: bool, s: WalkState, w: Walked)
    requires
        forward_only(s.edges),
        extends(cx, is_main, s, w),
    ensures
        forward_only(w.state.edges),
{
    assert forall|i: int| 0 <= i < w.state.edges.len() implies leads_forward(
        #[trigger] w.state.edges[i],
        i,
    ) by {
        assert(leads_forward(s.edges[i], i));
        assert(w.state.edges[i] == planned(s.edges[i]) || w.state.edges[i] == s.edges[i]);
    }
}

proof fn lemma_forward_walk(
    cx: Scope,
    s: WalkState,
    pc: usize,
    stop: Option<usize>,
    is_main: bool,
    fuel: nat,
)
    requires
        forward_only(s.edges),
        pc + fuel >= s.edges.len(),
    ensures
        !(walk(cx, s, pc, stop, is_main, fuel).error matches Some(err)
            && err is PathLimitExceeded),
        forward_only(walk(cx, s, pc, stop, is_main, fuel).state.edges),
    decreases fuel, 0nat,
{
    let w = walk(cx, s, pc, stop, is_main, fuel);
    lemma_walk_extends(cx, s, pc, stop, is_main, fuel);
    lemma_forward_is_kept(cx, is_main, s, w);
    if stop == Some(pc) {
    } else if pc >= s.edges.len() {
    } else {
        let rest = (fuel - 1) as nat;
        assert(leads_forward(s.edges[pc as int], pc as int));
        match s.edges[pc as int] {
            EdgeView::Node { task, locs, at, input, next } => {
                if task < cx.table.tasks.len() {
                    match cx.table.tasks[task as int] {
                        TaskDefView::Transfer => {},
                        TaskDefView::Compute(def) => match single_location(locs) {
                            None => {},
                            Some(loc) => {
                                let call = TaskCallInfoView {
                                    pg: ProgramCounter { func_id: cx.func_id, edge_idx: pc },
                                    name: qualified_name(def),
                                    datasets: input,
                                };
                                let p = WalkState {
                                    edges: s.edges.update(
                                        pc as int,
                                        assigned(s.edges[pc as int], loc),
                                    ),
                                    tasks: s.tasks.push(call),
                                    results: s.results,
                                };
                                assert(forward_only(p.edges)) by {
                                    assert forall|i: int| 0 <= i < p.edges.len() implies leads_forward(
                                        #[trigger] p.edges[i],
                                        i,
                                    ) by {
                                        assert(leads_forward(s.edges[i], i));
                                    }
                                }
                                lemma_forward_walk(cx, p, next, stop, is_main, rest);
                            },
                        },
                    }
                }
            },
            EdgeView::Linear { next } => {
                lemma_forward_walk(cx, s, next, stop, is_main, rest);
            },
            EdgeView::Join { next } => {
                lemma_forward_walk(cx, s, next, stop, is_main, rest);
            },
            EdgeView::Call { next } => {
                lemma_forward_walk(cx, s, next, stop, is_main, rest);
            },
            EdgeView::Stop => {},
            EdgeView::Return { result } => {},
            EdgeView::Branch { true_next, false_next, merge } => {
                let first = walk(cx, s, true_next, merge, is_main, rest);
                lemma_forward_walk(cx, s, true_next, merge, is_main, rest);
                lemma_walk_extends(cx, s, true_next, merge, is_main, rest);
                if first.error is None {
                    let second = match false_next {
                        Some(entry) => walk(cx, first.state, entry, merge, is_main, rest),
                        None => first,
                    };
                    if let Some(entry) = false_next {
                        lemma_forward_walk(cx, first.state, entry, merge, is_main, rest);
                        lemma_walk_extends(cx, first.state, entry, merge, is_main, rest);
                    }
                    if second.error is None {
                        if let Some(after) = merge {
                            lemma_forward_walk(cx, second.state, after, stop, is_main, rest);
                        }
                    }
                }
            },
            EdgeView::Parallel { branches, merge } => {
                let arms = walk_branches(cx, s, branches, 0, merge, rest);
                lemma_forward_branches(cx, s, branches, 0, merge, rest, pc as int);
                lemma_walk_branches_extends(cx, s, branches, 0, merge, rest);
                if arms.error is None {
                    lemma_forward_walk(cx, arms.state, merge, stop, is_main, rest);
                }
            },
            EdgeView::Loop { cond, body, next } => {
                let first = walk(cx, s, cond, condition_stop(body), is_main, rest);
                lemma_forward_walk(cx, s, cond, condition_stop(body), is_main, rest);
                lemma_walk_extends(cx, s, cond, condition_stop(body), is_main, rest);
                if first.error is None {
                    let second = walk(cx, first.state, body, Some(cond), is_main, rest);
                    lemma_forward_walk(cx, first.state, body, Some(cond), is_main, rest);
                    lemma_walk_extends(cx, first.state, body, Some(cond), is_main, rest);
                    if second.error is None {
                        if let Some(after) = next {
                            lemma_forward_walk(cx, second.state, after, stop, is_main, rest);
                        }
                    }
                }
            },
        }
    }
}

proof fn lemma_forward_branches(
    cx: Scope,
    s: WalkState,
    branches: Seq<usize>,
    from: nat,
    merge: usize,
    fuel: nat,
    origin: int,
)
    requires
        forward_only(s.edges),
        origin + 1 + fuel >= s.edges.len(),
        forall|k: int| 0 <= k < branches.len() ==> #[trigger] branches[k] > origin,
    ensures
        !(walk_branches(cx, s, branches, from, merge, fuel).error matches Some(err)
            && err is PathLimitExceeded),
        forward_only(walk_branches(cx, s, branches, from, merge, fuel).state.edges),
    decreases fuel, 1 + branches.len() - from,
{
    if from < branches.len() {
        let first = walk(cx, s, branches[from as int], Some(merge), false, fuel);
        lemma_forward_walk(cx, s, branches[from as int], Some(merge), false, fuel);
        lemma_walk_extends(cx, s, branches[from as int], Some(merge), false, fuel);
        if first.error is None {
            lemma_forward_branches(cx, first.state, branches, from + 1, merge, fuel, origin);
        }
    }
}

/// Over a graph in which every successor stands behind the edge that names
/// it, no control path is longer than the graph: a walk that may follow as
/// many edges as the graph has does not fail for the length of a path.
pub proof fn law_forward_graph_fits_its_length(
    cx: Scope,
    s: WalkState,
    pc: usize,
    stop: Option<usize>,
    is_main: bool,
    fuel: nat,
)
    requires
        forward_only(s.edges),
        fuel >= s.edges.len(),
    ensures
        !(walk(cx, s, pc, stop, is_main, fuel).error matches Some(err)
            && err is PathLimitExceeded),
{
    lemma_forward_walk(cx, s, pc, stop, is_main, fuel);
}

/// Success is owed to a graph in which every task invocation names a compute
/// task of the symbol table and has exactly one candidate location, and every
/// successor lies within the graph and behind the edge that names it: a walk
/// from one of its edges that may follow as many edges as the graph has
/// succeeds.
pub proof fn law_forward_plannable_graph_succeeds(
    cx: Scope,
    s: WalkState,
    pc: usize,
    stop: Option<usize>,
    is_main: bool,
    fuel: nat,
)
    requires
        trivially_plannable(cx, s.edges),
        forward_only(s.edges),
        pc < s.edges.len(),
        fuel >= s.edges.len(),
    ensures
        walk(cx, s, pc, stop, is_main, fuel).error is None,
{
    lemma_forward_walk(cx, s, pc, stop, is_main, fuel);
    lemma_plannable_walk(cx, s, pc, stop, is_main, fuel);
}

} // verus!
