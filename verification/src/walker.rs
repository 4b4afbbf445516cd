//! The graph walker: it follows every control path of one function, assigns
//! a location to each task invocation whose candidates are exactly one,
//! records the task calls and collects the results of the workflow.

use vstd::prelude::*;
use crate::error::{function_name, AnalyzeError, AnalyzeErrorView};
use crate::graph::{
    graph_view, names_view, qualified_name, single_location, ComputeTaskDef, Edge, EdgeView,
    FunctionId, ProgramCounter, SymTable, SymTableView, TaskDef, TaskDefView,
};

verus! {

/// What the analysis records of one task invocation.
#[derive(Clone, Debug, PartialEq, Eq)]
pub struct TaskCallInfo {
    /// Where the call stands.
    pub pg: ProgramCounter,
    /// The qualified name of the task.
    pub name: String,
    /// The names of the datasets that the call takes as input.
    pub datasets: Vec<String>,
}

/// The mathematical value of a [`TaskCallInfo`].
pub struct TaskCallInfoView {
    pub pg: ProgramCounter,
    pub name: Seq<char>,
    pub datasets: Seq<Seq<char>>,
}

impl View for TaskCallInfo {
    type V = TaskCallInfoView;

    open spec fn view(&self) -> TaskCallInfoView {
        TaskCallInfoView { pg: self.pg, name: self.name@, datasets: names_view(self.datasets@) }
    }
}

/// The mathematical value of a list of task calls.
pub open spec fn tasks_view(tasks: Seq<TaskCallInfo>) -> Seq<TaskCallInfoView> {
    Seq::new(tasks.len(), |i: int| tasks[i]@)
}

/// What stays the same during the walk of one function: the workflow's id,
/// its symbol table and the function that owns the edges.
pub struct Scope {
    pub id: Seq<char>,
    pub table: SymTableView,
    pub func_id: FunctionId,
}

/// What a walk works on: the edges of the function, the task calls recorded
/// so far and the results collected so far.
pub struct WalkState {
    pub edges: Seq<EdgeView>,
    pub tasks: Seq<TaskCallInfoView>,
    pub results: Seq<Seq<char>>,
}

/// How a walk ends: the state it leaves and, where it failed, the failure.
pub struct Walked {
    pub state: WalkState,
    pub error: Option<AnalyzeErrorView>,
}

/// The edge `edge` with `loc` as its assigned location; only a task
/// invocation has one.
pub open spec fn assigned(edge: EdgeView, loc: Seq<char>) -> EdgeView {
    match edge {
        EdgeView::Node { task, locs, at, input, next } => EdgeView::Node {
            task,
            locs,
            at: Some(loc),
            input,
            next,
        },
        _ => edge,
    }
}

/// The stopping point for the condition of a loop: the edge just before the
/// entry of the body. A body that starts at edge 0 has none.
pub open spec fn condition_stop(body: usize) -> Option<usize> {
    if body > 0 {
        Some((body - 1) as usize)
    } else {
        None
    }
}

/// The walk from edge `pc` that follows at most `fuel` edges on any one
/// control path.
///
/// It ends without failure at the stopping point `stop`, at a `Stop`, at a
/// `Return`, after a `Branch` without merge point and after a `Loop` without
/// successor. A `Return` adds its datasets to the results where `is_main`
/// holds. The first failure ends the walk and leaves the state as it was
/// then.
pub open spec fn walk(
    cx: Scope,
    s: WalkState,
    pc: usize,
    stop: Option<usize>,
    is_main: bool,
    fuel: nat,
) -> Walked
    decreases fuel, 0nat,
{
    if stop == Some(pc) {
        Walked { state: s, error: None }
    } else if pc >= s.edges.len() {
        Walked {
            state: s,
            error: Some(
                AnalyzeErrorView::UnknownEdgeIndex {
                    id: cx.id,
                    func_id: cx.func_id,
                    edge_idx: pc,
                    max: s.edges.len(),
                },
            ),
        }
    } else if fuel == 0 {
        Walked {
            state: s,
            error: Some(
                AnalyzeErrorView::PathLimitExceeded {
                    id: cx.id,
                    node: ProgramCounter { func_id: cx.func_id, edge_idx: pc },
                },
            ),
        }
    } else {
        let rest = (fuel - 1) as nat;
        match s.edges[pc as int] {
            EdgeView::Node { task, locs, at, input, next } => {
                let node = ProgramCounter { func_id: cx.func_id, edge_idx: pc };
                if task >= cx.table.tasks.len() {
                    Walked {
                        state: s,
                        error: Some(
                            AnalyzeErrorView::UnknownTaskId { id: cx.id, node, task_id: task },
                        ),
                    }
                } else {
                    match cx.table.tasks[task as int] {
                        TaskDefView::Transfer => Walked {
                            state: s,
                            error: Some(AnalyzeErrorView::IllegalTransferTask { id: cx.id, node }),
                        },
                        TaskDefView::Compute(def) => match single_location(locs) {
                            None => Walked {
                                state: s,
                                error: Some(
                                    AnalyzeErrorView::AmbiguousLocation {
                                        id: cx.id,
                                        node_func_id: function_name(cx.table, cx.func_id),
                                        node_edge_idx: pc,
                                        task: qualified_name(def),
                                    },
                                ),
                            },
                            Some(loc) => {
                                let call = TaskCallInfoView {
                                    pg: node,
                                    name: qualified_name(def),
                                    datasets: input,
                                };
                                let planned = WalkState {
                                    edges: s.edges.update(
                                        pc as int,
                                        assigned(s.edges[pc as int], loc),
                                    ),
                                    tasks: s.tasks.push(call),
                                    results: s.results,
                                };
                                walk(cx, planned, next, stop, is_main, rest)
                            },
                        },
                    }
                }
            },
            EdgeView::Linear { next } => walk(cx, s, next, stop, is_main, rest),
            EdgeView::Join { next } => walk(cx, s, next, stop, is_main, rest),
            EdgeView::Call { next } => walk(cx, s, next, stop, is_main, rest),
            EdgeView::Stop => Walked { state: s, error: None },
            EdgeView::Return { result } => Walked {
                state: if is_main {
                    WalkState { edges: s.edges, tasks: s.tasks, results: s.results + result }
                } else {
                    s
                },
                error: None,
            },
            EdgeView::Branch { true_next, false_next, merge } => {
                let first = walk(cx, s, true_next, merge, is_main, rest);
                if first.error is Some {
                    first
                } else {
                    let second = match false_next {
                        Some(entry) => walk(cx, first.state, entry, merge, is_main, rest),
                        None => first,
                    };
                    if second.error is Some {
                        second
                    } else {
                        match merge {
                            Some(after) => walk(cx, second.state, after, stop, is_main, rest),
                            None => second,
                        }
                    }
                }
            },
            EdgeView::Parallel { branches, merge } => {
                let arms = walk_branches(cx, s, branches, 0, merge, rest);
                if arms.error is Some {
                    arms
                } else {
                    walk(cx, arms.state, merge, stop, is_main, rest)
                }
            },
            EdgeView::Loop { cond, body, next } => {
                let first = walk(cx, s, cond, condition_stop(body), is_main, rest);
                if first.error is Some {
                    first
                } else {
                    let second = walk(cx, first.state, body, Some(cond), is_main, rest);
                    if second.error is Some {
                        second
                    } else {
                        match next {
                            Some(after) => walk(cx, second.state, after, stop, is_main, rest),
                            None => second,
                        }
                    }
                }
            },
        }
    }
}

/// The walks of the branches of a `Parallel` from the branch at position
/// `from` on, one after the other, each up to the shared merge point and none
/// of them as the top level of the workflow.
pub open spec fn walk_branches(
    cx: Scope,
    s: WalkState,
    branches: Seq<usize>,
    from: nat,
    merge: usize,
    fuel: nat,
) -> Walked
    decreases fuel, 1 + branches.len() - from,
{
    if from >= branches.len() {
        Walked { state: s, error: None }
    } else {
        let first = walk(cx, s, branches[from as int], Some(merge), false, fuel);
        if first.error is Some {
            first
        } else {
            walk_branches(cx, first.state, branches, from + 1, merge, fuel)
        }
    }
}

/// The state that a walk starts from or ends in, as the values of the
/// collections that hold it.
pub open spec fn walk_state(
    edges: Seq<Edge>,
    tasks: Seq<TaskCallInfo>,
    results: Seq<String>,
) -> WalkState {
    WalkState {
        edges: graph_view(edges),
        tasks: tasks_view(tasks),
        results: names_view(results),
    }
}

/// Copies a list of names.
pub fn copy_names(names: &Vec<String>) -> (res: Vec<String>)
    ensures
        names_view(res@) == names_view(names@),
{
    let mut res: Vec<String> = Vec::new();
    let mut i: usize = 0;
    while i < names.len()
        invariant
            i <= names.len(),
            res.len() == i,
            forall|k: int| 0 <= k < i ==> res[k]@ == names[k]@,
        decreases names.len() - i,
    {
        res.push(names[i].clone());
        i += 1;
    }
    assert(names_view(res@) =~= names_view(names@));
    res
}

/// Appends copies of `names` to `target`.
pub fn append_names(target: &mut Vec<String>, names: &Vec<String>)
    ensures
        names_view(final(target)@) == names_view(old(target)@) + names_view(names@),
{
    let mut i: usize = 0;
    while i < names.len()
        invariant
            i <= names.len(),
            target.len() == old(target).len() + i,
            forall|k: int| 0 <= k < old(target).len() ==> target[k]@ == old(target)[k]@,
            forall|k: int| 0 <= k < i ==> target[old(target).len() + k]@ == names[k]@,
        decreases names.len() - i,
    {
        target.push(names[i].clone());
        i += 1;
    }
    assert(names_view(target@) =~= names_view(old(target)@) + names_view(names@));
}

/// Walks the edges of one function from `pc`: assigns its one candidate
/// location to every task invocation on the way, records each of them in
/// `tasks`, and, where `is_main` holds, adds the datasets of every `Return`
/// that ends a path to `results`.
///
/// The walk ends at `breakpoint`, where one is given. No control path is
/// followed for more than `limit` edges. On a failure the three collections
/// keep what the walk had done up to it.
pub fn analyze_wir_and_trivially_plan(
    wf_id: &str,
    table: &SymTable,
    func_id: FunctionId,
    edges: &mut Vec<Edge>,
    pc: usize,
    breakpoint: Option<usize>,
    is_main: bool,
    limit: usize,
    tasks: &mut Vec<TaskCallInfo>,
    results: &mut Vec<String>,
) -> (res: Result<(), AnalyzeError>)
    ensures
        ({
            let walked = walk(
                Scope { id: wf_id@, table: table@, func_id },
                walk_state(old(edges)@, old(tasks)@, old(results)@),
                pc,
                breakpoint,
                is_main,
                limit as nat,
            );
            &&& walk_state(final(edges)@, final(tasks)@, final(results)@) == walked.state
            &&& match res {
                Ok(_) => walked.error is None,
                Err(err) => walked.error == Some(err@),
            }
        }),
    decreases limit,
{
    let ghost cx = Scope { id: wf_id@, table: table@, func_id };
    let ghost goal = walk(
        cx,
        walk_state(old(edges)@, old(tasks)@, old(results)@),
        pc,
        breakpoint,
        is_main,
        limit as nat,
    );
    let mut cur = pc;
    let mut fuel = limit;
    loop
        invariant
            fuel <= limit,
            cx == (Scope { id: wf_id@, table: table@, func_id }),
            goal == walk(
                cx,
                walk_state(old(edges)@, old(tasks)@, old(results)@),
                pc,
                breakpoint,
                is_main,
                limit as nat,
            ),
            goal == walk(
                cx,
                walk_state(edges@, tasks@, results@),
                cur,
                breakpoint,
                is_main,
                fuel as nat,
            ),
        decreases fuel,
    {
        let ghost here = walk_state(edges@, tasks@, results@);
        if let Some(stop) = breakpoint {
            if cur == stop {
                return Ok(());
            }
        }
        if cur >= edges.len() {
            return Err(
                AnalyzeError::UnknownEdgeIndex {
                    id: wf_id.to_owned(),
                    func_id,
                    edge_idx: cur,
                    max: edges.len(),
                },
            );
        }
        let node = ProgramCounter::new(func_id, cur);
        if fuel == 0 {
            return Err(AnalyzeError::PathLimitExceeded { id: wf_id.to_owned(), node });
        }
        let rest = fuel - 1;
        assert(here.edges[cur as int] == edges@[cur as int]@);
        match &edges[cur] {
            Edge::Node { task, locs, at: _, input, next } => {
                let task = *task;
                let next = *next;
                if task >= table.tasks.len() {
                    return Err(
                        AnalyzeError::UnknownTaskId { id: wf_id.to_owned(), node, task_id: task },
                    );
                }
                let def: &ComputeTaskDef = match &table.tasks[task] {
                    TaskDef::Compute(def) => def,
                    TaskDef::Transfer => {
                        return Err(
                            AnalyzeError::IllegalTransferTask { id: wf_id.to_owned(), node },
                        );
                    },
                };
                let loc = match locs.single() {
                    Some(loc) => loc,
                    None => {
                        return Err(
                            AnalyzeError::AmbiguousLocation {
                                id: wf_id.to_owned(),
                                node_func_id: table.function_name(func_id),
                                node_edge_idx: cur,
                                task: def.qualified_name(),
                            },
                        );
                    },
                };
                let call = TaskCallInfo {
                    pg: node,
                    name: def.qualified_name(),
                    datasets: copy_names(input),
                };
                let ghost planned = WalkState {
                    edges: here.edges.update(cur as int, assigned(here.edges[cur as int], loc@)),
                    tasks: here.tasks.push(call@),
                    results: here.results,
                };
                match &mut edges[cur] {
                    Edge::Node { at, .. } => {
                        *at = Some(loc);
                    },
                    _ => {},
                }
                tasks.push(call);
                assert(graph_view(edges@) =~= planned.edges);
                assert(tasks_view(tasks@) =~= planned.tasks);
                cur = next;
            },
            Edge::Linear { next } => {
                cur = *next;
            },
            Edge::Join { next } => {
                cur = *next;
            },
            Edge::Call { next } => {
                cur = *next;
            },
            Edge::Stop => {
                return Ok(());
            },
            Edge::Return { result } => {
                if is_main {
                    append_names(results, result);
                }
                return Ok(());
            },
            Edge::Branch { true_next, false_next, merge } => {
                let true_next = *true_next;
                let false_next = *false_next;
                let merge = *merge;
                analyze_wir_and_trivially_plan(
                    wf_id,
                    table,
                    func_id,
                    edges,
                    true_next,
                    merge,
                    is_main,
                    rest,
                    tasks,
                    results,
                )?;
                if let Some(entry) = false_next {
                    analyze_wir_and_trivially_plan(
                        wf_id,
                        table,
                        func_id,
                        edges,
                        entry,
                        merge,
                        is_main,
                        rest,
                        tasks,
                        results,
                    )?;
                }
                match merge {
                    Some(after) => {
                        cur = after;
                    },
                    None => {
                        return Ok(());
                    },
                }
            },
            Edge::Parallel { branches, merge } => {
                let branches = branches.clone();
                let merge = *merge;
                let mut k: usize = 0;
                while k < branches.len()
                    invariant
                        k <= branches.len(),
                        rest < limit,
                        cx == (Scope { id: wf_id@, table: table@, func_id }),
                        goal == walk(
                            cx,
                            walk_state(old(edges)@, old(tasks)@, old(results)@),
                            pc,
                            breakpoint,
                            is_main,
                            limit as nat,
                        ),
                        goal == walk(cx, here, cur, breakpoint, is_main, fuel as nat),
                        fuel == rest + 1,
                        cur < here.edges.len(),
                        breakpoint != Some(cur),
                        here.edges[cur as int] == (EdgeView::Parallel { branches: branches@, merge }),
                        walk_branches(cx, here, branches@, 0, merge, rest as nat)
                            == walk_branches(
                            cx,
                            walk_state(edges@, tasks@, results@),
                            branches@,
                            k as nat,
                            merge,
                            rest as nat,
                        ),
                    decreases branches.len() - k,
                {
                    analyze_wir_and_trivially_plan(
                        wf_id,
                        table,
                        func_id,
                        edges,
                        branches[k],
                        Some(merge),
                        false,
                        rest,
                        tasks,
                        results,
                    )?;
                    k += 1;
                }
                cur = merge;
            },
            Edge::Loop { cond, body, next } => {
                let cond = *cond;
                let body = *body;
                let next = *next;
                let cond_stop = if body > 0 {
                    Some(body - 1)
                } else {
                    None
                };
                analyze_wir_and_trivially_plan(
                    wf_id,
                    table,
                    func_id,
                    edges,
                    cond,
                    cond_stop,
                    is_main,
                    rest,
                    tasks,
                    results,
                )?;
                analyze_wir_and_trivially_plan(
                    wf_id,
                    table,
                    func_id,
                    edges,
                    body,
                    Some(cond),
                    is_main,
                    rest,
                    tasks,
                    results,
                )?;
                match next {
                    Some(after) => {
                        cur = after;
                    },
                    None => {
                        return Ok(());
                    },
                }
            },
        }
        fuel = rest;
    }
}

} // verus!
