//! What holds of the analysis of every workflow, proved from its definition
//! and from what holds of every walk.

use vstd::prelude::*;
use crate::bstowir::{
    analyze, analyze_bodies, longest_function, longest_upto, walk_body, FunctionBodyView,
    WorkflowView,
};
use crate::effect::{justified, lemma_walk_extends};
use crate::graph::{EdgeView, FunctionId, SymTableView};
use crate::laws::{law_analysis_is_idempotent, trivially_plannable};
use crate::layout_laws::{law_well_laid_plannable_graph_succeeds, well_laid};
use crate::walker::{walk, Scope, TaskCallInfoView, WalkState};

verus! {

/// The scope of the walk of the top-level script of a workflow.
pub open spec fn main_scope(wf: WorkflowView) -> Scope {
    Scope { id: wf.id, table: wf.table, func_id: FunctionId::Main }
}

/// The scope of the walk of a function body of a workflow.
pub open spec fn body_scope(wf: WorkflowView, body: FunctionBodyView) -> Scope {
    Scope { id: wf.id, table: wf.table, func_id: FunctionId::Func(body.id) }
}

/// The walk of the top-level script of a workflow.
pub open spec fn walk_main(wf: WorkflowView, limit: nat) -> crate::walker::Walked {
    walk(
        main_scope(wf),
        WalkState { edges: wf.graph, tasks: Seq::empty(), results: Seq::empty() },
        0,
        None,
        true,
        limit,
    )
}

/// The analysis of the function bodies from position `from` on keeps the
/// bodies before that position, the ids of all of them and the results; a
/// failure has its cause in one of the bodies from that position on.
proof fn lemma_bodies_kept(
    id: Seq<char>,
    table: SymTableView,
    funcs: Seq<FunctionBodyView>,
    from: nat,
    tasks: Seq<TaskCallInfoView>,
    results: Seq<Seq<char>>,
    limit: nat,
)
    ensures
        match analyze_bodies(id, table, funcs, from, tasks, results, limit) {
            Ok((after, _, collected)) => {
                &&& after.len() == funcs.len()
                &&& forall|k: int| 0 <= k < from && k < funcs.len() ==> after[k] == funcs[k]
                &&& forall|k: int| 0 <= k < funcs.len() ==> (#[trigger] after[k]).id == funcs[k].id
                &&& collected == results
            },
            Err(err) => exists|k: int|
                from <= k < funcs.len() && justified(
                    Scope { id, table, func_id: FunctionId::Func((#[trigger] funcs[k]).id) },
                    funcs[k].edges,
                    err,
                ),
        },
    decreases funcs.len() - from,
{
    if from < funcs.len() {
        let body = funcs[from as int];
        let cx = Scope { id, table, func_id: FunctionId::Func(body.id) };
        let walked = walk_body(id, table, body, tasks, results, limit);
        lemma_walk_extends(
            cx,
            WalkState { edges: body.edges, tasks, results },
            0,
            None,
            false,
            limit,
        );
        if walked.error is None {
            let next = funcs.update(
                from as int,
                FunctionBodyView { id: body.id, edges: walked.state.edges },
            );
            lemma_bodies_kept(
                id,
                table,
                next,
                from + 1,
                walked.state.tasks,
                walked.state.results,
                limit,
            );
            match analyze_bodies(id, table, funcs, from, tasks, results, limit) {
                Ok(_) => {},
                Err(err) => {
                    let k = choose|k: int|
                        from + 1 <= k < next.len() && justified(
                            Scope { id, table, func_id: FunctionId::Func((#[trigger] next[k]).id) },
                            next[k].edges,
                            err,
                        );
                    assert(next[k] == funcs[k]);
                },
            }
        } else {
            assert(justified(cx, funcs[from as int].edges, walked.error->0));
        }
    }
}

/// The results of a workflow are the datasets that its top-level script
/// returns: the function bodies add none.
pub proof fn law_results_come_from_top_level(wf: WorkflowView, limit: nat)
    ensures
        analyze(wf, limit) matches Ok(done) ==> done.results == walk_main(wf, limit).state.results,
{
    let main = walk_main(wf, limit);
    if main.error is None {
        lemma_bodies_kept(wf.id, wf.table, wf.funcs, 0, main.state.tasks, main.state.results, limit);
    }
}

/// A failure of the analysis of a workflow has its cause in the top-level
/// script or in one of the function bodies, as the workflow was given: it
/// names the function and the edge at fault.
pub proof fn law_workflow_failure_has_its_cause(wf: WorkflowView, limit: nat)
    ensures
        analyze(wf, limit) matches Err(err) ==> {
            ||| justified(main_scope(wf), wf.graph, err)
            ||| exists|k: int|
                0 <= k < wf.funcs.len() && justified(
                    body_scope(wf, #[trigger] wf.funcs[k]),
                    wf.funcs[k].edges,
                    err,
                )
        },
{
    let main = walk_main(wf, limit);
    lemma_walk_extends(
        main_scope(wf),
        WalkState { edges: wf.graph, tasks: Seq::empty(), results: Seq::empty() },
        0,
        None,
        true,
        limit,
    );
    if main.error is None {
        lemma_bodies_kept(wf.id, wf.table, wf.funcs, 0, main.state.tasks, main.state.results, limit);
        match analyze(wf, limit) {
            Ok(_) => {},
            Err(err) => {
                let k = choose|k: int|
                    0 <= k < wf.funcs.len() && justified(
                        Scope {
                            id: wf.id,
                            table: wf.table,
                            func_id: FunctionId::Func((#[trigger] wf.funcs[k]).id),
                        },
                        wf.funcs[k].edges,
                        err,
                    );
                assert(justified(body_scope(wf, wf.funcs[k]), wf.funcs[k].edges, err));
            },
        }
    }
}

proof fn lemma_bodies_idempotent(
    id: Seq<char>,
    table: SymTableView,
    funcs: Seq<FunctionBodyView>,
    from: nat,
    tasks: Seq<TaskCallInfoView>,
    results: Seq<Seq<char>>,
    limit: nat,
)
    requires
        analyze_bodies(id, table, funcs, from, tasks, results, limit) is Ok,
    ensures
        analyze_bodies(
            id,
            table,
            analyze_bodies(id, table, funcs, from, tasks, results, limit)->Ok_0.0,
            from,
            tasks,
            results,
            limit,
        ) == analyze_bodies(id, table, funcs, from, tasks, results, limit),
    decreases funcs.len() - from,
{
    let done = analyze_bodies(id, table, funcs, from, tasks, results, limit);
    let after = done->Ok_0.0;
    lemma_bodies_kept(id, table, funcs, from, tasks, results, limit);
    if from < funcs.len() {
        let body = funcs[from as int];
        let cx = Scope { id, table, func_id: FunctionId::Func(body.id) };
        let start = WalkState { edges: body.edges, tasks, results };
        let walked = walk_body(id, table, body, tasks, results, limit);
        let next = funcs.update(
            from as int,
            FunctionBodyView { id: body.id, edges: walked.state.edges },
        );
        lemma_bodies_kept(
            id,
            table,
            next,
            from + 1,
            walked.state.tasks,
            walked.state.results,
            limit,
        );
        lemma_bodies_idempotent(
            id,
            table,
            next,
            from + 1,
            walked.state.tasks,
            walked.state.results,
            limit,
        );
        assert(after[from as int] == next[from as int]);
        law_analysis_is_idempotent(cx, start, 0, None, false, limit);
        let again = walk_body(id, table, after[from as int], tasks, results, limit);
        assert(again == walked);
        assert(after.update(
            from as int,
            FunctionBodyView { id: after[from as int].id, edges: again.state.edges },
        ) =~= after);
    } else {
    }
}

/// The analysis of a workflow that an analysis has left succeeds again and
/// leaves the same: the same task calls, the same results, and every
/// assigned location as it is.
pub proof fn law_workflow_analysis_is_idempotent(wf: WorkflowView, limit: nat)
    requires
        analyze(wf, limit) is Ok,
    ensures
        analyze(analyze(wf, limit)->Ok_0.workflow, limit) == analyze(wf, limit),
{
    let done = analyze(wf, limit)->Ok_0;
    let main = walk_main(wf, limit);
    law_analysis_is_idempotent(
        main_scope(wf),
        WalkState { edges: wf.graph, tasks: Seq::empty(), results: Seq::empty() },
        0,
        None,
        true,
        limit,
    );
    lemma_bodies_idempotent(
        wf.id,
        wf.table,
        wf.funcs,
        0,
        main.state.tasks,
        main.state.results,
        limit,
    );
}

/// Whether a graph is one to which success is owed within its scope: it has
/// an edge to start from, every task invocation names a compute task of the
/// symbol table and has exactly one candidate location, every successor lies
/// within the graph, and the graph is well laid.
pub open spec fn straightforward(cx: Scope, edges: Seq<EdgeView>) -> bool {
    &&& edges.len() > 0
    &&& trivially_plannable(cx, edges)
    &&& well_laid(edges)
}

proof fn lemma_straightforward_bodies(
    wf: WorkflowView,
    funcs: Seq<FunctionBodyView>,
    from: nat,
    tasks: Seq<TaskCallInfoView>,
    results: Seq<Seq<char>>,
    limit: nat,
)
    requires
        forall|k: int|
            from <= k < funcs.len() ==> straightforward(
                body_scope(wf, #[trigger] funcs[k]),
                funcs[k].edges,
            ) && funcs[k].edges.len() <= limit,
    ensures
        analyze_bodies(wf.id, wf.table, funcs, from, tasks, results, limit) is Ok,
    decreases funcs.len() - from,
{
    if from < funcs.len() {
        let body = funcs[from as int];
        let start = WalkState { edges: body.edges, tasks, results };
        assert(straightforward(body_scope(wf, body), body.edges));
        law_well_laid_plannable_graph_succeeds(body_scope(wf, body), start, false, limit);
        let walked = walk_body(wf.id, wf.table, body, tasks, results, limit);
        let next = funcs.update(
            from as int,
            FunctionBodyView { id: body.id, edges: walked.state.edges },
        );
        assert forall|k: int| from + 1 <= k < next.len() implies straightforward(
            body_scope(wf, #[trigger] next[k]),
            next[k].edges,
        ) && next[k].edges.len() <= limit by {
            assert(next[k] == funcs[k]);
        }
        lemma_straightforward_bodies(
            wf,
            next,
            from + 1,
            walked.state.tasks,
            walked.state.results,
            limit,
        );
    }
}

/// Success is owed to a workflow whose top-level script and function bodies
/// are all straightforward, under a limit that is no less than the number of
/// edges of each of them.
pub proof fn law_straightforward_workflow_is_analyzed(wf: WorkflowView, limit: nat)
    requires
        straightforward(main_scope(wf), wf.graph),
        wf.graph.len() <= limit,
        forall|k: int|
            0 <= k < wf.funcs.len() ==> straightforward(
                body_scope(wf, #[trigger] wf.funcs[k]),
                wf.funcs[k].edges,
            ) && wf.funcs[k].edges.len() <= limit,
    ensures
        analyze(wf, limit) is Ok,
{
    law_well_laid_plannable_graph_succeeds(
        main_scope(wf),
        WalkState { edges: wf.graph, tasks: Seq::empty(), results: Seq::empty() },
        true,
        limit,
    );
    let main = walk_main(wf, limit);
    lemma_straightforward_bodies(wf, wf.funcs, 0, main.state.tasks, main.state.results, limit);
}

/// Whether the edge at position `idx` is a task invocation that has its one
/// candidate location assigned.
pub open spec fn planned_at(edges: Seq<EdgeView>, idx: usize) -> bool {
    &&& idx < edges.len()
    &&& edges[idx as int] matches EdgeView::Node { locs, at, .. }
    &&& at is Some
    &&& at == crate::graph::single_location(locs)
}

proof fn lemma_bodies_calls_are_planned(
    id: Seq<char>,
    table: SymTableView,
    funcs: Seq<FunctionBodyView>,
    from: nat,
    tasks: Seq<TaskCallInfoView>,
    results: Seq<Seq<char>>,
    limit: nat,
)
    ensures
        analyze_bodies(id, table, funcs, from, tasks, results, limit) matches Ok(
            (after, calls, _),
        ) ==> {
            &&& tasks.len() <= calls.len()
            &&& forall|k: int| 0 <= k < tasks.len() ==> #[trigger] calls[k] == tasks[k]
            &&& forall|k: int|
                tasks.len() <= k < calls.len() ==> exists|j: int|
                    from <= j < after.len() && (#[trigger] calls[k]).pg.func_id == FunctionId::Func(
                        (#[trigger] after[j]).id,
                    ) && planned_at(after[j].edges, calls[k].pg.edge_idx)
        },
    decreases funcs.len() - from,
{
    if from < funcs.len() {
        let body = funcs[from as int];
        let cx = Scope { id, table, func_id: FunctionId::Func(body.id) };
        let start = WalkState { edges: body.edges, tasks, results };
        let walked = walk_body(id, table, body, tasks, results, limit);
        if walked.error is None {
            let next = funcs.update(
                from as int,
                FunctionBodyView { id: body.id, edges: walked.state.edges },
            );
            lemma_walk_extends(cx, start, 0, None, false, limit);
            crate::laws::law_recorded_calls_are_planned(cx, start, 0, None, false, limit);
            lemma_bodies_calls_are_planned(
                id,
                table,
                next,
                from + 1,
                walked.state.tasks,
                walked.state.results,
                limit,
            );
            lemma_bodies_kept(
                id,
                table,
                next,
                from + 1,
                walked.state.tasks,
                walked.state.results,
                limit,
            );
            match analyze_bodies(id, table, funcs, from, tasks, results, limit) {
                Ok((after, calls, _)) => {
                    assert(after[from as int] == next[from as int]);
                    assert forall|k: int| tasks.len() <= k < calls.len() implies exists|j: int|
                        from <= j < after.len() && (#[trigger] calls[k]).pg.func_id
                            == FunctionId::Func((#[trigger] after[j]).id) && planned_at(
                            after[j].edges,
                            calls[k].pg.edge_idx,
                        ) by {
                        if k < walked.state.tasks.len() {
                            assert(calls[k] == walked.state.tasks[k]);
                            assert(crate::effect::records(cx, start.edges, walked.state.tasks[k]));
                            assert(planned_at(after[from as int].edges, calls[k].pg.edge_idx));
                        } else {
                            let j = choose|j: int|
                                from + 1 <= j < after.len() && calls[k].pg.func_id
                                    == FunctionId::Func((#[trigger] after[j]).id) && planned_at(
                                    after[j].edges,
                                    calls[k].pg.edge_idx,
                                );
                            assert(from <= j);
                        }
                    }
                },
                Err(_) => {},
            }
        }
    }
}

/// After a successful analysis every recorded task call stands at a task
/// invocation that has its one candidate location assigned: in the top-level
/// script where the call names it, else in a function body with the id that
/// the call names.
pub proof fn law_workflow_calls_are_planned(wf: WorkflowView, limit: nat)
    ensures
        analyze(wf, limit) matches Ok(done) ==> forall|k: int|
            0 <= k < done.tasks.len() ==> match (#[trigger] done.tasks[k]).pg.func_id {
                FunctionId::Main => planned_at(done.workflow.graph, done.tasks[k].pg.edge_idx),
                FunctionId::Func(id) => exists|j: int|
                    0 <= j < done.workflow.funcs.len() && (#[trigger] done.workflow.funcs[j]).id
                        == id && planned_at(done.workflow.funcs[j].edges, done.tasks[k].pg.edge_idx),
            },
{
    let main = walk_main(wf, limit);
    let start = WalkState { edges: wf.graph, tasks: Seq::empty(), results: Seq::empty() };
    if main.error is None {
        lemma_walk_extends(main_scope(wf), start, 0, None, true, limit);
        crate::laws::law_recorded_calls_are_planned(main_scope(wf), start, 0, None, true, limit);
        lemma_bodies_calls_are_planned(
            wf.id,
            wf.table,
            wf.funcs,
            0,
            main.state.tasks,
            main.state.results,
            limit,
        );
        match analyze(wf, limit) {
            Ok(done) => {
                assert forall|k: int| 0 <= k < done.tasks.len() implies match (
                #[trigger] done.tasks[k]).pg.func_id {
                    FunctionId::Main => planned_at(done.workflow.graph, done.tasks[k].pg.edge_idx),
                    FunctionId::Func(id) => exists|j: int|
                        0 <= j < done.workflow.funcs.len() && (
                        #[trigger] done.workflow.funcs[j]).id == id && planned_at(
                            done.workflow.funcs[j].edges,
                            done.tasks[k].pg.edge_idx,
                        ),
                } by {
                    if k < main.state.tasks.len() {
                        assert(done.tasks[k] == main.state.tasks[k]);
                        assert(crate::effect::records(
                            main_scope(wf),
                            start.edges,
                            main.state.tasks[k],
                        ));
                    } else {
                        let j = choose|j: int|
                            0 <= j < done.workflow.funcs.len() && done.tasks[k].pg.func_id
                                == FunctionId::Func((#[trigger] done.workflow.funcs[j]).id)
                                && planned_at(
                                done.workflow.funcs[j].edges,
                                done.tasks[k].pg.edge_idx,
                            );
                        assert(done.workflow.funcs[j].id == done.tasks[k].pg.func_id->Func_0);
                    }
                }
            },
            Err(_) => {},
        }
    }
}

/// No function of a workflow has more edges than its longest.
pub proof fn law_longest_function_bounds_all(wf: WorkflowView)
    ensures
        wf.graph.len() <= longest_function(wf),
        forall|k: int|
            0 <= k < wf.funcs.len() ==> (#[trigger] wf.funcs[k]).edges.len() <= longest_function(
                wf,
            ),
{
    lemma_longest_upto(wf.funcs, wf.funcs.len(), wf.graph.len());
}

proof fn lemma_longest_upto(funcs: Seq<FunctionBodyView>, upto: nat, least: nat)
    requires
        upto <= funcs.len(),
    ensures
        least <= longest_upto(funcs, upto, least),
        forall|k: int|
            0 <= k < upto ==> (#[trigger] funcs[k]).edges.len() <= longest_upto(funcs, upto, least),
    decreases upto,
{
    if upto > 0 {
        lemma_longest_upto(funcs, (upto - 1) as nat, least);
    }
}

/// Success is owed to a workflow whose top-level script and function bodies
/// are all straightforward, under the number of edges of its longest function
/// as limit.
pub proof fn law_straightforward_workflow_fits_its_longest_function(wf: WorkflowView)
    requires
        straightforward(main_scope(wf), wf.graph),
        forall|k: int|
            0 <= k < wf.funcs.len() ==> straightforward(
                body_scope(wf, #[trigger] wf.funcs[k]),
                wf.funcs[k].edges,
            ),
    ensures
        analyze(wf, longest_function(wf)) is Ok,
{
    law_longest_function_bounds_all(wf);
    law_straightforward_workflow_is_analyzed(wf, longest_function(wf));
}

} // verus!
