//! Graphs that are laid out in regions, as a compiler lays them out, and the
//! length of their control paths.

use vstd::prelude::*;
use crate::effect::{extends, lemma_walk_branches_extends, lemma_walk_extends, planned};
use crate::graph::{qualified_name, single_location, EdgeView, ProgramCounter, TaskDefView};
use crate::laws::{
    forward_only, law_forward_graph_fits_its_length, law_plannable_graph_is_planned,
    trivially_plannable,
};
use crate::walker::{
    assigned, condition_stop, walk, walk_branches, Scope, TaskCallInfoView, WalkState, Walked,
};

verus! {

/// A stretch of edges that is walked under one stopping point: the stopping
/// point, and the position behind the last edge of the stretch.
pub struct Region {
    pub stop: Option<usize>,
    pub end: nat,
}

/// Whether the walk of a region may go from the edge at `from` to the edge at
/// `to`: `to` is the stopping point of the region, or it lies behind `from`
/// in the same region.
pub open spec fn leads_into(
    layout: Seq<Option<Region>>,
    from: int,
    region: Region,
    to: usize,
) -> bool {
    ||| region.stop == Some(to)
    ||| (from < to < region.end && to < layout.len() && layout[to as int] == Some(region))
}

/// Whether the edge at position `idx`, which lies in `region`, keeps to the
/// layout.
///
/// Its successor lies in the same region. The arms of a `Branch` and the
/// branches of a `Parallel` are regions of their own that end at the merge
/// point; the arms of a `Branch` without merge point run to the end of the
/// region around them. The condition of a `Loop` is a region that ends just
/// before the body; the body is a region that stops where the condition
/// starts.
pub open spec fn keeps_to_layout(
    layout: Seq<Option<Region>>,
    edge: EdgeView,
    idx: int,
    region: Region,
) -> bool {
    match edge {
        EdgeView::Node { next, .. } => leads_into(layout, idx, region, next),
        EdgeView::Linear { next } => leads_into(layout, idx, region, next),
        EdgeView::Join { next } => leads_into(layout, idx, region, next),
        EdgeView::Call { next } => leads_into(layout, idx, region, next),
        EdgeView::Stop => true,
        EdgeView::Return { .. } => true,
        EdgeView::Branch { true_next, false_next, merge } => {
            let arm = Region {
                stop: merge,
                end: match merge {
                    Some(after) => after as nat,
                    None => region.end,
                },
            };
            &&& merge matches Some(after) ==> after <= region.end
            &&& leads_into(layout, idx, arm, true_next)
            &&& false_next matches Some(entry) ==> leads_into(layout, idx, arm, entry)
            &&& merge matches Some(after) ==> leads_into(layout, idx, region, after)
        },
        EdgeView::Parallel { branches, merge } => {
            let arm = Region { stop: Some(merge), end: merge as nat };
            &&& merge <= region.end
            &&& forall|k: int|
                0 <= k < branches.len() ==> leads_into(layout, idx, arm, #[trigger] branches[k])
            &&& leads_into(layout, idx, region, merge)
        },
        EdgeView::Loop { cond, body, next } => {
            let condition = Region {
                stop: condition_stop(body),
                end: if 0 < body <= region.end {
                    (body - 1) as nat
                } else {
                    region.end
                },
            };
            &&& leads_into(layout, idx, condition, cond)
            &&& body == cond || {
                &&& idx < body < layout.len()
                &&& layout[body as int] matches Some(inner)
                &&& inner.stop == Some(cond)
                &&& body < inner.end <= region.end
            }
            &&& next matches Some(after) ==> leads_into(layout, idx, region, after)
        },
    }
}

/// Whether a region is one of a graph of `len` edges: it ends within the
/// graph, and its stopping point does not lie behind its end.
pub open spec fn region_fits(region: Region, len: nat) -> bool {
    &&& region.end <= len
    &&& region.stop matches Some(at) ==> at <= region.end
}

/// Whether `layout` lays the graph out in regions: it names, for every edge
/// that a walk may reach, the region the edge lies in, and every such edge
/// keeps to it.
pub open spec fn laid_out(edges: Seq<EdgeView>, layout: Seq<Option<Region>>) -> bool {
    &&& layout.len() == edges.len()
    &&& forall|i: int|
        0 <= i < edges.len() ==> ((#[trigger] layout[i]) matches Some(region) ==> {
            &&& region_fits(region, edges.len())
            &&& i < region.end
            &&& keeps_to_layout(layout, edges[i], i, region)
        })
}

/// Whether a walk from `pc` under the stopping point `stop` starts within the
/// layout with enough fuel: it starts at its stopping point, or at an edge of
/// a region with that stopping point which has no more edges left than the
/// walk may follow.
pub open spec fn starts_within(
    layout: Seq<Option<Region>>,
    pc: usize,
    stop: Option<usize>,
    fuel: nat,
) -> bool {
    ||| stop == Some(pc)
    ||| {
        &&& pc < layout.len()
        &&& layout[pc as int] matches Some(region)
        &&& region.stop == stop
        &&& region.end <= pc + fuel
    }
}

proof fn lemma_layout_is_kept(
    cx: Scope,
    is_main: bool,
    s: WalkState,
    w: Walked,
    layout: Seq<Option<Region>>,
)
    requires
        laid_out(s.edges, layout),
        extends(cx, is_main, s, w),
    ensures
        laid_out(w.state.edges, layout),
{
    assert forall|i: int| 0 <= i < w.state.edges.len() implies ((
    #[trigger] layout[i]) matches Some(region) ==> {
        &&& region_fits(region, w.state.edges.len())
        &&& i < region.end
        &&& keeps_to_layout(layout, w.state.edges[i], i, region)
    }) by {
        assert(w.state.edges[i] == planned(s.edges[i]) || w.state.edges[i] == s.edges[i]);
    }
}

proof fn lemma_laid_out_walk(
    cx: Scope,
    s: WalkState,
    pc: usize,
    stop: Option<usize>,
    is_main: bool,
    fuel: nat,
    layout: Seq<Option<Region>>,
)
    requires
        laid_out(s.edges, layout),
        starts_within(layout, pc, stop, fuel),
    ensures
        !(walk(cx, s, pc, stop, is_main, fuel).error matches Some(err)
            && err is PathLimitExceeded),
        laid_out(walk(cx, s, pc, stop, is_main, fuel).state.edges, layout),
    decreases fuel, 0nat,
{
    let w = walk(cx, s, pc, stop, is_main, fuel);
    lemma_walk_extends(cx, s, pc, stop, is_main, fuel);
    lemma_layout_is_kept(cx, is_main, s, w, layout);
    if stop == Some(pc) {
    } else if pc >= s.edges.len() {
    } else {
        let region = layout[pc as int]->0;
        assert(keeps_to_layout(layout, s.edges[pc as int], pc as int, region));
        assert(fuel > 0);
        let rest = (fuel - 1) as nat;
        match s.edges[pc as int] {
            EdgeView::Node { task, locs, at, input, next } => {
                if task < cx.table.tasks.len() {
                    match cx.table.tasks[task as int] {
                        TaskDefView::Transfer => {},
                        TaskDefView::Compute(def) => match single_location(locs) {
                            None => {},
                            Some(loc) => {
                                let call = TaskCallInfoView {
                                    pg: ProgramCounter { func_id: cx.func_id, edge_idx: pc },
                                    name: qualified_name(def),
                                    datasets: input,
                                };
                                let p = WalkState {
                                    edges: s.edges.update(
                                        pc as int,
                                        assigned(s.edges[pc as int], loc),
                                    ),
                                    tasks: s.tasks.push(call),
                                    results: s.results,
                                };
                                assert(laid_out(p.edges, layout)) by {
                                    assert forall|i: int| 0 <= i < p.edges.len() implies ((
                                    #[trigger] layout[i]) matches Some(r) ==> {
                                        &&& region_fits(r, p.edges.len())
                                        &&& i < r.end
                                        &&& keeps_to_layout(layout, p.edges[i], i, r)
                                    }) by {
                                        if i == pc {
                                            assert(p.edges[i] == assigned(s.edges[i], loc));
                                        } else {
                                            assert(p.edges[i] == s.edges[i]);
                                        }
                                    }
                                }
                                lemma_laid_out_walk(cx, p, next, stop, is_main, rest, layout);
                            },
                        },
                    }
                }
            },
            EdgeView::Linear { next } => {
                lemma_laid_out_walk(cx, s, next, stop, is_main, rest, layout);
            },
            EdgeView::Join { next } => {
                lemma_laid_out_walk(cx, s, next, stop, is_main, rest, layout);
            },
            EdgeView::Call { next } => {
                lemma_laid_out_walk(cx, s, next, stop, is_main, rest, layout);
            },
            EdgeView::Stop => {},
            EdgeView::Return { result } => {},
            EdgeView::Branch { true_next, false_next, merge } => {
                let first = walk(cx, s, true_next, merge, is_main, rest);
                lemma_laid_out_walk(cx, s, true_next, merge, is_main, rest, layout);
                if first.error is None {
                    let second = match false_next {
                        Some(entry) => walk(cx, first.state, entry, merge, is_main, rest),
                        None => first,
                    };
                    if let Some(entry) = false_next {
                        lemma_laid_out_walk(cx, first.state, entry, merge, is_main, rest, layout);
                    }
                    if second.error is None {
                        if let Some(after) = merge {
                            lemma_laid_out_walk(
                                cx,
                                second.state,
                                after,
                                stop,
                                is_main,
                                rest,
                                layout,
                            );
                        }
                    }
                }
            },
            EdgeView::Parallel { branches, merge } => {
                let arms = walk_branches(cx, s, branches, 0, merge, rest);
                lemma_laid_out_branches(cx, s, branches, 0, merge, rest, layout, pc as int);
                if arms.error is None {
                    lemma_laid_out_walk(cx, arms.state, merge, stop, is_main, rest, layout);
                }
            },
            EdgeView::Loop { cond, body, next } => {
                let first = walk(cx, s, cond, condition_stop(body), is_main, rest);
                lemma_laid_out_walk(cx, s, cond, condition_stop(body), is_main, rest, layout);
                if first.error is None {
                    let second = walk(cx, first.state, body, Some(cond), is_main, rest);
                    lemma_laid_out_walk(
                        cx,
                        first.state,
                        body,
                        Some(cond),
                        is_main,
                        rest,
                        layout,
                    );
                    if second.error is None {
                        if let Some(after) = next {
                            lemma_laid_out_walk(
                                cx,
                                second.state,
                                after,
                                stop,
                                is_main,
                                rest,
                                layout,
                            );
                        }
                    }
                }
            },
        }
    }
}

proof fn lemma_laid_out_branches(
    cx: Scope,
    s: WalkState,
    branches: Seq<usize>,
    from: nat,
    merge: usize,
    fuel: nat,
    layout: Seq<Option<Region>>,
    origin: int,
)
    requires
        laid_out(s.edges, layout),
        merge <= origin + 1 + fuel,
        forall|k: int|
            0 <= k < branches.len() ==> leads_into(
                layout,
                origin,
                Region { stop: Some(merge), end: merge as nat },
                #[trigger] branches[k],
            ),
    ensures
        !(walk_branches(cx, s, branches, from, merge, fuel).error matches Some(err)
            && err is PathLimitExceeded),
        laid_out(walk_branches(cx, s, branches, from, merge, fuel).state.edges, layout),
    decreases fuel, 1 + branches.len() - from,
{
    if from < branches.len() {
        let first = walk(cx, s, branches[from as int], Some(merge), false, fuel);
        lemma_laid_out_walk(cx, s, branches[from as int], Some(merge), false, fuel, layout);
        if first.error is None {
            lemma_laid_out_branches(
                cx,
                first.state,
                branches,
                from + 1,
                merge,
                fuel,
                layout,
                origin,
            );
        }
    } else {
        lemma_walk_branches_extends(cx, s, branches, from, merge, fuel);
    }
}

/// Over a graph that is laid out in regions, a walk that starts within the
/// layout does not fail for the length of a path. In particular a walk from
/// the first edge of a region without stopping point that may follow as many
/// edges as the graph has does not.
pub proof fn law_laid_out_graph_fits_its_length(
    cx: Scope,
    s: WalkState,
    pc: usize,
    stop: Option<usize>,
    is_main: bool,
    fuel: nat,
    layout: Seq<Option<Region>>,
)
    requires
        laid_out(s.edges, layout),
        starts_within(layout, pc, stop, fuel),
    ensures
        !(walk(cx, s, pc, stop, is_main, fuel).error matches Some(err)
            && err is PathLimitExceeded),
{
    lemma_laid_out_walk(cx, s, pc, stop, is_main, fuel, layout);
}

/// Whether the control paths of a graph are no longer than the graph: every
/// successor stands behind the edge that names it, or the graph is laid out
/// in regions and its first edge lies in a region without stopping point.
pub open spec fn well_laid(edges: Seq<EdgeView>) -> bool {
    ||| forward_only(edges)
    ||| exists|layout: Seq<Option<Region>>|
        #[trigger] laid_out(edges, layout) && starts_within(layout, 0, None, edges.len())
}

/// The walk of a well laid graph from its first edge, without stopping
/// point, that may follow as many edges as the graph has does not fail for
/// the length of a path.
pub proof fn law_well_laid_graph_fits_its_length(
    cx: Scope,
    s: WalkState,
    is_main: bool,
    fuel: nat,
)
    requires
        well_laid(s.edges),
        fuel >= s.edges.len(),
    ensures
        !(walk(cx, s, 0, None, is_main, fuel).error matches Some(err)
            && err is PathLimitExceeded),
{
    if forward_only(s.edges) {
        law_forward_graph_fits_its_length(cx, s, 0, None, is_main, fuel);
    } else {
        let layout = choose|layout: Seq<Option<Region>>|
            #[trigger] laid_out(s.edges, layout) && starts_within(layout, 0, None, s.edges.len());
        lemma_laid_out_walk(cx, s, 0, None, is_main, fuel, layout);
    }
}

/// Success is owed to a well laid graph with at least one edge in which every
/// task invocation names a compute task of the symbol table and has exactly
/// one candidate location, and every successor lies within the graph: its
/// walk from the first edge, without stopping point, that may follow as many
/// edges as the graph has succeeds.
pub proof fn law_well_laid_plannable_graph_succeeds(
    cx: Scope,
    s: WalkState,
    is_main: bool,
    fuel: nat,
)
    requires
        s.edges.len() > 0,
        trivially_plannable(cx, s.edges),
        well_laid(s.edges),
        fuel >= s.edges.len(),
    ensures
        walk(cx, s, 0, None, is_main, fuel).error is None,
{
    law_well_laid_graph_fits_its_length(cx, s, is_main, fuel);
    law_plannable_graph_is_planned(cx, s, 0, None, is_main, fuel);
}

} // verus!
