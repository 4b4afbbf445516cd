//! The workflow graph: program counters, edges and the symbol table.
//!
//! Every type has a view that holds its contents as mathematical values
//! (strings as `Seq<char>`, lists as `Seq`). The analysis is specified over
//! those views.

use vstd::prelude::*;

verus! {

/// The mathematical value of a list of strings.
pub open spec fn names_view(names: Seq<String>) -> Seq<Seq<char>> {
    Seq::new(names.len(), |i: int| names[i]@)
}

/// Identifies the function that owns a sequence of edges.
#[derive(Clone, Copy, Debug, PartialEq, Eq, Structural)]
pub enum FunctionId {
    /// The top-level script.
    Main,
    /// A nested function, by its numeric id.
    Func(usize),
}

impl FunctionId {
    /// Whether this is the top-level script.
    pub fn is_main(&self) -> (res: bool)
        ensures
            res == (*self is Main),
    {
        match self {
            FunctionId::Main => true,
            FunctionId::Func(_) => false,
        }
    }
}

/// Identifies one edge: the owning function and the index within its edges.
#[derive(Clone, Copy, Debug, PartialEq, Eq, Structural)]
pub struct ProgramCounter {
    pub func_id: FunctionId,
    pub edge_idx: usize,
}

impl ProgramCounter {
    /// The program counter of the edge at `edge_idx` in the function `func_id`.
    pub fn new(func_id: FunctionId, edge_idx: usize) -> (res: Self)
        ensures
            res == (ProgramCounter { func_id, edge_idx }),
    {
        ProgramCounter { func_id, edge_idx }
    }
}

/// The candidate execution locations of a task invocation.
#[derive(Clone, Debug, PartialEq, Eq)]
pub enum Locations {
    /// Any location may run the task.
    All,
    /// Only the named locations may run the task.
    Restricted(Vec<String>),
}

/// The mathematical value of [`Locations`].
pub enum LocationsView {
    All,
    Restricted(Seq<Seq<char>>),
}

impl View for Locations {
    type V = LocationsView;

    open spec fn view(&self) -> LocationsView {
        match *self {
            Locations::All => LocationsView::All,
            Locations::Restricted(names) => LocationsView::Restricted(names_view(names@)),
        }
    }
}

/// The one location of a candidate set that is restricted to exactly one
/// name; `None` for every other set.
pub open spec fn single_location(locs: LocationsView) -> Option<Seq<char>> {
    match locs {
        LocationsView::Restricted(names) if names.len() == 1 => Some(names[0]),
        _ => None,
    }
}

impl Locations {
    /// The single location of a trivially resolvable candidate set.
    pub fn single(&self) -> (res: Option<String>)
        ensures
            res is Some == single_location(self@) is Some,
            res is Some ==> res->0@ == single_location(self@)->0,
    {
        match self {
            Locations::Restricted(names) => {
                if names.len() == 1 {
                    Some(names[0].clone())
                } else {
                    None
                }
            },
            Locations::All => None,
        }
    }
}

/// One step of control flow.
#[derive(Clone, Debug, PartialEq, Eq)]
pub enum Edge {
    /// A task invocation: the task's id in the symbol table, the candidate
    /// locations, the assigned location, the names of the input datasets and
    /// the next edge.
    Node { task: usize, locs: Locations, at: Option<String>, input: Vec<String>, next: usize },
    /// Instructions without a task invocation.
    Linear { next: usize },
    /// The end of a path.
    Stop,
    /// A conditional. `merge` is absent when both arms end by themselves.
    Branch { true_next: usize, false_next: Option<usize>, merge: Option<usize> },
    /// Branches that run side by side and meet at `merge`.
    Parallel { branches: Vec<usize>, merge: usize },
    /// The point where parallel branches have met.
    Join { next: usize },
    /// A loop: the entry of its condition, the entry of its body and what
    /// follows the loop, if anything does.
    Loop { cond: usize, body: usize, next: Option<usize> },
    /// A call of a nested function.
    Call { next: usize },
    /// A return with the names of the datasets it hands back.
    Return { result: Vec<String> },
}

/// The mathematical value of an [`Edge`].
pub enum EdgeView {
    Node {
        task: usize,
        locs: LocationsView,
        at: Option<Seq<char>>,
        input: Seq<Seq<char>>,
        next: usize,
    },
    Linear { next: usize },
    Stop,
    Branch { true_next: usize, false_next: Option<usize>, merge: Option<usize> },
    Parallel { branches: Seq<usize>, merge: usize },
    Join { next: usize },
    Loop { cond: usize, body: usize, next: Option<usize> },
    Call { next: usize },
    Return { result: Seq<Seq<char>> },
}

impl View for Edge {
    type V = EdgeView;

    open spec fn view(&self) -> EdgeView {
        match *self {
            Edge::Node { task, locs, at, input, next } => EdgeView::Node {
                task,
                locs: locs@,
                at: match at {
                    Some(name) => Some(name@),
                    None => None,
                },
                input: names_view(input@),
                next,
            },
            Edge::Linear { next } => EdgeView::Linear { next },
            Edge::Stop => EdgeView::Stop,
            Edge::Branch { true_next, false_next, merge } => EdgeView::Branch {
                true_next,
                false_next,
                merge,
            },
            Edge::Parallel { branches, merge } => EdgeView::Parallel { branches: branches@, merge },
            Edge::Join { next } => EdgeView::Join { next },
            Edge::Loop { cond, body, next } => EdgeView::Loop { cond, body, next },
            Edge::Call { next } => EdgeView::Call { next },
            Edge::Return { result } => EdgeView::Return { result: names_view(result@) },
        }
    }
}

/// The mathematical value of a sequence of edges.
pub open spec fn graph_view(edges: Seq<Edge>) -> Seq<EdgeView> {
    Seq::new(edges.len(), |i: int| edges[i]@)
}

/// A task that runs a function of a package.
#[derive(Clone, Debug, PartialEq, Eq)]
pub struct ComputeTaskDef {
    pub package: String,
    pub version: String,
    pub function: String,
}

/// The mathematical value of a [`ComputeTaskDef`].
pub struct ComputeTaskDefView {
    pub package: Seq<char>,
    pub version: Seq<char>,
    pub function: Seq<char>,
}

impl View for ComputeTaskDef {
    type V = ComputeTaskDefView;

    open spec fn view(&self) -> ComputeTaskDefView {
        ComputeTaskDefView {
            package: self.package@,
            version: self.version@,
            function: self.function@,
        }
    }
}

/// The name under which a task is called: `package<version>::function`.
pub open spec fn qualified_name(def: ComputeTaskDefView) -> Seq<char> {
    def.package + seq!['<'] + def.version + seq!['>', ':', ':'] + def.function
}

impl ComputeTaskDef {
    /// Renders the qualified name of the task.
    pub fn qualified_name(&self) -> (res: String)
        ensures
            res@ == qualified_name(self@),
    {
        let mut res = self.package.clone();
        proof {
            reveal_strlit("<");
            reveal_strlit(">::");
        }
        res.append("<");
        res.append(self.version.as_str());
        res.append(">::");
        res.append(self.function.as_str());
        assert(res@ =~= qualified_name(self@));
        res
    }
}

/// The definition of a task.
#[derive(Clone, Debug, PartialEq, Eq)]
pub enum TaskDef {
    /// A task that runs a function of a package.
    Compute(ComputeTaskDef),
    /// A data transfer; no longer accepted in a workflow.
    Transfer,
}

/// The mathematical value of a [`TaskDef`].
pub enum TaskDefView {
    Compute(ComputeTaskDefView),
    Transfer,
}

impl View for TaskDef {
    type V = TaskDefView;

    open spec fn view(&self) -> TaskDefView {
        match *self {
            TaskDef::Compute(def) => TaskDefView::Compute(def@),
            TaskDef::Transfer => TaskDefView::Transfer,
        }
    }
}

/// The declaration of a nested function.
#[derive(Clone, Debug, PartialEq, Eq)]
pub struct FunctionDef {
    pub name: String,
}

/// The definitions that the edges of a workflow refer to: tasks by task id,
/// nested functions by function id.
#[derive(Clone, Debug, PartialEq, Eq)]
pub struct SymTable {
    pub tasks: Vec<TaskDef>,
    pub funcs: Vec<FunctionDef>,
}

/// The mathematical value of a [`SymTable`]: the tasks by task id, and the names of
/// the nested functions by function id.
pub struct SymTableView {
    pub tasks: Seq<TaskDefView>,
    pub funcs: Seq<Seq<char>>,
}

impl View for SymTable {
    type V = SymTableView;

    open spec fn view(&self) -> SymTableView {
        SymTableView {
            tasks: Seq::new(self.tasks@.len(), |i: int| self.tasks@[i]@),
            funcs: Seq::new(self.funcs@.len(), |i: int| self.funcs@[i].name@),
        }
    }
}

} // verus!
