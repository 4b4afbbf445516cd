//! The failures of a workflow analysis and the text that reports them.

use vstd::prelude::*;
use crate::graph::{FunctionId, ProgramCounter, SymTable, SymTableView};
use crate::text::{decimal, usize_to_string};

verus! {

/// Why the analysis of a workflow was abandoned.
#[derive(Clone, Debug, PartialEq, Eq)]
pub enum AnalyzeError {
    /// A task invocation whose candidate locations are not exactly one:
    /// the workflow, the name of the owning function, the index of the edge
    /// and the qualified name of the task.
    AmbiguousLocation { id: String, node_func_id: String, node_edge_idx: usize, task: String },
    /// A task invocation that refers to a transfer task.
    IllegalTransferTask { id: String, node: ProgramCounter },
    /// An edge index that lies outside the edges of its function, which has
    /// `max` of them.
    UnknownEdgeIndex { id: String, func_id: FunctionId, edge_idx: usize, max: usize },
    /// A task invocation that refers to a task id without a definition.
    UnknownTaskId { id: String, node: ProgramCounter, task_id: usize },
    /// A control path that holds more edges than the limit given to the
    /// analysis; `node` is the first edge beyond it.
    PathLimitExceeded { id: String, node: ProgramCounter },
}

/// The mathematical value of an [`AnalyzeError`].
pub enum AnalyzeErrorView {
    AmbiguousLocation {
        id: Seq<char>,
        node_func_id: Seq<char>,
        node_edge_idx: usize,
        task: Seq<char>,
    },
    IllegalTransferTask { id: Seq<char>, node: ProgramCounter },
    UnknownEdgeIndex { id: Seq<char>, func_id: FunctionId, edge_idx: usize, max: nat },
    UnknownTaskId { id: Seq<char>, node: ProgramCounter, task_id: usize },
    PathLimitExceeded { id: Seq<char>, node: ProgramCounter },
}

impl View for AnalyzeError {
    type V = AnalyzeErrorView;

    open spec fn view(&self) -> AnalyzeErrorView {
        match *self {
            AnalyzeError::AmbiguousLocation { id, node_func_id, node_edge_idx, task } => {
                AnalyzeErrorView::AmbiguousLocation {
                    id: id@,
                    node_func_id: node_func_id@,
                    node_edge_idx,
                    task: task@,
                }
            },
            AnalyzeError::IllegalTransferTask { id, node } => {
                AnalyzeErrorView::IllegalTransferTask { id: id@, node }
            },
            AnalyzeError::UnknownEdgeIndex { id, func_id, edge_idx, max } => {
                AnalyzeErrorView::UnknownEdgeIndex { id: id@, func_id, edge_idx, max: max as nat }
            },
            AnalyzeError::UnknownTaskId { id, node, task_id } => {
                AnalyzeErrorView::UnknownTaskId { id: id@, node, task_id }
            },
            AnalyzeError::PathLimitExceeded { id, node } => {
                AnalyzeErrorView::PathLimitExceeded { id: id@, node }
            },
        }
    }
}

/// How a function is shown in a program counter: `<main>` for the top-level
/// script, the id in decimal for a nested function.
pub open spec fn function_id_text(func_id: FunctionId) -> Seq<char> {
    match func_id {
        FunctionId::Main => "<main>"@,
        FunctionId::Func(id) => decimal(id as nat),
    }
}

/// How a program counter is shown: the function, a colon, the edge index.
pub open spec fn program_counter_text(pc: ProgramCounter) -> Seq<char> {
    function_id_text(pc.func_id) + seq![':'] + decimal(pc.edge_idx as nat)
}

/// The name by which a function is reported: `<main>` for the top-level
/// script, the declared name of a nested function, or its id in decimal where
/// the symbol table declares none.
pub open spec fn function_name(table: SymTableView, func_id: FunctionId) -> Seq<char> {
    match func_id {
        FunctionId::Main => "<main>"@,
        FunctionId::Func(id) => if id < table.funcs.len() {
            table.funcs[id as int]
        } else {
            decimal(id as nat)
        },
    }
}

/// The text that reports a failure.
pub open spec fn analyze_error_text(err: AnalyzeErrorView) -> Seq<char> {
    match err {
        AnalyzeErrorView::AmbiguousLocation { id, node_func_id, node_edge_idx, task } => {
            "Encountered call to task '"@ + task + "' at location "@ + node_func_id + seq![':']
                + decimal(node_edge_idx as nat) + " in workflow '"@ + id
                + "' that has ambigious location (please scope it to a single location by adding '#[on(\"<LOCATION>\")]' above the call"@
        },
        AnalyzeErrorView::IllegalTransferTask { id, node } => {
            "Task call at '"@ + program_counter_text(node) + "' in workflow '"@ + id
                + "' is a deprecated Transfer-task"@
        },
        AnalyzeErrorView::UnknownEdgeIndex { id, func_id, edge_idx, max } => {
            "Edge index "@ + decimal(edge_idx as nat) + " is out-of-bounds for function "@
                + function_id_text(func_id) + " in workflow '"@ + id + "' that has "@ + decimal(max)
                + " edges"@
        },
        AnalyzeErrorView::UnknownTaskId { id, node, task_id } => {
            "Unknown task ID '"@ + decimal(task_id as nat) + "' referenced in node '"@
                + program_counter_text(node) + "' in workflow '"@ + id + "'"@
        },
        AnalyzeErrorView::PathLimitExceeded { id, node } => {
            "Control path reaches '"@ + program_counter_text(node) + "' in workflow '"@ + id
                + "' beyond the limit on its length"@
        },
    }
}

impl FunctionId {
    /// Renders the function as a program counter shows it.
    pub fn render(&self) -> (res: String)
        ensures
            res@ == function_id_text(*self),
    {
        match self {
            FunctionId::Main => "<main>".to_owned(),
            FunctionId::Func(id) => usize_to_string(*id),
        }
    }
}

impl ProgramCounter {
    /// Renders the program counter: the function, a colon, the edge index.
    pub fn render(&self) -> (res: String)
        ensures
            res@ == program_counter_text(*self),
    {
        let mut res = self.func_id.render();
        let idx = usize_to_string(self.edge_idx);
        proof {
            reveal_strlit(":");
        }
        res.append(":");
        res.append(idx.as_str());
        assert(res@ =~= program_counter_text(*self));
        res
    }
}

impl SymTable {
    /// The name by which a function of this table is reported.
    pub fn function_name(&self, func_id: FunctionId) -> (res: String)
        ensures
            res@ == function_name(self@, func_id),
    {
        match func_id {
            FunctionId::Main => "<main>".to_owned(),
            FunctionId::Func(id) => {
                if id < self.funcs.len() {
                    self.funcs[id].name.clone()
                } else {
                    usize_to_string(id)
                }
            },
        }
    }
}

impl AnalyzeError {
    /// Renders the failure for the one who sent the workflow.
    pub fn message(&self) -> (res: String)
        ensures
            res@ == analyze_error_text(self@),
    {
        match self {
            AnalyzeError::AmbiguousLocation { id, node_func_id, node_edge_idx, task } => {
                let idx = usize_to_string(*node_edge_idx);
                let mut res = "Encountered call to task '".to_owned();
                proof {
                    reveal_strlit(":");
                }
                res.append(task.as_str());
                res.append("' at location ");
                res.append(node_func_id.as_str());
                res.append(":");
                res.append(idx.as_str());
                res.append(" in workflow '");
                res.append(id.as_str());
                res.append(
                    "' that has ambigious location (please scope it to a single location by adding '#[on(\"<LOCATION>\")]' above the call",
                );
                assert(res@ =~= analyze_error_text(self@));
                res
            },
            AnalyzeError::IllegalTransferTask { id, node } => {
                let at = node.render();
                let mut res = "Task call at '".to_owned();
                res.append(at.as_str());
                res.append("' in workflow '");
                res.append(id.as_str());
                res.append("' is a deprecated Transfer-task");
                assert(res@ =~= analyze_error_text(self@));
                res
            },
            AnalyzeError::UnknownEdgeIndex { id, func_id, edge_idx, max } => {
                let idx = usize_to_string(*edge_idx);
                let func = func_id.render();
                let count = usize_to_string(*max);
                let mut res = "Edge index ".to_owned();
                res.append(idx.as_str());
                res.append(" is out-of-bounds for function ");
                res.append(func.as_str());
                res.append(" in workflow '");
                res.append(id.as_str());
                res.append("' that has ");
                res.append(count.as_str());
                res.append(" edges");
                assert(res@ =~= analyze_error_text(self@));
                res
            },
            AnalyzeError::UnknownTaskId { id, node, task_id } => {
                let task = usize_to_string(*task_id);
                let at = node.render();
                let mut res = "Unknown task ID '".to_owned();
                res.append(task.as_str());
                res.append("' referenced in node '");
                res.append(at.as_str());
                res.append("' in workflow '");
                res.append(id.as_str());
                res.append("'");
                assert(res@ =~= analyze_error_text(self@));
                res
            },
            AnalyzeError::PathLimitExceeded { id, node } => {
                let at = node.render();
                let mut res = "Control path reaches '".to_owned();
                res.append(at.as_str());
                res.append("' in workflow '");
                res.append(id.as_str());
                res.append("' beyond the limit on its length");
                assert(res@ =~= analyze_error_text(self@));
                res
            },
        }
    }
}

} // verus!
