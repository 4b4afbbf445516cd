//! The conversion of a compiled workflow into an analysed, trivially planned
//! one: the analysis of the whole workflow, the sources of the package and
//! data indices, and the failures of a conversion.

use vstd::prelude::*;
use crate::error::{AnalyzeError, AnalyzeErrorView};
use crate::graph::{graph_view, names_view, Edge, EdgeView, FunctionId, SymTable, SymTableView};
pub use crate::walker::TaskCallInfo;
use crate::walker::{
    analyze_wir_and_trivially_plan, tasks_view, walk, Scope, TaskCallInfoView, WalkState,
};

verus! {

/// The edges of one nested function.
#[derive(Clone, Debug, PartialEq, Eq)]
pub struct FunctionBody {
    /// The id of the function in the symbol table.
    pub id: usize,
    pub edges: Vec<Edge>,
}

/// The mathematical value of a [`FunctionBody`].
pub struct FunctionBodyView {
    pub id: usize,
    pub edges: Seq<EdgeView>,
}

impl View for FunctionBody {
    type V = FunctionBodyView;

    open spec fn view(&self) -> FunctionBodyView {
        FunctionBodyView { id: self.id, edges: graph_view(self.edges@) }
    }
}

/// The mathematical value of a list of function bodies.
pub open spec fn bodies_view(funcs: Seq<FunctionBody>) -> Seq<FunctionBodyView> {
    Seq::new(funcs.len(), |i: int| funcs[i]@)
}

/// A compiled workflow: the edges of the top-level script, the edges of each
/// nested function, and the symbol table they refer to.
#[derive(Clone, Debug, PartialEq, Eq)]
pub struct Workflow {
    pub id: String,
    pub table: SymTable,
    pub graph: Vec<Edge>,
    pub funcs: Vec<FunctionBody>,
}

/// The mathematical value of a [`Workflow`].
pub struct WorkflowView {
    pub id: Seq<char>,
    pub table: SymTableView,
    pub graph: Seq<EdgeView>,
    pub funcs: Seq<FunctionBodyView>,
}

impl View for Workflow {
    type V = WorkflowView;

    open spec fn view(&self) -> WorkflowView {
        WorkflowView {
            id: self.id@,
            table: self.table@,
            graph: graph_view(self.graph@),
            funcs: bodies_view(self.funcs@),
        }
    }
}

/// The greatest number of edges among the first `upto` function bodies and a
/// top-level script of `least` edges.
pub open spec fn longest_upto(funcs: Seq<FunctionBodyView>, upto: nat, least: nat) -> nat
    decreases upto,
{
    if upto == 0 || upto > funcs.len() {
        least
    } else {
        let before = longest_upto(funcs, (upto - 1) as nat, least);
        let here = funcs[upto - 1].edges.len();
        if here > before {
            here
        } else {
            before
        }
    }
}

/// The number of edges of the longest function of a workflow, the top-level
/// script included.
pub open spec fn longest_function(wf: WorkflowView) -> nat {
    longest_upto(wf.funcs, wf.funcs.len(), wf.graph.len())
}

impl Workflow {
    /// The number of edges of the longest function of the workflow, the
    /// top-level script included: a limit under which no control path of a
    /// well laid workflow is cut short.
    pub fn longest_function(&self) -> (res: usize)
        ensures
            res == longest_function(self@),
    {
        let mut res = self.graph.len();
        let mut k: usize = 0;
        while k < self.funcs.len()
            invariant
                k <= self.funcs.len(),
                res == longest_upto(bodies_view(self.funcs@), k as nat, self.graph@.len()),
            decreases self.funcs.len() - k,
        {
            let here = self.funcs[k].edges.len();
            if here > res {
                res = here;
            }
            k += 1;
        }
        res
    }
}

/// What a conversion hands back: the workflow with its locations assigned,
/// the task calls that occur in it and the datasets that are its result.
#[derive(Clone, Debug, PartialEq, Eq)]
pub struct AnalyzedWir {
    pub workflow: Workflow,
    pub tasks: Vec<TaskCallInfo>,
    pub results: Vec<String>,
}

/// The mathematical value of an [`AnalyzedWir`].
pub struct AnalyzedWirView {
    pub workflow: WorkflowView,
    pub tasks: Seq<TaskCallInfoView>,
    pub results: Seq<Seq<char>>,
}

impl View for AnalyzedWir {
    type V = AnalyzedWirView;

    open spec fn view(&self) -> AnalyzedWirView {
        AnalyzedWirView {
            workflow: self.workflow@,
            tasks: tasks_view(self.tasks@),
            results: names_view(self.results@),
        }
    }
}

/// The walk of the body at position `at`: from its first edge, without
/// stopping point, not as the top level of the workflow.
pub open spec fn walk_body(
    id: Seq<char>,
    table: SymTableView,
    body: FunctionBodyView,
    tasks: Seq<TaskCallInfoView>,
    results: Seq<Seq<char>>,
    limit: nat,
) -> crate::walker::Walked {
    walk(
        Scope { id, table, func_id: FunctionId::Func(body.id) },
        WalkState { edges: body.edges, tasks, results },
        0,
        None,
        false,
        limit,
    )
}

/// The analysis of the function bodies from position `from` on, in their
/// order, each continuing with the task calls and results of the one before.
/// The first failure ends it.
pub open spec fn analyze_bodies(
    id: Seq<char>,
    table: SymTableView,
    funcs: Seq<FunctionBodyView>,
    from: nat,
    tasks: Seq<TaskCallInfoView>,
    results: Seq<Seq<char>>,
    limit: nat,
) -> Result<(Seq<FunctionBodyView>, Seq<TaskCallInfoView>, Seq<Seq<char>>), AnalyzeErrorView>
    decreases funcs.len() - from,
{
    if from >= funcs.len() {
        Ok((funcs, tasks, results))
    } else {
        let walked = walk_body(id, table, funcs[from as int], tasks, results, limit);
        match walked.error {
            Some(err) => Err(err),
            None => analyze_bodies(
                id,
                table,
                funcs.update(
                    from as int,
                    FunctionBodyView { id: funcs[from as int].id, edges: walked.state.edges },
                ),
                from + 1,
                walked.state.tasks,
                walked.state.results,
                limit,
            ),
        }
    }
}

/// The analysis of a workflow: the walk of the top-level script from its
/// first edge, as the top level, and then the analysis of the function
/// bodies. No control path is followed for more than `limit` edges.
pub open spec fn analyze(wf: WorkflowView, limit: nat) -> Result<AnalyzedWirView, AnalyzeErrorView> {
    let main = walk(
        Scope { id: wf.id, table: wf.table, func_id: FunctionId::Main },
        WalkState { edges: wf.graph, tasks: Seq::empty(), results: Seq::empty() },
        0,
        None,
        true,
        limit,
    );
    match main.error {
        Some(err) => Err(err),
        None => match analyze_bodies(
            wf.id,
            wf.table,
            wf.funcs,
            0,
            main.state.tasks,
            main.state.results,
            limit,
        ) {
            Err(err) => Err(err),
            Ok((funcs, tasks, results)) => Ok(
                AnalyzedWirView {
                    workflow: WorkflowView {
                        id: wf.id,
                        table: wf.table,
                        graph: main.state.edges,
                        funcs,
                    },
                    tasks,
                    results,
                },
            ),
        },
    }
}

/// Analyses a compiled workflow and plans it trivially: every task
/// invocation that is reached gets its one candidate location assigned, the
/// task calls of the top-level script and of every function body are listed,
/// and the datasets returned by the top-level script become the results.
///
/// The first failure ends the analysis and is all that is handed back.
pub fn analyze_workflow(workflow: Workflow, limit: usize) -> (res: Result<
    AnalyzedWir,
    AnalyzeError,
>)
    ensures
        match res {
            Ok(done) => analyze(workflow@, limit as nat) == Ok::<
                AnalyzedWirView,
                AnalyzeErrorView,
            >(done@),
            Err(err) => analyze(workflow@, limit as nat) == Err::<
                AnalyzedWirView,
                AnalyzeErrorView,
            >(err@),
        },
{
    let ghost wf = workflow@;
    let Workflow { id, table, mut graph, mut funcs } = workflow;
    let mut tasks: Vec<TaskCallInfo> = Vec::new();
    let mut results: Vec<String> = Vec::new();
    assert(tasks_view(tasks@) =~= Seq::empty());
    assert(names_view(results@) =~= Seq::empty());
    match analyze_wir_and_trivially_plan(
        id.as_str(),
        &table,
        FunctionId::Main,
        &mut graph,
        0,
        None,
        true,
        limit,
        &mut tasks,
        &mut results,
    ) {
        Ok(_) => {},
        Err(err) => {
            return Err(err);
        },
    }
    let ghost main_tasks = tasks_view(tasks@);
    let ghost main_results = names_view(results@);
    let mut k: usize = 0;
    while k < funcs.len()
        invariant
            k <= funcs.len(),
            wf == workflow@,
            analyze(wf, limit as nat) == match analyze_bodies(
                wf.id,
                wf.table,
                wf.funcs,
                0,
                main_tasks,
                main_results,
                limit as nat,
            ) {
                Err(err) => Err(err),
                Ok((funcs, tasks, results)) => Ok(
                    AnalyzedWirView {
                        workflow: WorkflowView {
                            id: wf.id,
                            table: wf.table,
                            graph: graph_view(graph@),
                            funcs,
                        },
                        tasks,
                        results,
                    },
                ),
            },
            id@ == wf.id,
            table@ == wf.table,
            bodies_view(funcs@).len() == wf.funcs.len(),
            analyze_bodies(wf.id, wf.table, wf.funcs, 0, main_tasks, main_results, limit as nat)
                == analyze_bodies(
                wf.id,
                wf.table,
                bodies_view(funcs@),
                k as nat,
                tasks_view(tasks@),
                names_view(results@),
                limit as nat,
            ),
        decreases funcs.len() - k,
    {
        let ghost before = bodies_view(funcs@);
        let func_id = FunctionId::Func(funcs[k].id);
        let ghost body_id = funcs[k as int].id;
        match analyze_wir_and_trivially_plan(
            id.as_str(),
            &table,
            func_id,
            &mut funcs[k].edges,
            0,
            None,
            false,
            limit,
            &mut tasks,
            &mut results,
        ) {
            Ok(_) => {},
            Err(err) => {
                return Err(err);
            },
        }
        assert(funcs[k as int].id == body_id);
        assert(bodies_view(funcs@) =~= before.update(
            k as int,
            FunctionBodyView { id: body_id, edges: graph_view(funcs[k as int].edges@) },
        ));
        k += 1;
    }
    Ok(AnalyzedWir { workflow: Workflow { id, table, graph, funcs }, tasks, results })
}

/// Which of the two indices is meant.
#[derive(Clone, Copy, Debug, PartialEq, Eq, Structural)]
pub enum IndexKind {
    Package,
    Data,
}

/// How an index is named in a message.
pub open spec fn index_kind_text(kind: IndexKind) -> Seq<char> {
    match kind {
        IndexKind::Package => "package"@,
        IndexKind::Data => "data"@,
    }
}

impl IndexKind {
    /// How the index is named in a message.
    pub fn name(&self) -> (res: &'static str)
        ensures
            res@ == index_kind_text(*self),
    {
        match self {
            IndexKind::Package => "package",
            IndexKind::Data => "data",
        }
    }
}

/// Where an index comes from.
#[derive(Clone, Debug, PartialEq, Eq)]
pub enum IndexSource {
    /// A local directory of test packages or datasets, by its path.
    LocalTest(String),
    /// The local directory that the command-line client manages, by its path.
    LocalClient(String),
    /// A remote registry, by its address.
    Remote(String),
}

/// What has to be read or asked to get an index.
#[derive(Clone, Debug, PartialEq, Eq)]
pub enum IndexFetch {
    /// Scan the test directory at `path`.
    LocalTest { path: String },
    /// Read the client directory at `path`.
    LocalClient { path: String },
    /// Ask the registry at `url`.
    Remote { url: String },
}

/// The mathematical value of an [`IndexFetch`].
pub enum IndexFetchView {
    LocalTest { path: Seq<char> },
    LocalClient { path: Seq<char> },
    Remote { url: Seq<char> },
}

impl View for IndexFetch {
    type V = IndexFetchView;

    open spec fn view(&self) -> IndexFetchView {
        match *self {
            IndexFetch::LocalTest { path } => IndexFetchView::LocalTest { path: path@ },
            IndexFetch::LocalClient { path } => IndexFetchView::LocalClient { path: path@ },
            IndexFetch::Remote { url } => IndexFetchView::Remote { url: url@ },
        }
    }
}

/// The place at a registry that serves an index.
pub open spec fn registry_path(kind: IndexKind) -> Seq<char> {
    match kind {
        IndexKind::Package => "/graphql"@,
        IndexKind::Data => "/data/info"@,
    }
}

impl IndexSource {
    /// Decides what has to be read or asked to get the index of the given
    /// kind from this source. A registry serves each index at a place of its
    /// own.
    pub fn fetch(self, kind: IndexKind) -> (res: IndexFetch)
        ensures
            res@ == match self {
                IndexSource::LocalTest(path) => IndexFetchView::LocalTest { path: path@ },
                IndexSource::LocalClient(path) => IndexFetchView::LocalClient { path: path@ },
                IndexSource::Remote(addr) => IndexFetchView::Remote {
                    url: addr@ + registry_path(kind),
                },
            },
    {
        match self {
            IndexSource::LocalTest(path) => IndexFetch::LocalTest { path },
            IndexSource::LocalClient(path) => IndexFetch::LocalClient { path },
            IndexSource::Remote(addr) => {
                let mut url = addr;
                match kind {
                    IndexKind::Package => url.append("/graphql"),
                    IndexKind::Data => url.append("/data/info"),
                }
                IndexFetch::Remote { url }
            },
        }
    }
}

/// An index that could not be loaded: which one, from where, and, where it
/// is known, why.
#[derive(Clone, Debug, PartialEq, Eq)]
pub enum IndexError {
    LocalTest { kind: IndexKind, path: String },
    LocalClient { kind: IndexKind, path: String, cause: String },
    Remote { kind: IndexKind, url: String, cause: String },
}

/// The mathematical value of an [`IndexError`].
pub enum IndexErrorView {
    LocalTest { kind: IndexKind, path: Seq<char> },
    LocalClient { kind: IndexKind, path: Seq<char>, cause: Seq<char> },
    Remote { kind: IndexKind, url: Seq<char>, cause: Seq<char> },
}

impl View for IndexError {
    type V = IndexErrorView;

    open spec fn view(&self) -> IndexErrorView {
        match *self {
            IndexError::LocalTest { kind, path } => IndexErrorView::LocalTest { kind, path: path@ },
            IndexError::LocalClient { kind, path, cause } => IndexErrorView::LocalClient {
                kind,
                path: path@,
                cause: cause@,
            },
            IndexError::Remote { kind, url, cause } => IndexErrorView::Remote {
                kind,
                url: url@,
                cause: cause@,
            },
        }
    }
}

/// The text that reports an index that could not be loaded.
pub open spec fn index_error_text(err: IndexErrorView) -> Seq<char> {
    match err {
        IndexErrorView::LocalTest { kind, path } => {
            "Failed to load "@ + index_kind_text(kind) + " index from local test directory '"@
                + path + "' (see panic above)"@
        },
        IndexErrorView::LocalClient { kind, path, .. } => {
            "Failed to load "@ + index_kind_text(kind) + " index from local client directory '"@
                + path + "'"@
        },
        IndexErrorView::Remote { kind, url, .. } => {
            "Failed to load "@ + index_kind_text(kind) + " index from remote registry at '"@ + url
                + "'"@
        },
    }
}

impl IndexFetch {
    /// The failure to report when this fetch of the index of the given kind
    /// did not succeed for the given reason. A scan of a test directory gives
    /// no reason.
    pub fn failed(self, kind: IndexKind, cause: String) -> (res: IndexError)
        ensures
            res@ == match self {
                IndexFetch::LocalTest { path } => IndexErrorView::LocalTest { kind, path: path@ },
                IndexFetch::LocalClient { path } => IndexErrorView::LocalClient {
                    kind,
                    path: path@,
                    cause: cause@,
                },
                IndexFetch::Remote { url } => IndexErrorView::Remote {
                    kind,
                    url: url@,
                    cause: cause@,
                },
            },
    {
        match self {
            IndexFetch::LocalTest { path } => IndexError::LocalTest { kind, path },
            IndexFetch::LocalClient { path } => IndexError::LocalClient { kind, path, cause },
            IndexFetch::Remote { url } => IndexError::Remote { kind, url, cause },
        }
    }
}

impl IndexError {
    /// Renders the failure.
    pub fn message(&self) -> (res: String)
        ensures
            res@ == index_error_text(self@),
    {
        let mut res = "Failed to load ".to_owned();
        match self {
            IndexError::LocalTest { kind, path } => {
                res.append(kind.name());
                res.append(" index from local test directory '");
                res.append(path.as_str());
                res.append("' (see panic above)");
                assert(res@ =~= index_error_text(self@));
            },
            IndexError::LocalClient { kind, path, .. } => {
                res.append(kind.name());
                res.append(" index from local client directory '");
                res.append(path.as_str());
                res.append("'");
                assert(res@ =~= index_error_text(self@));
            },
            IndexError::Remote { kind, url, .. } => {
                res.append(kind.name());
                res.append(" index from remote registry at '");
                res.append(url.as_str());
                res.append("'");
                assert(res@ =~= index_error_text(self@));
            },
        }
        res
    }
}

/// Why a conversion from workflow source text failed.
#[derive(Clone, Debug, PartialEq, Eq)]
pub enum ConvertError {
    /// An index could not be loaded.
    IndexResolutionFailed(IndexError),
    /// The compiler rejected the source; `text` holds its diagnostics.
    CompileFailed { text: String },
    /// The analysis rejected the compiled workflow.
    InvalidWorkflow(AnalyzeError),
    /// The analysed workflow could not be encoded.
    SerializationFailed { cause: String },
}

/// The mathematical value of a [`ConvertError`].
pub enum ConvertErrorView {
    IndexResolutionFailed(IndexErrorView),
    CompileFailed { text: Seq<char> },
    InvalidWorkflow(AnalyzeErrorView),
    SerializationFailed { cause: Seq<char> },
}

impl View for ConvertError {
    type V = ConvertErrorView;

    open spec fn view(&self) -> ConvertErrorView {
        match *self {
            ConvertError::IndexResolutionFailed(err) => ConvertErrorView::IndexResolutionFailed(
                err@,
            ),
            ConvertError::CompileFailed { text } => ConvertErrorView::CompileFailed { text: text@ },
            ConvertError::InvalidWorkflow(err) => ConvertErrorView::InvalidWorkflow(err@),
            ConvertError::SerializationFailed { cause } => ConvertErrorView::SerializationFailed {
                cause: cause@,
            },
        }
    }
}

/// The status that a failed conversion is answered with: 400 where the
/// source or the workflow is at fault, 500 where the service is.
pub open spec fn convert_error_status(err: ConvertErrorView) -> u16 {
    match err {
        ConvertErrorView::IndexResolutionFailed(_) => 500,
        ConvertErrorView::CompileFailed { .. } => 400,
        ConvertErrorView::InvalidWorkflow(_) => 400,
        ConvertErrorView::SerializationFailed { .. } => 500,
    }
}

/// The first line of the answer to a failed conversion. For a source that
/// did not compile the diagnostics are the whole answer.
pub open spec fn convert_error_headline(err: ConvertErrorView) -> Seq<char> {
    match err {
        ConvertErrorView::IndexResolutionFailed(_) => "Failed to collect package index"@,
        ConvertErrorView::CompileFailed { text } => text,
        ConvertErrorView::InvalidWorkflow(_) => "Invalid workflow given"@,
        ConvertErrorView::SerializationFailed { .. } => "Failed to serialize workflow"@,
    }
}

/// The message of what caused a failed conversion, where something did.
pub open spec fn convert_error_cause(err: ConvertErrorView) -> Option<Seq<char>> {
    match err {
        ConvertErrorView::IndexResolutionFailed(inner) => Some(index_error_text(inner)),
        ConvertErrorView::CompileFailed { .. } => None,
        ConvertErrorView::InvalidWorkflow(inner) => Some(
            crate::error::analyze_error_text(inner),
        ),
        ConvertErrorView::SerializationFailed { cause } => Some(cause),
    }
}

impl ConvertError {
    /// The status that the failure is answered with.
    pub fn status(&self) -> (res: u16)
        ensures
            res == convert_error_status(self@),
    {
        match self {
            ConvertError::IndexResolutionFailed(_) => 500,
            ConvertError::CompileFailed { .. } => 400,
            ConvertError::InvalidWorkflow(_) => 400,
            ConvertError::SerializationFailed { .. } => 500,
        }
    }

    /// The first line of the answer.
    pub fn headline(&self) -> (res: String)
        ensures
            res@ == convert_error_headline(self@),
    {
        match self {
            ConvertError::IndexResolutionFailed(_) => "Failed to collect package index".to_owned(),
            ConvertError::CompileFailed { text } => text.clone(),
            ConvertError::InvalidWorkflow(_) => "Invalid workflow given".to_owned(),
            ConvertError::SerializationFailed { .. } => "Failed to serialize workflow".to_owned(),
        }
    }

    /// The message of what caused the failure, where something did.
    pub fn cause(&self) -> (res: Option<String>)
        ensures
            res is Some == convert_error_cause(self@) is Some,
            res is Some ==> res->0@ == convert_error_cause(self@)->0,
    {
        match self {
            ConvertError::IndexResolutionFailed(inner) => Some(inner.message()),
            ConvertError::CompileFailed { .. } => None,
            ConvertError::InvalidWorkflow(inner) => Some(inner.message()),
            ConvertError::SerializationFailed { cause } => Some(cause.clone()),
        }
    }
}

/// The texts one after the other.
pub open spec fn concatenated(texts: Seq<Seq<char>>) -> Seq<char>
    decreases texts.len(),
{
    if texts.len() == 0 {
        Seq::empty()
    } else {
        concatenated(texts.drop_last()) + texts.last()
    }
}

/// The answer to a source that did not compile: the diagnostics as the
/// compiler rendered them, and a closing line.
pub open spec fn compile_failure_text(diagnostics: Seq<Seq<char>>) -> Seq<char> {
    concatenated(diagnostics) + "Failed to compile input workflow (see errors above)\n"@
}

/// Renders the answer to a source that did not compile.
pub fn compile_failure(diagnostics: &Vec<String>) -> (res: String)
    ensures
        res@ == compile_failure_text(names_view(diagnostics@)),
{
    let mut res = String::new();
    let mut i: usize = 0;
    while i < diagnostics.len()
        invariant
            i <= diagnostics.len(),
            res@ == concatenated(names_view(diagnostics@).subrange(0, i as int)),
        decreases diagnostics.len() - i,
    {
        proof {
            let after = names_view(diagnostics@).subrange(0, i + 1);
            assert(after.drop_last() =~= names_view(diagnostics@).subrange(0, i as int));
            assert(after.last() == diagnostics[i as int]@);
        }
        res.append(diagnostics[i].as_str());
        i += 1;
    }
    assert(names_view(diagnostics@).subrange(0, i as int) =~= names_view(diagnostics@));
    res.append("Failed to compile input workflow (see errors above)\n");
    res
}

/// What the compiler made of a source text.
#[derive(Clone, Debug, PartialEq, Eq)]
pub enum CompileOutcome {
    /// The compiled workflow.
    Workflow(Workflow),
    /// The diagnostics of a source that did not compile, each as rendered.
    Errors(Vec<String>),
    /// The diagnostic of a source that ended too early, as rendered.
    Eof(String),
}

/// What a conversion hands back for each outcome of the compiler: the
/// analysis of a compiled workflow, or the failure to report. The analysis
/// follows no control path for more edges than the longest function of the
/// workflow has.
pub open spec fn converted(compiled: CompileOutcome) -> Result<AnalyzedWirView, ConvertErrorView> {
    match compiled {
        CompileOutcome::Workflow(workflow) => match analyze(
            workflow@,
            longest_function(workflow@),
        ) {
            Ok(done) => Ok(done),
            Err(err) => Err(ConvertErrorView::InvalidWorkflow(err)),
        },
        CompileOutcome::Errors(diagnostics) => Err(
            ConvertErrorView::CompileFailed {
                text: compile_failure_text(names_view(diagnostics@)),
            },
        ),
        CompileOutcome::Eof(diagnostic) => Err(
            ConvertErrorView::CompileFailed { text: compile_failure_text(seq![diagnostic@]) },
        ),
    }
}

/// Converts what the compiler made of a source text: a compiled workflow is
/// analysed and trivially planned; diagnostics become the failure to report.
pub fn bs_to_wir(compiled: CompileOutcome) -> (res: Result<AnalyzedWir, ConvertError>)
    ensures
        match res {
            Ok(done) => converted(compiled) == Ok::<AnalyzedWirView, ConvertErrorView>(done@),
            Err(err) => converted(compiled) == Err::<AnalyzedWirView, ConvertErrorView>(err@),
        },
{
    match compiled {
        CompileOutcome::Workflow(workflow) => {
            let limit = workflow.longest_function();
            match analyze_workflow(workflow, limit) {
                Ok(done) => Ok(done),
                Err(err) => Err(ConvertError::InvalidWorkflow(err)),
            }
        },
        CompileOutcome::Errors(diagnostics) => Err(
            ConvertError::CompileFailed { text: compile_failure(&diagnostics) },
        ),
        CompileOutcome::Eof(diagnostic) => {
            let mut diagnostics: Vec<String> = Vec::new();
            diagnostics.push(diagnostic);
            assert(names_view(diagnostics@) =~= seq![diagnostic@]);
            Err(ConvertError::CompileFailed { text: compile_failure(&diagnostics) })
        },
    }
}

} // verus!
