use policy_reasoner_client_backend::bstowir::{
    analyze_workflow, bs_to_wir, compile_failure, AnalyzedWir, CompileOutcome, ConvertError,
    FunctionBody, IndexError, IndexFetch, IndexKind, IndexSource, Workflow,
};
use policy_reasoner_client_backend::error::AnalyzeError;
use policy_reasoner_client_backend::graph::{
    ComputeTaskDef, Edge, FunctionDef, FunctionId, Locations, ProgramCounter, SymTable, TaskDef,
};
use policy_reasoner_client_backend::walker::TaskCallInfo;

fn strings(items: &[&str]) -> Vec<String> {
    items.iter().map(|item| item.to_string()).collect()
}

fn task_node(task: usize, locs: &[&str], next: usize) -> Edge {
    Edge::Node { task, locs: Locations::Restricted(strings(locs)), at: None, input: vec![], next }
}

fn planned_node(task: usize, loc: &str, next: usize) -> Edge {
    Edge::Node {
        task,
        locs: Locations::Restricted(strings(&[loc])),
        at: Some(loc.to_string()),
        input: vec![],
        next,
    }
}

fn symbols() -> SymTable {
    SymTable {
        tasks: vec![
            TaskDef::Compute(ComputeTaskDef {
                package: "hello".to_string(),
                version: "1.0.0".to_string(),
                function: "world".to_string(),
            }),
            TaskDef::Transfer,
        ],
        funcs: vec![
            FunctionDef { name: "zero".to_string() },
            FunctionDef { name: "one".to_string() },
        ],
    }
}

fn workflow(graph: Vec<Edge>, funcs: Vec<FunctionBody>) -> Workflow {
    Workflow { id: "wf".to_string(), table: symbols(), graph, funcs }
}

fn task_call(func_id: FunctionId, edge_idx: usize) -> TaskCallInfo {
    TaskCallInfo {
        pg: ProgramCounter { func_id, edge_idx },
        name: "hello<1.0.0>::world".to_string(),
        datasets: vec![],
    }
}

#[test]
fn workflow_with_one_call_has_one_task_and_no_result() {
    let done = analyze_workflow(workflow(vec![task_node(0, &["A"], 1), Edge::Stop], vec![]), 64);
    assert_eq!(
        done,
        Ok(AnalyzedWir {
            workflow: workflow(vec![planned_node(0, "A", 1), Edge::Stop], vec![]),
            tasks: vec![task_call(FunctionId::Main, 0)],
            results: vec![],
        })
    );
}

#[test]
fn workflow_with_two_candidates_is_refused() {
    let done = analyze_workflow(workflow(vec![task_node(0, &["A", "B"], 1), Edge::Stop], vec![]), 64);
    assert_eq!(
        done,
        Err(AnalyzeError::AmbiguousLocation {
            id: "wf".to_string(),
            node_func_id: "<main>".to_string(),
            node_edge_idx: 0,
            task: "hello<1.0.0>::world".to_string(),
        })
    );
}

#[test]
fn function_bodies_add_tasks_but_no_results() {
    let done = analyze_workflow(
        workflow(
            vec![Edge::Call { next: 1 }, Edge::Return { result: strings(&["x"]) }],
            vec![
                FunctionBody {
                    id: 1,
                    edges: vec![task_node(0, &["B"], 1), Edge::Return { result: strings(&["inner"]) }],
                },
                FunctionBody { id: 0, edges: vec![task_node(0, &["C"], 1), Edge::Stop] },
            ],
        ),
        64,
    );
    assert_eq!(
        done,
        Ok(AnalyzedWir {
            workflow: workflow(
                vec![Edge::Call { next: 1 }, Edge::Return { result: strings(&["x"]) }],
                vec![
                    FunctionBody {
                        id: 1,
                        edges: vec![
                            planned_node(0, "B", 1),
                            Edge::Return { result: strings(&["inner"]) },
                        ],
                    },
                    FunctionBody { id: 0, edges: vec![planned_node(0, "C", 1), Edge::Stop] },
                ],
            ),
            tasks: vec![task_call(FunctionId::Func(1), 0), task_call(FunctionId::Func(0), 0)],
            results: strings(&["x"]),
        })
    );
}

#[test]
fn failure_in_a_function_body_names_the_function() {
    let done = analyze_workflow(
        workflow(
            vec![Edge::Stop],
            vec![
                FunctionBody { id: 0, edges: vec![Edge::Stop] },
                FunctionBody { id: 1, edges: vec![Edge::Linear { next: 1 }, task_node(0, &[], 2)] },
            ],
        ),
        64,
    );
    assert_eq!(
        done,
        Err(AnalyzeError::AmbiguousLocation {
            id: "wf".to_string(),
            node_func_id: "one".to_string(),
            node_edge_idx: 1,
            task: "hello<1.0.0>::world".to_string(),
        })
    );
}

#[test]
fn failure_in_the_top_level_comes_before_the_function_bodies() {
    let done = analyze_workflow(
        workflow(
            vec![task_node(1, &["A"], 1), Edge::Stop],
            vec![FunctionBody { id: 0, edges: vec![task_node(0, &[], 1), Edge::Stop] }],
        ),
        64,
    );
    assert_eq!(
        done,
        Err(AnalyzeError::IllegalTransferTask {
            id: "wf".to_string(),
            node: ProgramCounter { func_id: FunctionId::Main, edge_idx: 0 },
        })
    );
}

#[test]
fn function_body_without_edges_is_refused() {
    let done =
        analyze_workflow(workflow(vec![Edge::Stop], vec![FunctionBody { id: 7, edges: vec![] }]), 64);
    assert_eq!(
        done,
        Err(AnalyzeError::UnknownEdgeIndex {
            id: "wf".to_string(),
            func_id: FunctionId::Func(7),
            edge_idx: 0,
            max: 0,
        })
    );
}

#[test]
fn analysis_of_an_analysed_workflow_is_the_same() {
    let given = workflow(
            vec![
                Edge::Parallel { branches: vec![1, 2], merge: 3 },
                task_node(0, &["A"], 3),
                Edge::Return { result: strings(&["p"]) },
                Edge::Join { next: 4 },
                Edge::Return { result: strings(&["r"]) },
            ],
            vec![FunctionBody { id: 0, edges: vec![task_node(0, &["B"], 1), Edge::Stop] }],
        );
    let limit = given.longest_function();
    assert_eq!(limit, 5);
    let first = analyze_workflow(given, limit).unwrap();
    assert_eq!(first.results, strings(&["r"]));
    assert_eq!(first.tasks.len(), 2);
    let second = analyze_workflow(first.workflow.clone(), limit).unwrap();
    assert_eq!(second, first);
}

#[test]
fn compiled_workflow_is_analysed() {
    let done = bs_to_wir(
        CompileOutcome::Workflow(workflow(vec![Edge::Return { result: strings(&["x"]) }], vec![])),
    )
    .unwrap();
    assert_eq!(done.results, strings(&["x"]));
    assert!(done.tasks.is_empty());
}

#[test]
fn invalid_workflow_is_a_client_error() {
    let err = bs_to_wir(
        CompileOutcome::Workflow(workflow(vec![task_node(0, &["A", "B"], 1), Edge::Stop], vec![])),
    )
    .unwrap_err();
    assert_eq!(err.status(), 400);
    assert_eq!(err.headline(), "Invalid workflow given");
    assert_eq!(
        err.cause(),
        Some(
            "Encountered call to task 'hello<1.0.0>::world' at location <main>:0 in workflow 'wf' that has ambigious location (please scope it to a single location by adding '#[on(\"<LOCATION>\")]' above the call"
                .to_string()
        )
    );
}

#[test]
fn compile_errors_are_a_client_error_with_the_diagnostics() {
    let err = bs_to_wir(
        CompileOutcome::Errors(strings(&["error: first\n", "error: second\n"])),
    )
    .unwrap_err();
    assert_eq!(
        err,
        ConvertError::CompileFailed {
            text: "error: first\nerror: second\nFailed to compile input workflow (see errors above)\n"
                .to_string(),
        }
    );
    assert_eq!(err.status(), 400);
    assert_eq!(
        err.headline(),
        "error: first\nerror: second\nFailed to compile input workflow (see errors above)\n"
    );
    assert_eq!(err.cause(), None);
}

#[test]
fn early_end_of_source_is_a_client_error_with_the_diagnostic() {
    let err = bs_to_wir(CompileOutcome::Eof("error: unexpected end\n".to_string())).unwrap_err();
    assert_eq!(
        err,
        ConvertError::CompileFailed {
            text: "error: unexpected end\nFailed to compile input workflow (see errors above)\n"
                .to_string(),
        }
    );
}

#[test]
fn compile_failure_without_diagnostics_is_the_closing_line() {
    assert_eq!(
        compile_failure(&Vec::new()),
        "Failed to compile input workflow (see errors above)\n"
    );
}

#[test]
fn index_failure_is_a_server_error() {
    let err = ConvertError::IndexResolutionFailed(IndexError::LocalTest {
        kind: IndexKind::Data,
        path: "./tests/data".to_string(),
    });
    assert_eq!(err.status(), 500);
    assert_eq!(err.headline(), "Failed to collect package index");
    assert_eq!(
        err.cause(),
        Some(
            "Failed to load data index from local test directory './tests/data' (see panic above)"
                .to_string()
        )
    );
}

#[test]
fn serialization_failure_is_a_server_error() {
    let err = ConvertError::SerializationFailed { cause: "key must be a string".to_string() };
    assert_eq!(err.status(), 500);
    assert_eq!(err.headline(), "Failed to serialize workflow");
    assert_eq!(err.cause(), Some("key must be a string".to_string()));
}

#[test]
fn index_kinds_have_names() {
    assert_eq!(IndexKind::Package.name(), "package");
    assert_eq!(IndexKind::Data.name(), "data");
}

#[test]
fn local_sources_are_fetched_from_their_path() {
    assert_eq!(
        IndexSource::LocalTest("./tests/packages".to_string()).fetch(IndexKind::Package),
        IndexFetch::LocalTest { path: "./tests/packages".to_string() }
    );
    assert_eq!(
        IndexSource::LocalClient("/home/user/.local/share/brane".to_string()).fetch(IndexKind::Data),
        IndexFetch::LocalClient { path: "/home/user/.local/share/brane".to_string() }
    );
}

#[test]
fn remote_sources_are_asked_at_the_place_of_the_index() {
    assert_eq!(
        IndexSource::Remote("http://registry:50051".to_string()).fetch(IndexKind::Package),
        IndexFetch::Remote { url: "http://registry:50051/graphql".to_string() }
    );
    assert_eq!(
        IndexSource::Remote("http://registry:50051".to_string()).fetch(IndexKind::Data),
        IndexFetch::Remote { url: "http://registry:50051/data/info".to_string() }
    );
}

#[test]
fn failed_fetch_becomes_the_failure_of_its_source() {
    assert_eq!(
        IndexFetch::LocalTest { path: "p".to_string() }.failed(IndexKind::Package, "ignored".to_string()),
        IndexError::LocalTest { kind: IndexKind::Package, path: "p".to_string() }
    );
    assert_eq!(
        IndexFetch::LocalClient { path: "p".to_string() }.failed(IndexKind::Data, "denied".to_string()),
        IndexError::LocalClient {
            kind: IndexKind::Data,
            path: "p".to_string(),
            cause: "denied".to_string(),
        }
    );
    assert_eq!(
        IndexFetch::Remote { url: "u".to_string() }.failed(IndexKind::Package, "refused".to_string()),
        IndexError::Remote {
            kind: IndexKind::Package,
            url: "u".to_string(),
            cause: "refused".to_string(),
        }
    );
}

#[test]
fn index_error_messages() {
    assert_eq!(
        IndexError::LocalTest { kind: IndexKind::Package, path: "./tests/packages".to_string() }
            .message(),
        "Failed to load package index from local test directory './tests/packages' (see panic above)"
    );
    assert_eq!(
        IndexError::LocalClient {
            kind: IndexKind::Data,
            path: "/data".to_string(),
            cause: "denied".to_string(),
        }
        .message(),
        "Failed to load data index from local client directory '/data'"
    );
    assert_eq!(
        IndexError::Remote {
            kind: IndexKind::Package,
            url: "http://registry:50051/graphql".to_string(),
            cause: "refused".to_string(),
        }
        .message(),
        "Failed to load package index from remote registry at 'http://registry:50051/graphql'"
    );
}

#[test]
fn longest_function_counts_the_edges_of_the_longest() {
    assert_eq!(workflow(vec![], vec![]).longest_function(), 0);
    assert_eq!(workflow(vec![Edge::Stop, Edge::Stop], vec![]).longest_function(), 2);
    assert_eq!(
        workflow(
            vec![Edge::Stop],
            vec![
                FunctionBody { id: 0, edges: vec![Edge::Stop, Edge::Stop, Edge::Stop] },
                FunctionBody { id: 1, edges: vec![Edge::Stop, Edge::Stop] },
            ],
        )
        .longest_function(),
        3
    );
}

#[test]
fn compiled_loop_is_analysed_within_the_length_of_the_workflow() {
    let done = bs_to_wir(CompileOutcome::Workflow(workflow(
        vec![
            Edge::Loop { cond: 1, body: 3, next: Some(5) },
            task_node(0, &["A"], 2),
            Edge::Branch { true_next: 3, false_next: Some(5), merge: None },
            task_node(0, &["B"], 4),
            Edge::Linear { next: 1 },
            Edge::Return { result: strings(&["out"]) },
        ],
        vec![],
    )))
    .unwrap();
    assert_eq!(done.tasks, vec![task_call(FunctionId::Main, 1), task_call(FunctionId::Main, 3)]);
    assert_eq!(done.results, strings(&["out"]));
}

#[test]
fn endless_workflow_is_refused() {
    let err = bs_to_wir(CompileOutcome::Workflow(workflow(
        vec![Edge::Linear { next: 1 }, Edge::Linear { next: 0 }],
        vec![],
    )))
    .unwrap_err();
    assert_eq!(
        err,
        ConvertError::InvalidWorkflow(AnalyzeError::PathLimitExceeded {
            id: "wf".to_string(),
            node: ProgramCounter { func_id: FunctionId::Main, edge_idx: 0 },
        })
    );
    assert_eq!(err.status(), 400);
}
