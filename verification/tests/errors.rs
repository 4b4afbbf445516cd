use policy_reasoner_client_backend::error::AnalyzeError;
use policy_reasoner_client_backend::graph::{FunctionDef, FunctionId, ProgramCounter, SymTable};

#[test]
fn function_ids_render_as_main_or_number() {
    assert_eq!(FunctionId::Main.render(), "<main>");
    assert_eq!(FunctionId::Func(0).render(), "0");
    assert_eq!(FunctionId::Func(31).render(), "31");
}

#[test]
fn program_counters_render_as_function_and_index() {
    assert_eq!(ProgramCounter { func_id: FunctionId::Main, edge_idx: 5 }.render(), "<main>:5");
    assert_eq!(ProgramCounter { func_id: FunctionId::Func(3), edge_idx: 0 }.render(), "3:0");
}

#[test]
fn function_names_come_from_the_symbol_table() {
    let table = SymTable {
        tasks: vec![],
        funcs: vec![
            FunctionDef { name: "first".to_string() },
            FunctionDef { name: "second".to_string() },
        ],
    };
    assert_eq!(table.function_name(FunctionId::Main), "<main>");
    assert_eq!(table.function_name(FunctionId::Func(1)), "second");
    assert_eq!(table.function_name(FunctionId::Func(2)), "2");
}

#[test]
fn ambiguous_location_message() {
    let err = AnalyzeError::AmbiguousLocation {
        id: "wf-1".to_string(),
        node_func_id: "<main>".to_string(),
        node_edge_idx: 4,
        task: "hello<1.0.0>::world".to_string(),
    };
    assert_eq!(
        err.message(),
        "Encountered call to task 'hello<1.0.0>::world' at location <main>:4 in workflow 'wf-1' that has ambigious location (please scope it to a single location by adding '#[on(\"<LOCATION>\")]' above the call"
    );
}

#[test]
fn illegal_transfer_task_message() {
    let err = AnalyzeError::IllegalTransferTask {
        id: "wf-1".to_string(),
        node: ProgramCounter { func_id: FunctionId::Func(2), edge_idx: 9 },
    };
    assert_eq!(err.message(), "Task call at '2:9' in workflow 'wf-1' is a deprecated Transfer-task");
}

#[test]
fn unknown_edge_index_message() {
    let err = AnalyzeError::UnknownEdgeIndex {
        id: "wf-1".to_string(),
        func_id: FunctionId::Main,
        edge_idx: 17,
        max: 3,
    };
    assert_eq!(
        err.message(),
        "Edge index 17 is out-of-bounds for function <main> in workflow 'wf-1' that has 3 edges"
    );
}

#[test]
fn unknown_task_id_message() {
    let err = AnalyzeError::UnknownTaskId {
        id: "wf-1".to_string(),
        node: ProgramCounter { func_id: FunctionId::Main, edge_idx: 0 },
        task_id: 12,
    };
    assert_eq!(
        err.message(),
        "Unknown task ID '12' referenced in node '<main>:0' in workflow 'wf-1'"
    );
}

#[test]
fn path_limit_exceeded_message() {
    let err = AnalyzeError::PathLimitExceeded {
        id: "wf-1".to_string(),
        node: ProgramCounter { func_id: FunctionId::Func(1), edge_idx: 2 },
    };
    assert_eq!(
        err.message(),
        "Control path reaches '1:2' in workflow 'wf-1' beyond the limit on its length"
    );
}
