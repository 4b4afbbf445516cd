use policy_reasoner_client_backend::error::AnalyzeError;
use policy_reasoner_client_backend::graph::{
    ComputeTaskDef, Edge, FunctionDef, FunctionId, Locations, ProgramCounter, SymTable, TaskDef,
};
use policy_reasoner_client_backend::walker::{
    analyze_wir_and_trivially_plan, append_names, copy_names, TaskCallInfo,
};

fn names(items: &[&str]) -> Vec<String> {
    items.iter().map(|item| item.to_string()).collect()
}

fn node(task: usize, locs: &[&str], input: &[&str], next: usize) -> Edge {
    Edge::Node { task, locs: Locations::Restricted(names(locs)), at: None, input: names(input), next }
}

fn planned(task: usize, loc: &str, input: &[&str], next: usize) -> Edge {
    Edge::Node {
        task,
        locs: Locations::Restricted(names(&[loc])),
        at: Some(loc.to_string()),
        input: names(input),
        next,
    }
}

fn table() -> SymTable {
    SymTable {
        tasks: vec![
            TaskDef::Compute(ComputeTaskDef {
                package: "hello".to_string(),
                version: "1.0.0".to_string(),
                function: "world".to_string(),
            }),
            TaskDef::Transfer,
            TaskDef::Compute(ComputeTaskDef {
                package: "copy".to_string(),
                version: "2.1.0".to_string(),
                function: "run".to_string(),
            }),
        ],
        funcs: vec![FunctionDef { name: "helper".to_string() }],
    }
}

fn call(func_id: FunctionId, edge_idx: usize, name: &str, datasets: &[&str]) -> TaskCallInfo {
    TaskCallInfo {
        pg: ProgramCounter { func_id, edge_idx },
        name: name.to_string(),
        datasets: names(datasets),
    }
}

struct Run {
    res: Result<(), AnalyzeError>,
    edges: Vec<Edge>,
    tasks: Vec<TaskCallInfo>,
    results: Vec<String>,
}

fn run_in(
    func_id: FunctionId,
    edges: Vec<Edge>,
    pc: usize,
    breakpoint: Option<usize>,
    is_main: bool,
    limit: usize,
) -> Run {
    let mut edges = edges;
    let mut tasks = Vec::new();
    let mut results = Vec::new();
    let res = analyze_wir_and_trivially_plan(
        "wf",
        &table(),
        func_id,
        &mut edges,
        pc,
        breakpoint,
        is_main,
        limit,
        &mut tasks,
        &mut results,
    );
    Run { res, edges, tasks, results }
}

fn run(edges: Vec<Edge>) -> Run {
    run_in(FunctionId::Main, edges, 0, None, true, 64)
}

#[test]
fn function_id_main_is_main() {
    assert!(FunctionId::Main.is_main());
    assert!(!FunctionId::Func(3).is_main());
}

#[test]
fn program_counter_new_holds_its_parts() {
    let pc = ProgramCounter::new(FunctionId::Func(2), 7);
    assert_eq!(pc, ProgramCounter { func_id: FunctionId::Func(2), edge_idx: 7 });
}

#[test]
fn single_candidate_is_the_single_location() {
    assert_eq!(Locations::Restricted(names(&["A"])).single(), Some("A".to_string()));
    assert_eq!(Locations::Restricted(names(&[])).single(), None);
    assert_eq!(Locations::Restricted(names(&["A", "B"])).single(), None);
    assert_eq!(Locations::All.single(), None);
}

#[test]
fn qualified_name_is_package_version_function() {
    let def = ComputeTaskDef {
        package: "hello".to_string(),
        version: "1.0.0".to_string(),
        function: "world".to_string(),
    };
    assert_eq!(def.qualified_name(), "hello<1.0.0>::world");
    let empty = ComputeTaskDef {
        package: String::new(),
        version: String::new(),
        function: String::new(),
    };
    assert_eq!(empty.qualified_name(), "<>::");
}

#[test]
fn one_call_restricted_to_one_location_is_planned() {
    let done = run(vec![node(0, &["A"], &[], 1), Edge::Stop]);
    assert_eq!(done.res, Ok(()));
    assert_eq!(done.edges, vec![planned(0, "A", &[], 1), Edge::Stop]);
    assert_eq!(done.tasks, vec![call(FunctionId::Main, 0, "hello<1.0.0>::world", &[])]);
    assert!(done.results.is_empty());
}

#[test]
fn every_single_candidate_node_is_assigned_its_candidate() {
    let done = run(vec![
        node(0, &["A"], &["in"], 1),
        node(2, &["B"], &["x", "y"], 2),
        node(0, &["C"], &[], 3),
        Edge::Stop,
    ]);
    assert_eq!(done.res, Ok(()));
    assert_eq!(
        done.edges,
        vec![
            planned(0, "A", &["in"], 1),
            planned(2, "B", &["x", "y"], 2),
            planned(0, "C", &[], 3),
            Edge::Stop,
        ]
    );
    assert_eq!(
        done.tasks,
        vec![
            call(FunctionId::Main, 0, "hello<1.0.0>::world", &["in"]),
            call(FunctionId::Main, 1, "copy<2.1.0>::run", &["x", "y"]),
            call(FunctionId::Main, 2, "hello<1.0.0>::world", &[]),
        ]
    );
}

#[test]
fn two_candidates_fail_at_program_counter_zero() {
    let edges = vec![node(0, &["A", "B"], &[], 1), Edge::Stop];
    let done = run(edges.clone());
    assert_eq!(
        done.res,
        Err(AnalyzeError::AmbiguousLocation {
            id: "wf".to_string(),
            node_func_id: "<main>".to_string(),
            node_edge_idx: 0,
            task: "hello<1.0.0>::world".to_string(),
        })
    );
    assert_eq!(done.edges, edges);
    assert!(done.tasks.is_empty());
    assert!(done.results.is_empty());
}

#[test]
fn no_candidate_is_ambiguous() {
    let done = run(vec![Edge::Linear { next: 1 }, node(2, &[], &[], 2), Edge::Stop]);
    assert_eq!(
        done.res,
        Err(AnalyzeError::AmbiguousLocation {
            id: "wf".to_string(),
            node_func_id: "<main>".to_string(),
            node_edge_idx: 1,
            task: "copy<2.1.0>::run".to_string(),
        })
    );
}

#[test]
fn unrestricted_candidates_are_ambiguous() {
    let edges = vec![
        Edge::Node { task: 0, locs: Locations::All, at: None, input: vec![], next: 1 },
        Edge::Stop,
    ];
    let done = run(edges);
    assert_eq!(
        done.res,
        Err(AnalyzeError::AmbiguousLocation {
            id: "wf".to_string(),
            node_func_id: "<main>".to_string(),
            node_edge_idx: 0,
            task: "hello<1.0.0>::world".to_string(),
        })
    );
}

#[test]
fn ambiguous_location_names_the_declared_function() {
    let done = run_in(FunctionId::Func(0), vec![node(0, &[], &[], 1), Edge::Stop], 0, None, false, 64);
    assert_eq!(
        done.res,
        Err(AnalyzeError::AmbiguousLocation {
            id: "wf".to_string(),
            node_func_id: "helper".to_string(),
            node_edge_idx: 0,
            task: "hello<1.0.0>::world".to_string(),
        })
    );
}

#[test]
fn ambiguous_location_names_an_undeclared_function_by_its_id() {
    let done =
        run_in(FunctionId::Func(12), vec![node(0, &[], &[], 1), Edge::Stop], 0, None, false, 64);
    assert_eq!(
        done.res,
        Err(AnalyzeError::AmbiguousLocation {
            id: "wf".to_string(),
            node_func_id: "12".to_string(),
            node_edge_idx: 0,
            task: "hello<1.0.0>::world".to_string(),
        })
    );
}

#[test]
fn transfer_task_is_illegal() {
    let edges = vec![node(1, &["A"], &[], 1), Edge::Stop];
    let done = run(edges.clone());
    assert_eq!(
        done.res,
        Err(AnalyzeError::IllegalTransferTask {
            id: "wf".to_string(),
            node: ProgramCounter { func_id: FunctionId::Main, edge_idx: 0 },
        })
    );
    assert_eq!(done.edges, edges);
    assert!(done.tasks.is_empty());
}

#[test]
fn transfer_task_is_found_before_the_candidates_are_read() {
    let done = run(vec![node(1, &["A", "B"], &[], 1), Edge::Stop]);
    assert_eq!(
        done.res,
        Err(AnalyzeError::IllegalTransferTask {
            id: "wf".to_string(),
            node: ProgramCounter { func_id: FunctionId::Main, edge_idx: 0 },
        })
    );
}

#[test]
fn task_without_definition_is_unknown() {
    let done = run_in(
        FunctionId::Func(4),
        vec![Edge::Call { next: 1 }, node(3, &["A"], &[], 2), Edge::Stop],
        0,
        None,
        false,
        64,
    );
    assert_eq!(
        done.res,
        Err(AnalyzeError::UnknownTaskId {
            id: "wf".to_string(),
            node: ProgramCounter { func_id: FunctionId::Func(4), edge_idx: 1 },
            task_id: 3,
        })
    );
}

#[test]
fn successor_out_of_range_is_reported() {
    let done = run(vec![Edge::Linear { next: 5 }]);
    assert_eq!(
        done.res,
        Err(AnalyzeError::UnknownEdgeIndex {
            id: "wf".to_string(),
            func_id: FunctionId::Main,
            edge_idx: 5,
            max: 1,
        })
    );
}

#[test]
fn empty_graph_has_no_first_edge() {
    let done = run(vec![]);
    assert_eq!(
        done.res,
        Err(AnalyzeError::UnknownEdgeIndex {
            id: "wf".to_string(),
            func_id: FunctionId::Main,
            edge_idx: 0,
            max: 0,
        })
    );
}

#[test]
fn breakpoint_ends_the_walk_before_the_edge_is_looked_up() {
    let done = run_in(FunctionId::Main, vec![], 9, Some(9), true, 64);
    assert_eq!(done.res, Ok(()));
    let stopped = run_in(
        FunctionId::Main,
        vec![node(0, &["A"], &[], 1), node(0, &[], &[], 2), Edge::Stop],
        0,
        Some(1),
        true,
        64,
    );
    assert_eq!(stopped.res, Ok(()));
    assert_eq!(stopped.tasks.len(), 1);
    assert_eq!(stopped.edges[1], node(0, &[], &[], 2));
}

#[test]
fn branch_without_merge_does_not_continue_past_the_arms() {
    let done = run(vec![
        Edge::Branch { true_next: 1, false_next: Some(2), merge: None },
        Edge::Return { result: names(&["x"]) },
        Edge::Return { result: names(&["y"]) },
        node(0, &["A", "B"], &[], 4),
        Edge::Stop,
    ]);
    assert_eq!(done.res, Ok(()));
    assert_eq!(done.results, names(&["x", "y"]));
    assert!(done.tasks.is_empty());
    assert_eq!(done.edges[3], node(0, &["A", "B"], &[], 4));
}

#[test]
fn branch_without_merge_and_without_false_arm_ends_with_the_true_arm() {
    let done = run(vec![
        Edge::Branch { true_next: 1, false_next: None, merge: None },
        Edge::Stop,
        node(1, &["A"], &[], 3),
        Edge::Stop,
    ]);
    assert_eq!(done.res, Ok(()));
    assert!(done.tasks.is_empty());
}

#[test]
fn branch_with_merge_walks_both_arms_and_continues() {
    let done = run(vec![
        Edge::Branch { true_next: 1, false_next: Some(2), merge: Some(3) },
        node(0, &["A"], &[], 3),
        node(2, &["B"], &[], 3),
        node(0, &["C"], &[], 4),
        Edge::Return { result: names(&["r"]) },
    ]);
    assert_eq!(done.res, Ok(()));
    assert_eq!(
        done.tasks,
        vec![
            call(FunctionId::Main, 1, "hello<1.0.0>::world", &[]),
            call(FunctionId::Main, 2, "copy<2.1.0>::run", &[]),
            call(FunctionId::Main, 3, "hello<1.0.0>::world", &[]),
        ]
    );
    assert_eq!(done.results, names(&["r"]));
}

#[test]
fn failure_in_the_true_arm_ends_the_walk() {
    let done = run(vec![
        Edge::Branch { true_next: 1, false_next: Some(2), merge: Some(3) },
        node(0, &[], &[], 3),
        node(2, &["B"], &[], 3),
        Edge::Stop,
    ]);
    assert!(matches!(done.res, Err(AnalyzeError::AmbiguousLocation { node_edge_idx: 1, .. })));
    assert!(done.tasks.is_empty());
    assert_eq!(done.edges[2], node(2, &["B"], &[], 3));
}

#[test]
fn return_inside_parallel_branch_is_no_result() {
    let done = run(vec![
        Edge::Parallel { branches: vec![1], merge: 2 },
        Edge::Return { result: names(&["x"]) },
        Edge::Join { next: 3 },
        Edge::Stop,
    ]);
    assert_eq!(done.res, Ok(()));
    assert!(done.results.is_empty());
}

#[test]
fn return_after_join_is_a_result() {
    let done = run(vec![
        Edge::Parallel { branches: vec![1, 3], merge: 4 },
        node(0, &["A"], &[], 2),
        Edge::Return { result: names(&["hidden"]) },
        node(2, &["B"], &[], 4),
        Edge::Join { next: 5 },
        Edge::Return { result: names(&["y", "z"]) },
    ]);
    assert_eq!(done.res, Ok(()));
    assert_eq!(done.results, names(&["y", "z"]));
    assert_eq!(
        done.tasks,
        vec![
            call(FunctionId::Main, 1, "hello<1.0.0>::world", &[]),
            call(FunctionId::Main, 3, "copy<2.1.0>::run", &[]),
        ]
    );
}

#[test]
fn parallel_without_branches_continues_at_the_merge() {
    let done = run(vec![
        Edge::Parallel { branches: vec![], merge: 1 },
        Edge::Join { next: 2 },
        Edge::Return { result: names(&["x"]) },
    ]);
    assert_eq!(done.res, Ok(()));
    assert_eq!(done.results, names(&["x"]));
}

#[test]
fn failure_in_a_parallel_branch_ends_the_walk() {
    let done = run(vec![
        Edge::Parallel { branches: vec![1, 2], merge: 3 },
        node(0, &["A"], &[], 3),
        node(1, &["B"], &[], 3),
        Edge::Join { next: 4 },
        Edge::Stop,
    ]);
    assert!(matches!(done.res, Err(AnalyzeError::IllegalTransferTask { .. })));
    assert_eq!(done.tasks.len(), 1);
    assert_eq!(done.edges[1], planned(0, "A", &[], 3));
}

#[test]
fn top_level_return_is_the_result() {
    let done = run(vec![Edge::Return { result: names(&["x"]) }]);
    assert_eq!(done.res, Ok(()));
    assert_eq!(done.results, names(&["x"]));
}

#[test]
fn return_below_the_top_level_is_no_result() {
    let done = run_in(
        FunctionId::Func(0),
        vec![Edge::Return { result: names(&["x"]) }],
        0,
        None,
        false,
        64,
    );
    assert_eq!(done.res, Ok(()));
    assert!(done.results.is_empty());
}

#[test]
fn loop_walks_condition_and_body_once() {
    let done = run(vec![
        Edge::Loop { cond: 1, body: 3, next: Some(5) },
        node(0, &["A"], &[], 2),
        Edge::Branch { true_next: 3, false_next: Some(5), merge: None },
        node(2, &["B"], &[], 4),
        Edge::Linear { next: 1 },
        Edge::Return { result: names(&["out"]) },
    ]);
    assert_eq!(done.res, Ok(()));
    assert_eq!(
        done.tasks,
        vec![
            call(FunctionId::Main, 1, "hello<1.0.0>::world", &[]),
            call(FunctionId::Main, 3, "copy<2.1.0>::run", &[]),
        ]
    );
    assert_eq!(done.results, names(&["out"]));
}

#[test]
fn loop_without_successor_ends_the_path() {
    let done = run(vec![
        Edge::Loop { cond: 1, body: 2, next: None },
        Edge::Linear { next: 1 },
        Edge::Linear { next: 1 },
        node(0, &[], &[], 0),
    ]);
    assert_eq!(done.res, Ok(()));
    assert!(done.tasks.is_empty());
}

#[test]
fn loop_whose_body_starts_the_graph_has_no_stop_for_its_condition() {
    let done = run_in(
        FunctionId::Main,
        vec![Edge::Stop, Edge::Loop { cond: 2, body: 0, next: None }, Edge::Stop],
        1,
        None,
        true,
        64,
    );
    assert_eq!(done.res, Ok(()));
}

#[test]
fn call_and_join_only_advance() {
    let done = run(vec![
        Edge::Call { next: 1 },
        Edge::Join { next: 2 },
        Edge::Linear { next: 3 },
        Edge::Stop,
    ]);
    assert_eq!(done.res, Ok(()));
    assert!(done.tasks.is_empty());
    assert!(done.results.is_empty());
}

#[test]
fn endless_path_runs_into_the_limit() {
    let done = run_in(FunctionId::Main, vec![Edge::Linear { next: 0 }], 0, None, true, 10);
    assert_eq!(
        done.res,
        Err(AnalyzeError::PathLimitExceeded {
            id: "wf".to_string(),
            node: ProgramCounter { func_id: FunctionId::Main, edge_idx: 0 },
        })
    );
}

#[test]
fn limit_counts_the_edges_of_a_path() {
    let edges = vec![Edge::Linear { next: 1 }, Edge::Stop];
    assert_eq!(run_in(FunctionId::Main, edges.clone(), 0, None, true, 2).res, Ok(()));
    assert_eq!(
        run_in(FunctionId::Main, edges, 0, None, true, 1).res,
        Err(AnalyzeError::PathLimitExceeded {
            id: "wf".to_string(),
            node: ProgramCounter { func_id: FunctionId::Main, edge_idx: 1 },
        })
    );
    assert!(matches!(
        run_in(FunctionId::Main, vec![Edge::Stop], 0, None, true, 0).res,
        Err(AnalyzeError::PathLimitExceeded { .. })
    ));
}

#[test]
fn limit_counts_nested_arms_from_the_branch() {
    let edges = vec![
        Edge::Branch { true_next: 1, false_next: None, merge: Some(2) },
        Edge::Linear { next: 2 },
        Edge::Stop,
    ];
    assert_eq!(run_in(FunctionId::Main, edges.clone(), 0, None, true, 2).res, Ok(()));
    assert!(matches!(
        run_in(FunctionId::Main, edges, 0, None, true, 1).res,
        Err(AnalyzeError::PathLimitExceeded { .. })
    ));
}

#[test]
fn forward_graph_fits_a_limit_of_its_length() {
    let edges = vec![
        Edge::Branch { true_next: 1, false_next: Some(2), merge: Some(3) },
        node(0, &["A"], &[], 3),
        node(2, &["B"], &[], 3),
        Edge::Parallel { branches: vec![4, 5], merge: 6 },
        node(0, &["C"], &[], 6),
        Edge::Linear { next: 6 },
        Edge::Join { next: 7 },
        Edge::Return { result: names(&["r"]) },
    ];
    let limit = edges.len();
    let done = run_in(FunctionId::Main, edges, 0, None, true, limit);
    assert_eq!(done.res, Ok(()));
    assert_eq!(done.tasks.len(), 3);
}

#[test]
fn failure_keeps_what_was_done_before_it() {
    let done = run(vec![node(0, &["A"], &["d"], 1), node(2, &["A", "B"], &[], 2), Edge::Stop]);
    assert!(matches!(done.res, Err(AnalyzeError::AmbiguousLocation { node_edge_idx: 1, .. })));
    assert_eq!(done.edges[0], planned(0, "A", &["d"], 1));
    assert_eq!(done.tasks, vec![call(FunctionId::Main, 0, "hello<1.0.0>::world", &["d"])]);
}

#[test]
fn walk_appends_to_what_the_collections_hold() {
    let mut edges = vec![node(0, &["A"], &[], 1), Edge::Return { result: names(&["new"]) }];
    let mut tasks = vec![call(FunctionId::Func(1), 4, "earlier<0.0.1>::call", &["e"])];
    let mut results = names(&["old"]);
    let res = analyze_wir_and_trivially_plan(
        "wf",
        &table(),
        FunctionId::Main,
        &mut edges,
        0,
        None,
        true,
        64,
        &mut tasks,
        &mut results,
    );
    assert_eq!(res, Ok(()));
    assert_eq!(
        tasks,
        vec![
            call(FunctionId::Func(1), 4, "earlier<0.0.1>::call", &["e"]),
            call(FunctionId::Main, 0, "hello<1.0.0>::world", &[]),
        ]
    );
    assert_eq!(results, names(&["old", "new"]));
}

#[test]
fn analysis_of_a_planned_graph_changes_nothing() {
    let first = run(vec![
        Edge::Branch { true_next: 1, false_next: Some(2), merge: Some(3) },
        node(0, &["A"], &["a"], 3),
        node(2, &["B"], &[], 3),
        Edge::Return { result: names(&["r"]) },
    ]);
    assert_eq!(first.res, Ok(()));
    let second = run(first.edges.clone());
    assert_eq!(second.res, Ok(()));
    assert_eq!(second.edges, first.edges);
    assert_eq!(second.tasks, first.tasks);
    assert_eq!(second.results, first.results);
}

#[test]
fn assigned_location_is_set_to_the_single_candidate() {
    let edges = vec![
        Edge::Node {
            task: 0,
            locs: Locations::Restricted(names(&["A"])),
            at: Some("elsewhere".to_string()),
            input: vec![],
            next: 1,
        },
        Edge::Stop,
    ];
    let done = run(edges);
    assert_eq!(done.res, Ok(()));
    assert_eq!(done.edges[0], planned(0, "A", &[], 1));
}

#[test]
fn copy_names_copies_in_order() {
    assert_eq!(copy_names(&names(&["b", "a", "b"])), names(&["b", "a", "b"]));
    assert_eq!(copy_names(&Vec::new()), Vec::<String>::new());
}

#[test]
fn append_names_appends_in_order() {
    let mut target = names(&["x"]);
    append_names(&mut target, &names(&["y", "z"]));
    assert_eq!(target, names(&["x", "y", "z"]));
    append_names(&mut target, &Vec::new());
    assert_eq!(target, names(&["x", "y", "z"]));
}
