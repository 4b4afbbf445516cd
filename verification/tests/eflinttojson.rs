use policy_reasoner_client_backend::eflinttojson::{
    eflint_to_json_result, CompilerRun, COMPILER_PATH,
};

#[test]
fn compiler_is_found_beside_the_service() {
    assert_eq!(COMPILER_PATH, "./bin/eflint-to-json");
}

#[test]
fn output_of_a_successful_run_is_handed_back() {
    assert_eq!(
        eflint_to_json_result(CompilerRun::Succeeded { stdout: Ok("{\"phrases\":[]}".to_string()) }),
        Ok("{\"phrases\":[]}".to_string())
    );
}

#[test]
fn unreadable_output_is_a_failure() {
    assert_eq!(
        eflint_to_json_result(CompilerRun::Succeeded { stdout: Err("Kind(InvalidData)".to_string()) }),
        Err("<failed to read output stream:Kind(InvalidData)>".to_string())
    );
}

#[test]
fn error_stream_of_a_failed_run_is_quoted() {
    assert_eq!(
        eflint_to_json_result(CompilerRun::Failed { stderr: Ok("bad \"x\"\n".to_string()) }),
        Err("\"bad \\\"x\\\"\\n\"".to_string())
    );
    assert_eq!(
        eflint_to_json_result(CompilerRun::Failed { stderr: Ok(String::new()) }),
        Err("\"\"".to_string())
    );
}

#[test]
fn unreadable_error_stream_is_a_failure() {
    assert_eq!(
        eflint_to_json_result(CompilerRun::Failed { stderr: Err("Kind(InvalidData)".to_string()) }),
        Err("<failed to read err stream:Kind(InvalidData)>".to_string())
    );
}

#[test]
fn failures_of_the_system_are_described() {
    assert_eq!(
        eflint_to_json_result(CompilerRun::SpawnFailed { cause: "Os { code: 2 }".to_string() }),
        Err("Os { code: 2 }".to_string())
    );
    assert_eq!(
        eflint_to_json_result(CompilerRun::WriteFailed { cause: "Os { code: 32 }".to_string() }),
        Err("Could not write to stdin: Os { code: 32 }".to_string())
    );
    assert_eq!(
        eflint_to_json_result(CompilerRun::WaitFailed { cause: "Os { code: 10 }".to_string() }),
        Err("Os { code: 10 }".to_string())
    );
}
