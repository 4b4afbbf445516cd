//! The conversion of eFLINT text to JSON by a compiler that runs as a
//! process of its own: what the caller is handed for each way a run can go.

use vstd::prelude::*;

verus! {

/// Where the compiler is found.
pub const COMPILER_PATH: &'static str = "./bin/eflint-to-json";

/// How a run of the compiler went. A failure of the system is held as the
/// text that describes it.
#[derive(Debug, PartialEq, Eq)]
pub enum CompilerRun {
    /// The compiler could not be started.
    SpawnFailed { cause: String },
    /// The input could not be written to the compiler.
    WriteFailed { cause: String },
    /// The end of the compiler could not be waited for.
    WaitFailed { cause: String },
    /// The compiler ended in failure; `stderr` is what it wrote to its error
    /// stream, or why that could not be read.
    Failed { stderr: Result<String, String> },
    /// The compiler ended in success; `stdout` is what it wrote to its
    /// output, or why that could not be read.
    Succeeded { stdout: Result<String, String> },
}

/// The text in the form that shows it to a developer: in double quotes, with
/// the characters that need it escaped.
pub uninterp spec fn debug_form(text: Seq<char>) -> Seq<char>;

/// `Debug` of `str`, through `format!`: the quoted form depends on the text
/// alone.
#[verifier::external_body]
fn debug_quoted(text: &str) -> (res: String)
    ensures
        res@ == debug_form(text@),
{
    format!("{:?}", text)
}

/// What the caller is handed for each way a run of the compiler can go: the
/// output of a run that succeeded, and for every other run the description
/// of what went wrong.
pub open spec fn run_result(run: CompilerRun) -> Result<Seq<char>, Seq<char>> {
    match run {
        CompilerRun::SpawnFailed { cause } => Err(cause@),
        CompilerRun::WriteFailed { cause } => Err("Could not write to stdin: "@ + cause@),
        CompilerRun::WaitFailed { cause } => Err(cause@),
        CompilerRun::Failed { stderr } => match stderr {
            Ok(text) => Err(debug_form(text@)),
            Err(cause) => Err("<failed to read err stream:"@ + cause@ + ">"@),
        },
        CompilerRun::Succeeded { stdout } => match stdout {
            Ok(text) => Ok(text@),
            Err(cause) => Err("<failed to read output stream:"@ + cause@ + ">"@),
        },
    }
}

/// Decides what the caller is handed for a run of the compiler.
pub fn eflint_to_json_result(run: CompilerRun) -> (res: Result<String, String>)
    ensures
        match res {
            Ok(text) => run_result(run) == Ok::<Seq<char>, Seq<char>>(text@),
            Err(text) => run_result(run) == Err::<Seq<char>, Seq<char>>(text@),
        },
{
    match run {
        CompilerRun::SpawnFailed { cause } => Err(cause),
        CompilerRun::WriteFailed { cause } => {
            let mut res = "Could not write to stdin: ".to_owned();
            res.append(cause.as_str());
            Err(res)
        },
        CompilerRun::WaitFailed { cause } => Err(cause),
        CompilerRun::Failed { stderr } => match stderr {
            Ok(text) => Err(debug_quoted(text.as_str())),
            Err(cause) => {
                let mut res = "<failed to read err stream:".to_owned();
                res.append(cause.as_str());
                res.append(">");
                Err(res)
            },
        },
        CompilerRun::Succeeded { stdout } => match stdout {
            Ok(text) => Ok(text),
            Err(cause) => {
                let mut res = "<failed to read output stream:".to_owned();
                res.append(cause.as_str());
                res.append(">");
                Err(res)
            },
        },
    }
}

} // verus!
