use vstd::prelude::*;
use crate::text::str_eq;

verus! {

broadcast use vstd::string::group_string_axioms;

/// Classification of one crashtest execution.
pub enum CrashtestResult {
    /// The target process exited successfully within the time budget.
    Passed,
    /// The URL's scheme is not one the runner understands; nothing ran.
    Skipped,
    /// The time budget elapsed and the process was terminated by force.
    Timeout { stdout: String, stderr: String },
    /// The process exited with a failure status or died on a signal.
    Crashed { stdout: String, stderr: String },
}

/// A fully determined process invocation: program path, argument list,
/// and extra environment variables, in order.
pub struct CommandSpec {
    pub program: String,
    pub args: Vec<String>,
    pub env: Vec<(String, String)>,
}

/// The hard wall-clock ceiling, in seconds, that a spawned crashtest
/// process may run before it is forcibly terminated and classified as
/// a timeout. The one number of the execution protocol.
pub fn timeout_seconds() -> (r: u64)
    ensures
        r == 20,
{
    20
}

/// Classifies how a spawned crashtest process ended.
///
/// `exit_success` is `Some(true)` for a successful exit within the time
/// budget, `Some(false)` for a failure status or abnormal termination,
/// and `None` when the budget elapsed first. Captured output is kept
/// only for the timeout and crash outcomes.
pub fn classify_outcome(exit_success: Option<bool>, stdout: String, stderr: String) -> (r:
    CrashtestResult)
    ensures
        exit_success == Some(true) ==> r is Passed,
        exit_success == Some(false) ==> (r matches CrashtestResult::Crashed { stdout: so, stderr: se }
            && so@ == stdout@ && se@ == stderr@),
        exit_success is None ==> (r matches CrashtestResult::Timeout { stdout: so, stderr: se }
            && so@ == stdout@ && se@ == stderr@),
{
    match exit_success {
        Some(true) => CrashtestResult::Passed,
        Some(false) => CrashtestResult::Crashed { stdout, stderr },
        None => CrashtestResult::Timeout { stdout, stderr },
    }
}

/// The report prefix that announces each classification.
pub open spec fn report_prefix_spec(r: CrashtestResult) -> Seq<char> {
    match r {
        CrashtestResult::Passed => "OK: "@,
        CrashtestResult::Skipped => "SKIP: "@,
        CrashtestResult::Timeout { .. } => "TIMEOUT: "@,
        CrashtestResult::Crashed { .. } => "CRASHED: "@,
    }
}

/// One self-contained report line for a completed test.
pub fn report_line(r: &CrashtestResult, url: &str) -> (line: String)
    ensures
        line@ == report_prefix_spec(*r) + url@,
{
    let mut s = match r {
        CrashtestResult::Passed => String::from_str("OK: "),
        CrashtestResult::Skipped => String::from_str("SKIP: "),
        CrashtestResult::Timeout { .. } => String::from_str("TIMEOUT: "),
        CrashtestResult::Crashed { .. } => String::from_str("CRASHED: "),
    };
    s.append(url);
    s
}

/// The engines whose test corpus can be enumerated.
pub enum SourceEngine {
    Gecko,
    Blink,
}

/// The engines a discovered test can be replayed against.
pub enum TargetEngine {
    Gecko,
    Blink,
    Webkit,
}

/// Maps a configuration name to the source engine it selects.
pub fn parse_source_engine(name: &str) -> (r: Option<SourceEngine>)
    ensures
        name@ == "gecko"@ ==> r == Some(SourceEngine::Gecko),
        name@ == "blink"@ ==> r == Some(SourceEngine::Blink),
        name@ != "gecko"@ && name@ != "blink"@ ==> r is None,
{
    proof {
        reveal_strlit("gecko");
        reveal_strlit("blink");
        assert("gecko"@[0] != "blink"@[0]);
    }
    if str_eq(name, "gecko") {
        Some(SourceEngine::Gecko)
    } else if str_eq(name, "blink") {
        Some(SourceEngine::Blink)
    } else {
        None
    }
}

/// Maps a configuration name to the target engine it selects.
pub fn parse_target_engine(name: &str) -> (r: Option<TargetEngine>)
    ensures
        name@ == "gecko"@ ==> r == Some(TargetEngine::Gecko),
        name@ == "blink"@ ==> r == Some(TargetEngine::Blink),
        name@ == "webkit"@ ==> r == Some(TargetEngine::Webkit),
        name@ != "gecko"@ && name@ != "blink"@ && name@ != "webkit"@ ==> r is None,
{
    proof {
        reveal_strlit("gecko");
        reveal_strlit("blink");
        reveal_strlit("webkit");
        assert("gecko"@[0] != "blink"@[0]);
        assert("gecko"@[0] != "webkit"@[0]);
        assert("blink"@[0] != "webkit"@[0]);
    }
    if str_eq(name, "gecko") {
        Some(TargetEngine::Gecko)
    } else if str_eq(name, "blink") {
        Some(TargetEngine::Blink)
    } else if str_eq(name, "webkit") {
        Some(TargetEngine::Webkit)
    } else {
        None
    }
}

} // verus!
