//! Interpretation of a comparator (checker) run.

use vstd::prelude::*;
use crate::compiler::CheckerCompiler;
use crate::executer::ExecutionLimits;
use crate::text::trim;
use crate::verdict::Verdict;

verus! {

/// Verdict that a testlib-style comparator reports through its exit code:
/// 0 ok, 1 wrong answer, 2 presentation error, 3 fail, 4 extra output, 8 unexpected end of file.
pub open spec fn checker_verdict(code: i32) -> Verdict {
    if code == 0 {
        Verdict::Accepted
    } else if code == 1 || code == 4 || code == 8 {
        Verdict::WrongAnswer
    } else if code == 2 {
        Verdict::PresentationError
    } else if code == 3 {
        Verdict::Fail
    } else if code < 0 || code > 127 {
        Verdict::SystemError
    } else {
        Verdict::WrongAnswer
    }
}

/// Maps a comparator's exit code to a verdict.
pub fn exit_code_to_verdict(exit_code: i32) -> (r: Verdict)
    ensures
        r == checker_verdict(exit_code),
{
    match exit_code {
        0 => Verdict::Accepted,
        1 => Verdict::WrongAnswer,
        2 => Verdict::PresentationError,
        3 => Verdict::Fail,
        4 => Verdict::WrongAnswer,
        8 => Verdict::WrongAnswer,
        _ => {
            if exit_code < 0 || exit_code > 127 {
                Verdict::SystemError
            } else {
                Verdict::WrongAnswer
            }
        },
    }
}

/// What a comparator run decided.
#[derive(Debug)]
pub struct CheckerResult {
    pub verdict: Verdict,
    pub message: Option<String>,
}

/// Time a comparator may run, in seconds.
pub const DEFAULT_CHECKER_TIMEOUT_SECS: u64 = 30;

/// The comparator's verdict and its message: the trimmed error output, else the trimmed
/// output, else nothing.
pub fn checker_result(exit_code: i32, stdout: &str, stderr: &str) -> (r: CheckerResult)
    ensures
        r.verdict == checker_verdict(exit_code),
        stderr@.len() > 0 ==> (r.message matches Some(m) && m@ == trim(stderr@)),
        stderr@.len() == 0 && stdout@.len() > 0 ==> (r.message matches Some(m) && m@ == trim(
            stdout@,
        )),
        stderr@.len() == 0 && stdout@.len() == 0 ==> r.message is None,
{
    let message = if !stderr.is_empty() {
        crate::validator::trimmed_message(stderr)
    } else {
        crate::validator::trimmed_message(stdout)
    };
    CheckerResult { verdict: exit_code_to_verdict(exit_code), message }
}

/// Limits of a sandboxed comparator run: at least ten seconds, and 1 GiB.
pub fn checker_limits(timeout_secs: u64) -> (r: ExecutionLimits)
    requires
        timeout_secs * 1000 <= u32::MAX,
    ensures
        r.time_ms == if timeout_secs * 1000 > 10000 {
            timeout_secs * 1000
        } else {
            10000
        },
        r.memory_mb == 1024,
{
    let ms = timeout_secs * 1000;
    ExecutionLimits {
        time_ms: if ms > 10000 {
            ms as u32
        } else {
            10000
        },
        memory_mb: 1024,
    }
}

/// The comparator's command line, on files staged under standard names:
/// `./checker input.txt output.txt answer.txt`.
pub fn checker_command() -> (r: Vec<String>)
    ensures
        r@.len() == 4,
        r@[0]@ == "./checker"@,
        r@[1]@ == "input.txt"@,
        r@[2]@ == "output.txt"@,
        r@[3]@ == "answer.txt"@,
{
    let mut r: Vec<String> = Vec::new();
    r.push("./checker".to_owned());
    r.push("input.txt".to_owned());
    r.push("output.txt".to_owned());
    r.push("answer.txt".to_owned());
    r
}

/// Compiles and caches the comparators of problems.
#[derive(Debug, Clone)]
pub struct CheckerManager {
    pub compiler: CheckerCompiler,
}

impl CheckerManager {
    pub fn new(testlib_path: String) -> (r: Self)
        ensures
            r.compiler.testlib_path == testlib_path,
            r.compiler.cache_dir@ == "/tmp/checker_cache"@,
    {
        CheckerManager { compiler: CheckerCompiler::new(testlib_path) }
    }
}

} // verus!
