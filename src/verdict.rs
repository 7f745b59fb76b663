//! Verdicts of judged testcases and submissions.

use vstd::prelude::*;

verus! {

/// Verdict of a testcase or of a whole submission.
#[derive(Debug, Clone, Copy, PartialEq, Eq, Structural)]
pub enum Verdict {
    Accepted,
    WrongAnswer,
    TimeLimitExceeded,
    MemoryLimitExceeded,
    RuntimeError,
    SystemError,
    CompileError,
    Skipped,
    PresentationError,
    Fail,
}

impl Verdict {
    /// The name under which the verdict is published.
    pub open spec fn name(self) -> Seq<char> {
        match self {
            Verdict::Accepted => "accepted"@,
            Verdict::WrongAnswer => "wrong_answer"@,
            Verdict::TimeLimitExceeded => "time_limit_exceeded"@,
            Verdict::MemoryLimitExceeded => "memory_limit_exceeded"@,
            Verdict::RuntimeError => "runtime_error"@,
            Verdict::SystemError => "system_error"@,
            Verdict::CompileError => "compile_error"@,
            Verdict::Skipped => "skipped"@,
            Verdict::PresentationError => "presentation_error"@,
            Verdict::Fail => "fail"@,
        }
    }

    pub fn as_str(&self) -> (r: &'static str)
        ensures
            r@ == self.name(),
    {
        match self {
            Verdict::Accepted => "accepted",
            Verdict::WrongAnswer => "wrong_answer",
            Verdict::TimeLimitExceeded => "time_limit_exceeded",
            Verdict::MemoryLimitExceeded => "memory_limit_exceeded",
            Verdict::RuntimeError => "runtime_error",
            Verdict::SystemError => "system_error",
            Verdict::CompileError => "compile_error",
            Verdict::Skipped => "skipped",
            Verdict::PresentationError => "presentation_error",
            Verdict::Fail => "fail",
        }
    }

    /// The published name, as an owned string.
    pub fn to_string(&self) -> (r: String)
        ensures
            r@ == self.name(),
    {
        self.as_str().to_owned()
    }
}

} // verus!
