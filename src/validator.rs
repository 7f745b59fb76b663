//! Testcase validation: a validator program accepts or rejects each input.

use vstd::prelude::*;
use crate::compiler::ValidatorCompiler;
use crate::text::{chars_of, string_from_chars, trim, trim_range};

verus! {

/// A request to validate the inputs of a problem.
#[derive(Debug)]
pub struct ValidateJob {
    pub problem_id: i64,
    /// Validator source path in storage.
    pub validator_path: String,
    pub testcase_inputs: Vec<TestcaseInput>,
}

/// A testcase input to validate.
#[derive(Debug)]
pub struct TestcaseInput {
    pub id: i64,
    pub input_path: String,
}

/// Whether one input is valid, with the validator's reason.
#[derive(Debug)]
pub struct TestcaseValidationResult {
    pub testcase_id: i64,
    pub valid: bool,
    pub message: Option<String>,
}

/// The validation of all inputs of a problem.
#[derive(Debug)]
pub struct ValidateResult {
    pub problem_id: i64,
    /// Whether every input is valid.
    pub success: bool,
    pub testcase_results: Vec<TestcaseValidationResult>,
    pub error_message: Option<String>,
}

/// Time a validator may run, in seconds.
pub const DEFAULT_VALIDATOR_TIMEOUT_SECS: u64 = 30;

/// `text` without white space at its ends, or nothing when `text` is empty.
pub fn trimmed_message(text: &str) -> (r: Option<String>)
    ensures
        match r {
            None => text@.len() == 0,
            Some(m) => text@.len() > 0 && m@ == trim(text@),
        },
{
    let cs = chars_of(text);
    if cs.len() == 0 {
        return None;
    }
    let t = trim_range(&cs, 0, cs.len());
    proof {
        assert(cs@.subrange(0, cs.len() as int) == cs@);
    }
    Some(string_from_chars(t.as_slice()))
}

/// The validation of one input from the validator's exit code and error output: valid
/// exactly on exit code 0, with the trimmed error output as the reason.
pub fn validation_of_run(testcase_id: i64, exit_code: i32, stderr: &str) -> (r: TestcaseValidationResult)
    ensures
        r.testcase_id == testcase_id,
        r.valid == (exit_code == 0),
        match r.message {
            None => stderr@.len() == 0,
            Some(m) => stderr@.len() > 0 && m@ == trim(stderr@),
        },
{
    TestcaseValidationResult {
        testcase_id,
        valid: exit_code == 0,
        message: trimmed_message(stderr),
    }
}

/// An input that could not be validated (its download or the validator failed).
pub fn validation_failure(testcase_id: i64, message: String) -> (r: TestcaseValidationResult)
    ensures
        r.testcase_id == testcase_id,
        !r.valid,
        r.message == Some(message),
{
    TestcaseValidationResult { testcase_id, valid: false, message: Some(message) }
}

/// The validation of a problem: successful exactly when every input is valid.
pub fn finish_validation(problem_id: i64, results: Vec<TestcaseValidationResult>) -> (r: ValidateResult)
    ensures
        r.problem_id == problem_id,
        r.success == forall|i: int| 0 <= i < results@.len() ==> (#[trigger] results@[i]).valid,
        r.testcase_results == results,
        r.error_message is None,
{
    let mut all_valid = true;
    let mut i: usize = 0;
    while i < results.len()
        invariant
            i <= results.len(),
            all_valid == forall|j: int| 0 <= j < i ==> (#[trigger] results@[j]).valid,
        decreases results.len() - i,
    {
        if !results[i].valid {
            all_valid = false;
        }
        i = i + 1;
    }
    ValidateResult { problem_id, success: all_valid, testcase_results: results, error_message: None }
}

/// A validation that ended before any input was checked.
pub fn validation_aborted(problem_id: i64, message: String) -> (r: ValidateResult)
    ensures
        r.problem_id == problem_id,
        !r.success,
        r.testcase_results@.len() == 0,
        r.error_message == Some(message),
{
    ValidateResult { problem_id, success: false, testcase_results: Vec::new(), error_message: Some(message) }
}

/// Compiles and caches the validators of problems.
#[derive(Debug, Clone)]
pub struct ValidatorManager {
    pub compiler: ValidatorCompiler,
}

impl ValidatorManager {
    pub fn new(testlib_path: String) -> (r: Self)
        ensures
            r.compiler.testlib_path == testlib_path,
            r.compiler.cache_dir@ == "/tmp/validator_cache"@,
    {
        ValidatorManager { compiler: ValidatorCompiler::new(testlib_path) }
    }
}

} // verus!
