use judge::checker::{checker_command, checker_limits, checker_result, exit_code_to_verdict};
use judge::verdict::Verdict;

#[test]
fn test_exit_code_to_verdict() {
    assert_eq!(exit_code_to_verdict(0), Verdict::Accepted);
    assert_eq!(exit_code_to_verdict(1), Verdict::WrongAnswer);
    assert_eq!(exit_code_to_verdict(2), Verdict::PresentationError);
    assert_eq!(exit_code_to_verdict(3), Verdict::Fail);
    assert_eq!(exit_code_to_verdict(4), Verdict::WrongAnswer);
}

#[test]
fn test_verdict_display() {
    assert_eq!(Verdict::Accepted.to_string(), "accepted");
    assert_eq!(Verdict::WrongAnswer.to_string(), "wrong_answer");
    assert_eq!(Verdict::TimeLimitExceeded.to_string(), "time_limit_exceeded");
}

#[test]
fn checker_test_exit_code_to_verdict() {
    assert_eq!(exit_code_to_verdict(0), Verdict::Accepted);
    assert_eq!(exit_code_to_verdict(1), Verdict::WrongAnswer);
    assert_eq!(exit_code_to_verdict(2), Verdict::PresentationError);
    assert_eq!(exit_code_to_verdict(3), Verdict::Fail);
    assert_eq!(exit_code_to_verdict(4), Verdict::WrongAnswer);
}

#[test]
fn checker_test_verdict_display() {
    assert_eq!(Verdict::Accepted.to_string(), "accepted");
    assert_eq!(Verdict::WrongAnswer.to_string(), "wrong_answer");
    assert_eq!(Verdict::TimeLimitExceeded.to_string(), "time_limit_exceeded");
}

#[test]
fn exit_codes_outside_the_table() {
    assert_eq!(exit_code_to_verdict(8), Verdict::WrongAnswer);
    assert_eq!(exit_code_to_verdict(5), Verdict::WrongAnswer);
    assert_eq!(exit_code_to_verdict(127), Verdict::WrongAnswer);
    assert_eq!(exit_code_to_verdict(128), Verdict::SystemError);
    assert_eq!(exit_code_to_verdict(-1), Verdict::SystemError);
}

#[test]
fn every_verdict_name() {
    assert_eq!(Verdict::MemoryLimitExceeded.as_str(), "memory_limit_exceeded");
    assert_eq!(Verdict::RuntimeError.as_str(), "runtime_error");
    assert_eq!(Verdict::SystemError.as_str(), "system_error");
    assert_eq!(Verdict::CompileError.as_str(), "compile_error");
    assert_eq!(Verdict::Skipped.as_str(), "skipped");
    assert_eq!(Verdict::PresentationError.as_str(), "presentation_error");
    assert_eq!(Verdict::Fail.as_str(), "fail");
}

#[test]
fn checker_message_prefers_error_output() {
    let r = checker_result(1, "out", "  wrong at line 3 \n");
    assert_eq!(r.verdict, Verdict::WrongAnswer);
    assert_eq!(r.message.as_deref(), Some("wrong at line 3"));
    let r = checker_result(0, " ok 1 number\n", "");
    assert_eq!(r.verdict, Verdict::Accepted);
    assert_eq!(r.message.as_deref(), Some("ok 1 number"));
    let r = checker_result(2, "", "");
    assert_eq!(r.verdict, Verdict::PresentationError);
    assert_eq!(r.message, None);
}

#[test]
fn checker_runs_at_least_ten_seconds() {
    assert_eq!(checker_limits(30).time_ms, 30000);
    assert_eq!(checker_limits(3).time_ms, 10000);
    assert_eq!(checker_limits(3).memory_mb, 1024);
    assert_eq!(checker_command(), vec!["./checker", "input.txt", "output.txt", "answer.txt"]);
}
