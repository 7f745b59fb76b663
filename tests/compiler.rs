use judge::compiler::{
    cache_dir, cached_binary_path, cached_source_path, compile_result_of, need_compile,
    no_compilation, trusted_compile_command, trusted_compile_result, TrustedKind,
};
use judge::executer::{ExecutionOutcome, ExecutionStatus};

fn outcome(status: ExecutionStatus, stdout: &str, stderr: &str) -> ExecutionOutcome {
    ExecutionOutcome {
        status,
        time_ms: 0,
        memory_kb: 0,
        stdout: stdout.to_string(),
        stdout_bytes: stdout.as_bytes().to_vec(),
        stderr: stderr.to_string(),
    }
}

#[test]
fn compile_messages() {
    let r = compile_result_of(outcome(ExecutionStatus::Exited(0), "warn", ""));
    assert!(r.success);
    assert_eq!(r.message, None);
    let r = compile_result_of(outcome(ExecutionStatus::Exited(1), "out", "main.c:1: error"));
    assert_eq!(r.message.as_deref(), Some("main.c:1: error"));
    let r = compile_result_of(outcome(ExecutionStatus::Exited(1), "out", ""));
    assert_eq!(r.message.as_deref(), Some("out"));
    let r = compile_result_of(outcome(ExecutionStatus::Exited(-2), "", ""));
    assert_eq!(r.message.as_deref(), Some("Compilation failed with exit code -2"));
    let r = compile_result_of(outcome(ExecutionStatus::TimeLimitExceeded, "", ""));
    assert_eq!(r.message.as_deref(), Some("Compilation timed out"));
    let r = compile_result_of(outcome(ExecutionStatus::Signaled(9), "", ""));
    assert_eq!(r.message.as_deref(), Some("Compiler crashed"));
    let r = compile_result_of(outcome(ExecutionStatus::MemoryLimitExceeded, "", ""));
    assert_eq!(r.message.as_deref(), Some("Compilation failed"));
    assert!(no_compilation().success);
}

#[test]
fn trusted_compilation() {
    let cmd = trusted_compile_command("/c/checker", "/c/checker.cpp", &vec!["/app/files".to_string()]);
    assert_eq!(cmd, vec!["g++", "-O2", "-std=c++17", "-o", "/c/checker", "/c/checker.cpp", "-I/app/files"]);
    let r = trusted_compile_result(outcome(ExecutionStatus::Exited(1), "", "error"));
    assert!(!r.success);
    assert_eq!(r.exit_code, 1);
    assert_eq!(r.stderr, "error");
}

#[test]
fn cache_paths() {
    assert_eq!(cache_dir(TrustedKind::Checker, 12), "/tmp/checker_cache/checker_12");
    assert_eq!(cached_source_path(TrustedKind::Validator, 3), "/tmp/validator_cache/validator_3/validator.cpp");
    assert_eq!(cached_binary_path(TrustedKind::Checker, -1), "/tmp/checker_cache/checker_-1/checker");
}

#[test]
fn identical_source_builds_once() {
    let src = "int main() {}";
    // empty cache: the first request builds
    assert!(need_compile(false, None, src));
    // afterwards the cache holds the source and the binary
    assert!(!need_compile(true, Some(src), src));
    assert_eq!(cached_binary_path(TrustedKind::Checker, 5), cached_binary_path(TrustedKind::Checker, 5));
    // a changed source or a missing file builds again
    assert!(need_compile(true, Some("old"), src));
    assert!(need_compile(true, None, src));
}
