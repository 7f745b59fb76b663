use judge::anigma::{
    archive_score, archive_testcase_result, archive_testcase_verdict, bounded_edit_distance,
    canonical_source_text, edit_distance, has_makefile, task1_outcome, task1_result,
    AnigmaJudgeResult, Task1Outcome,
};
use judge::executer::{ExecutionOutcome, ExecutionStatus};
use judge::verdict::Verdict;

fn run(status: ExecutionStatus, stdout: &str, time_ms: u32, memory_kb: u32) -> ExecutionOutcome {
    ExecutionOutcome {
        status,
        time_ms,
        memory_kb,
        stdout: stdout.to_string(),
        stdout_bytes: stdout.as_bytes().to_vec(),
        stderr: String::new(),
    }
}

#[test]
fn task1_reference_fails_solution_runs() {
    let a = run(ExecutionStatus::Exited(1), "", 5, 100);
    let b = run(ExecutionStatus::Exited(0), "42\n", 7, 90);
    assert_eq!(task1_outcome(&a, &b), Task1Outcome::ReferenceFailed);
    let r = task1_result(9, &a, &b, None);
    assert_eq!(r.verdict, "accepted");
    assert_eq!(r.score, 30);
    assert_eq!(r.execution_time, Some(7));
    assert_eq!(r.memory_used, Some(100));
}

#[test]
fn task1_matrix() {
    let ok1 = run(ExecutionStatus::Exited(0), "1\n", 1, 1);
    let ok2 = run(ExecutionStatus::Exited(0), "2\n", 1, 1);
    let ok1b = run(ExecutionStatus::Exited(0), "1\n", 1, 1);
    let bad = run(ExecutionStatus::TimeLimitExceeded, "", 1, 1);
    let r = task1_result(1, &ok1, &ok2, None);
    assert_eq!((r.verdict.as_str(), r.score), ("accepted", 30));
    let r = task1_result(1, &ok1, &ok1b, None);
    assert_eq!((r.verdict.as_str(), r.score), ("wrong_answer", 0));
    assert_eq!(r.execution_time, None);
    let r = task1_result(1, &ok1, &bad, Some("B failed".to_string()));
    assert_eq!((r.verdict.as_str(), r.score), ("system_error", 0));
    assert_eq!(r.error_message.as_deref(), Some("B failed"));
    assert_eq!(task1_outcome(&bad, &bad), Task1Outcome::BothFailed);
    let r = task1_result(1, &bad, &bad, None);
    assert_eq!((r.verdict.as_str(), r.score), ("system_error", 0));
}

#[test]
fn archive_verdicts_text_and_binary() {
    let r = run(ExecutionStatus::Exited(0), "hello  \n", 3, 4);
    assert_eq!(archive_testcase_verdict(&r, b"hello\n"), Verdict::Accepted);
    assert_eq!(archive_testcase_verdict(&r, b"bye\n"), Verdict::WrongAnswer);
    let mut bin = run(ExecutionStatus::Exited(0), "", 3, 4);
    bin.stdout_bytes = vec![0xff, 0x00, 0x01];
    bin.stdout = String::from_utf8_lossy(&bin.stdout_bytes).to_string();
    assert_eq!(archive_testcase_verdict(&bin, &[0xff, 0x00, 0x01]), Verdict::Accepted);
    assert_eq!(archive_testcase_verdict(&bin, &[0xff, 0x00]), Verdict::WrongAnswer);
    let e = run(ExecutionStatus::Exited(2), "hello\n", 3, 4);
    assert_eq!(archive_testcase_verdict(&e, b"hello\n"), Verdict::WrongAnswer);
    let t = run(ExecutionStatus::TimeLimitExceeded, "", 3, 4);
    assert_eq!(archive_testcase_verdict(&t, b""), Verdict::TimeLimitExceeded);
    let m = run(ExecutionStatus::MemoryLimitExceeded, "", 3, 4);
    assert_eq!(archive_testcase_verdict(&m, b""), Verdict::MemoryLimitExceeded);
    let s = run(ExecutionStatus::Signaled(9), "", 3, 4);
    assert_eq!(archive_testcase_verdict(&s, b""), Verdict::WrongAnswer);
}

#[test]
fn archive_testcase_output() {
    let mut r = run(ExecutionStatus::Exited(0), "out", 3, 4);
    let t = archive_testcase_result(5, &r, Verdict::Accepted);
    assert_eq!(t.output.as_deref(), Some("out"));
    assert_eq!(t.execution_time, Some(3));
    r.stderr = "err".to_string();
    let t = archive_testcase_result(5, &r, Verdict::WrongAnswer);
    assert_eq!(t.output.as_deref(), Some("=== stdout ===\nout\n=== stderr ===\nerr"));
    assert_eq!(t.execution_time, None);
    assert_eq!(t.verdict, "wrong_answer");
}

#[test]
fn edit_distances() {
    assert_eq!(edit_distance("kitten", "sitting"), 3);
    assert_eq!(edit_distance("same text", "same text"), 0);
    assert_eq!(edit_distance("", "abcd"), 4);
    assert_eq!(edit_distance("abc", ""), 3);
    assert_eq!(bounded_edit_distance("abc", "abd"), Some(1));
    assert_eq!(bounded_edit_distance("abc\n", ""), Some(4));
    assert_eq!(bounded_edit_distance("", ""), Some(0));
}

#[test]
fn canonical_text_of_sources() {
    let files = vec![
        ("a/Main.JAVA".to_string(), "class A {}".to_string()),
        ("a/notes.txt".to_string(), "ignore".to_string()),
        ("b.py".to_string(), "print(1)".to_string()),
        (".c".to_string(), "hidden".to_string()),
        ("Makefile".to_string(), "build:".to_string()),
        ("x.h".to_string(), "".to_string()),
    ];
    assert_eq!(canonical_source_text(&files), "class A {}\nprint(1)\n\n");
}

#[test]
fn scores_and_makefiles() {
    assert_eq!(archive_score(Verdict::Accepted, 70), 70);
    assert_eq!(archive_score(Verdict::WrongAnswer, 70), 0);
    assert!(has_makefile(&vec!["a.c".to_string(), "makefile".to_string()]));
    assert!(has_makefile(&vec!["MAKEFILE".to_string()]));
    assert!(!has_makefile(&vec!["Makefile.am".to_string(), "src".to_string()]));
    let r = AnigmaJudgeResult::system_error(3, "no zip".to_string());
    assert_eq!(r.base.verdict, "system_error");
    assert_eq!(r.edit_distance, None);
}

#[test]
fn archive_second_testcase_fails() {
    let runs = [run(ExecutionStatus::Exited(0), "3\n", 4, 10), run(ExecutionStatus::Exited(0), "5\n", 6, 12)];
    let expected: [&[u8]; 2] = [b"3\n", b"4\n"];
    let mut progress = judge::judger::JudgeProgress::new(77, vec![101, 102]);
    while let Some(i) = progress.next_testcase() {
        let v = archive_testcase_verdict(&runs[i], expected[i]);
        let tr = archive_testcase_result(101 + i as i64, &runs[i], v);
        progress.record(v, runs[i].time_ms, runs[i].memory_kb, tr.execution_time, tr.memory_used, tr.output);
    }
    let base = progress.finish(100);
    assert_eq!(base.verdict, "wrong_answer");
    assert_eq!(base.score, 0);
    assert_eq!(base.testcase_results.len(), 2);
    assert_eq!(base.testcase_results[0].verdict, "accepted");
    assert_eq!(base.testcase_results[0].execution_time, Some(4));
    assert_eq!(base.testcase_results[1].verdict, "wrong_answer");
    assert_eq!(base.testcase_results[1].execution_time, None);
    let distance = bounded_edit_distance("int main(){}\n", "int main(){return 0;}\n");
    assert_eq!(distance, Some(9));
}
