use judge::executer::ExecutionStatus;
use judge::judger::{
    checker_outcome_verdict, icpc_output_verdict, output_preview, status_verdict, JudgeProgress,
    JudgeResult, ProblemType,
};
use judge::verdict::Verdict;

#[test]
fn test_problem_type_default() {
    let pt: ProblemType = Default::default();
    assert_eq!(pt, ProblemType::Icpc);
}

fn run_all(ids: Vec<i64>, verdicts: &[Verdict], max_score: i64) -> JudgeResult {
    let mut progress = JudgeProgress::new(7, ids);
    let mut k = 0;
    while let Some(i) = progress.next_testcase() {
        assert_eq!(i, k);
        let v = verdicts[k];
        progress.record(v, 10 * (k as u32 + 1), 100 + k as u32, Some(10), Some(100), None);
        k += 1;
    }
    progress.finish(max_score)
}

#[test]
fn accepted_submission_reports_maxima() {
    let r = run_all(vec![1, 2, 3], &[Verdict::Accepted, Verdict::Accepted, Verdict::Accepted], 100);
    assert_eq!(r.submission_id, 7);
    assert_eq!(r.verdict, "accepted");
    assert_eq!(r.score, 100);
    assert_eq!(r.execution_time, Some(30));
    assert_eq!(r.memory_used, Some(102));
    assert_eq!(r.testcase_results.len(), 3);
    assert_eq!(r.error_message, None);
}

#[test]
fn first_failure_skips_the_rest() {
    let r = run_all(
        vec![11, 12, 13, 14],
        &[Verdict::Accepted, Verdict::WrongAnswer, Verdict::Accepted, Verdict::Accepted],
        100,
    );
    assert_eq!(r.verdict, "wrong_answer");
    assert_eq!(r.score, 0);
    assert_eq!(r.execution_time, None);
    assert_eq!(r.memory_used, None);
    let ids: Vec<i64> = r.testcase_results.iter().map(|t| t.testcase_id).collect();
    assert_eq!(ids, vec![11, 12, 13, 14]);
    let vs: Vec<&str> = r.testcase_results.iter().map(|t| t.verdict.as_str()).collect();
    assert_eq!(vs, vec!["accepted", "wrong_answer", "skipped", "skipped"]);
    assert_eq!(r.testcase_results[2].execution_time, None);
    assert_eq!(r.testcase_results[3].memory_used, None);
    assert_eq!(r.testcase_results[3].output, None);
}

#[test]
fn time_limit_verdict_has_no_time() {
    let v = status_verdict(&ExecutionStatus::TimeLimitExceeded, Verdict::Accepted);
    assert_eq!(v, Verdict::TimeLimitExceeded);
    let r = run_all(vec![1], &[v], 0);
    assert_eq!(r.verdict, "time_limit_exceeded");
    assert_eq!(r.testcase_results[0].verdict, "time_limit_exceeded");
    assert_eq!(r.execution_time, None);
}

#[test]
fn no_testcases_is_accepted() {
    let r = run_all(vec![], &[], 5);
    assert_eq!(r.verdict, "accepted");
    assert_eq!(r.execution_time, Some(0));
    assert!(r.testcase_results.is_empty());
}

#[test]
fn run_statuses_map_to_verdicts() {
    assert_eq!(status_verdict(&ExecutionStatus::Exited(0), Verdict::WrongAnswer), Verdict::WrongAnswer);
    assert_eq!(status_verdict(&ExecutionStatus::Exited(3), Verdict::Accepted), Verdict::RuntimeError);
    assert_eq!(status_verdict(&ExecutionStatus::Signaled(11), Verdict::Accepted), Verdict::RuntimeError);
    assert_eq!(status_verdict(&ExecutionStatus::MemoryLimitExceeded, Verdict::Accepted), Verdict::MemoryLimitExceeded);
    assert_eq!(status_verdict(&ExecutionStatus::RuntimeError, Verdict::Accepted), Verdict::RuntimeError);
    assert_eq!(status_verdict(&ExecutionStatus::SystemError, Verdict::Accepted), Verdict::SystemError);
}

#[test]
fn icpc_matching_outputs_accept_everything() {
    let outs = ["hello\n", "1 2 3\n", "a  \nb\n\n"];
    let exps = ["hello", "1 2 3 \n", "a\nb\n"];
    let vs: Vec<Verdict> = outs
        .iter()
        .zip(exps.iter())
        .map(|(o, e)| status_verdict(&ExecutionStatus::Exited(0), icpc_output_verdict(o, e)))
        .collect();
    let r = run_all(vec![1, 2, 3], &vs, 40);
    assert_eq!(r.verdict, "accepted");
    assert_eq!(r.score, 40);
}

#[test]
fn special_judge_outcomes() {
    assert_eq!(checker_outcome_verdict(Some(0)), Verdict::Accepted);
    assert_eq!(checker_outcome_verdict(Some(2)), Verdict::PresentationError);
    assert_eq!(checker_outcome_verdict(None), Verdict::SystemError);
}

#[test]
fn output_preview_is_cut() {
    assert_eq!(output_preview(""), None);
    assert_eq!(output_preview("abc").as_deref(), Some("abc"));
    let long: String = "é".repeat(5000);
    let p = output_preview(&long).unwrap();
    assert_eq!(p.chars().count(), 4096);
}

#[test]
fn early_failures() {
    let r = JudgeResult::failed(3, Verdict::CompileError, Some("error: x".to_string()));
    assert_eq!(r.verdict, "compile_error");
    assert_eq!(r.error_message.as_deref(), Some("error: x"));
    let r = JudgeResult::system_error(4, "boom".to_string());
    assert_eq!(r.verdict, "system_error");
    assert!(r.testcase_results.is_empty());
}

#[test]
fn special_judge_accepts_close_answer() {
    // the comparator accepted "4.00001" against "4" by exiting with 0
    let v = status_verdict(&ExecutionStatus::Exited(0), checker_outcome_verdict(Some(0)));
    let r = run_all(vec![1], &[v], 0);
    assert_eq!(r.verdict, "accepted");
    assert_eq!(r.testcase_results[0].verdict, "accepted");
    let v = status_verdict(&ExecutionStatus::Exited(0), checker_outcome_verdict(Some(1)));
    assert_eq!(v, Verdict::WrongAnswer);
}
