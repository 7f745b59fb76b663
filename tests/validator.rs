use judge::validator::{
    finish_validation, validation_aborted, validation_failure, validation_of_run, ValidatorManager,
};

#[test]
fn second_input_invalid() {
    let results = vec![
        validation_of_run(1, 0, ""),
        validation_of_run(2, 3, "  FAIL Expected integer, but \"x\" found\n"),
        validation_of_run(3, 0, ""),
    ];
    let r = finish_validation(10, results);
    assert!(!r.success);
    assert!(r.testcase_results[0].valid);
    assert!(!r.testcase_results[1].valid);
    assert!(r.testcase_results[2].valid);
    assert_eq!(r.testcase_results[1].message.as_deref(), Some("FAIL Expected integer, but \"x\" found"));
    assert_eq!(r.testcase_results[0].message, None);
    assert_eq!(r.error_message, None);
}

#[test]
fn all_valid_and_failures() {
    let r = finish_validation(1, vec![validation_of_run(1, 0, ""), validation_of_run(2, 0, "ok\n")]);
    assert!(r.success);
    let f = validation_failure(5, "download failed".to_string());
    assert!(!f.valid);
    let r = finish_validation(1, vec![f]);
    assert!(!r.success);
    assert!(finish_validation(1, vec![]).success);
    let a = validation_aborted(2, "Failed to compile validator".to_string());
    assert!(!a.success);
    assert!(a.testcase_results.is_empty());
    let m = ValidatorManager::new("files/testlib.h".to_string());
    assert_eq!(m.compiler.cache_dir, "/tmp/validator_cache");
}
