use judge::jobs::{
    lease_key, lease_refresh_secs, next_lease_step, progress_percentage, result_channel, result_key,
    LeaseStep, ResultKind, MAX_WORKERS,
};

#[test]
fn result_keys_and_channels() {
    assert_eq!(result_key(ResultKind::Judge, 42), "judge:result:42");
    assert_eq!(result_key(ResultKind::Validate, 7), "validate:result:7");
    assert_eq!(result_key(ResultKind::Anigma, -3), "anigma:result:-3");
    assert_eq!(result_channel(ResultKind::Judge), "judge:results");
    assert_eq!(result_channel(ResultKind::Validate), "validate:results");
    assert_eq!(result_channel(ResultKind::Anigma), "anigma:results");
    assert_eq!(lease_key(9), "judge:worker:lease:9");
}

#[test]
fn lease_claiming() {
    assert_eq!(next_lease_step(0, true), LeaseStep::Claimed(0));
    assert_eq!(next_lease_step(0, false), LeaseStep::Try(1));
    assert_eq!(next_lease_step(MAX_WORKERS - 1, false), LeaseStep::Wait);
    assert_eq!(lease_refresh_secs(), 60);
}

#[test]
fn progress() {
    assert_eq!(progress_percentage(0, 0), 0);
    assert_eq!(progress_percentage(1, 3), 33);
    assert_eq!(progress_percentage(3, 3), 100);
}
