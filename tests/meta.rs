use judge::meta::{is_mle, is_success, is_tle, parse_meta, IsolateStatus};

#[test]
fn test_parse_meta_success() {
    let content = "time:0.015\ntime-wall:0.020\ncg-mem:1024\nexitcode:0\n";
    let meta = parse_meta(content);

    assert_eq!(meta.time_ms, 15);
    assert_eq!(meta.wall_time_ms, 20);
    assert_eq!(meta.memory_kb, 1024);
    assert_eq!(meta.exit_code, 0);
    assert_eq!(meta.status, IsolateStatus::Normal);
}

#[test]
fn test_parse_meta_tle() {
    let content = "time:1.000\nstatus:TO\n";
    let meta = parse_meta(content);

    assert_eq!(meta.time_ms, 1000);
    assert_eq!(meta.status, IsolateStatus::TimeOut);
}

#[test]
fn test_parse_meta_signal() {
    let content = "status:SG\nexitsig:11\n";
    let meta = parse_meta(content);

    assert_eq!(meta.status, IsolateStatus::Signal(11));
}

#[test]
fn meta_takes_the_larger_memory_figure() {
    let meta = parse_meta("max-rss:2048\ncg-mem:1024\n");
    assert_eq!(meta.memory_kb, 2048);
    let meta = parse_meta("cg-mem:512\nmax-rss:4096\n");
    assert_eq!(meta.memory_kb, 4096);
}

#[test]
fn meta_statuses() {
    assert_eq!(parse_meta("status:RE\nexitcode:1\n").status, IsolateStatus::RuntimeError);
    assert_eq!(parse_meta("status:XX\n").status, IsolateStatus::InternalError);
    assert_eq!(parse_meta("exitcode:3\n").status, IsolateStatus::RuntimeError);
    assert_eq!(parse_meta("status:SG\n").status, IsolateStatus::Signal(0));
    assert_eq!(parse_meta("exitsig:9\n").status, IsolateStatus::Signal(9));
    assert_eq!(parse_meta("").status, IsolateStatus::Normal);
}

#[test]
fn meta_reads_values_loosely() {
    let meta = parse_meta("time: 2.5 \r\nexitcode:-7\nno colon here\nunknown:1\ntime-wall:3\n");
    assert_eq!(meta.time_ms, 2500);
    assert_eq!(meta.wall_time_ms, 3000);
    assert_eq!(meta.exit_code, -7);
    let meta = parse_meta("time:0.1239\ncg-mem:abc\nexitcode:x\n");
    assert_eq!(meta.time_ms, 123);
    assert_eq!(meta.memory_kb, 0);
    assert_eq!(meta.exit_code, 0);
}

#[test]
fn meta_predicates() {
    let ok = parse_meta("time:0.5\nexitcode:0\ncg-mem:100\n");
    assert!(is_success(&ok));
    assert!(!is_tle(&ok));
    assert!(is_mle(&ok, 99));
    assert!(!is_mle(&ok, 100));
    let to = parse_meta("status:TO\n");
    assert!(is_tle(&to));
    assert!(!is_success(&to));
}
