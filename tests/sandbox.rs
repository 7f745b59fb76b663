use judge::executer::{normalize_status, ExecutionLimits, ExecutionSpec, ExecutionStatus};
use judge::meta::parse_meta;
use judge::sandbox::{
    calculate_box_id, get_config, init_config, next_box_id, run_limits, seconds_string, ConfigCell,
    IoSpec, IsolateBox, Limits, SandboxConfig,
};

#[test]
fn box_ids_stay_in_the_worker_range() {
    let config = SandboxConfig::with_worker_id(3);
    let mut counter: u32 = 0;
    for _ in 0..2500 {
        let id = next_box_id(&config, &mut counter);
        assert!(id >= 3000 && id <= 3999);
    }
    assert_eq!(counter, 2500);
    let mut c = 999;
    assert_eq!(next_box_id(&config, &mut c), 3999);
    assert_eq!(next_box_id(&config, &mut c), 3000);
    let mut c = u32::MAX;
    assert_eq!(next_box_id(&config, &mut c), 3000 + u32::MAX % 1000);
    assert_eq!(c, 0);
}

#[test]
fn box_id_from_job_and_testcase() {
    let config = SandboxConfig::with_worker_id(12);
    assert_eq!(calculate_box_id(&config, 5, 3), 2053);
    assert_eq!(calculate_box_id(&config, 150, 7), 2507);
}

#[test]
fn config_is_set_once() {
    let mut cell = ConfigCell::new();
    assert_eq!(get_config(&cell), SandboxConfig::default());
    assert!(init_config(&mut cell, 4).is_ok());
    assert_eq!(init_config(&mut cell, 5), Err("Sandbox configuration already initialized".to_string()));
    let c = get_config(&cell);
    assert_eq!(c.worker_id, 4);
    assert_eq!(c.compile_time_limit_ms, 30000);
    assert_eq!(c.compile_memory_limit_mb, 2048);
    assert_eq!(SandboxConfig::from_env(), SandboxConfig::default());
}

#[test]
fn memory_upgrade_wins() {
    let meta = parse_meta("time:0.1\nexitcode:0\ncg-mem:300000\n");
    assert_eq!(normalize_status(&meta, 256), ExecutionStatus::MemoryLimitExceeded);
    assert_eq!(normalize_status(&meta, 512), ExecutionStatus::Exited(0));
    let meta = parse_meta("status:TO\ncg-mem:300000\n");
    assert_eq!(normalize_status(&meta, 256), ExecutionStatus::MemoryLimitExceeded);
    assert_eq!(normalize_status(&meta, 1024), ExecutionStatus::TimeLimitExceeded);
    let meta = parse_meta("status:RE\nexitcode:2\n");
    assert_eq!(normalize_status(&meta, 1024), ExecutionStatus::RuntimeError);
    let meta = parse_meta("exitcode:2\n");
    assert_eq!(normalize_status(&meta, 1024), ExecutionStatus::RuntimeError);
    let meta = parse_meta("status:XX\n");
    assert_eq!(normalize_status(&meta, 1024), ExecutionStatus::SystemError);
}

#[test]
fn execution_spec_builders() {
    let spec = ExecutionSpec::new("/tmp/w")
        .with_command(vec!["./main".to_string()])
        .with_limits(ExecutionLimits { time_ms: 500, memory_mb: 64 })
        .with_stdin("1 2\n".to_string())
        .with_copy_out_dir("/tmp/out".to_string());
    assert_eq!(spec.work_dir, "/tmp/w");
    assert_eq!(spec.command, vec!["./main"]);
    assert_eq!(spec.limits.time_ms, 500);
    assert_eq!(spec.stdin.as_deref(), Some("1 2\n"));
    assert_eq!(spec.copy_out_dir.as_deref(), Some("/tmp/out"));
    let d = ExecutionSpec::new("x");
    assert_eq!(d.limits, ExecutionLimits::default());
    assert_eq!(d.limits.memory_mb, 512);
}

#[test]
fn seconds_are_written_shortest() {
    assert_eq!(seconds_string(1000), "1");
    assert_eq!(seconds_string(1500), "1.5");
    assert_eq!(seconds_string(250), "0.25");
    assert_eq!(seconds_string(1), "0.001");
    assert_eq!(seconds_string(3000), "3");
}

#[test]
fn box_from_init_output() {
    let b = IsolateBox::from_init_output(42, "/var/local/lib/isolate/42\n", true);
    assert_eq!(b.box_id(), 42);
    assert_eq!(b.path(), "/var/local/lib/isolate/42");
    assert_eq!(b.work_dir(), "/var/local/lib/isolate/42/box");
    assert!(b.use_cgroups());
}

#[test]
fn isolate_arguments() {
    let b = IsolateBox::from_init_output(7, "/b/7", true);
    let io = IoSpec::new().with_stdin("/tmp/in".to_string());
    let limits = run_limits(1500, 256);
    let args = b.run_args(&vec!["python3".to_string(), "main.py".to_string()], &limits, &io, "/tmp/m7.txt");
    let expected = vec![
        "--box-id", "7", "--cg", "--cg-mem=262144", "--time=1.5", "--wall-time=4",
        "--meta=/tmp/m7.txt", "--stdout=stdout.txt", "--processes=64", "--open-files=256",
        "--fsize=262144", "--dir=/usr", "--dir=/lib", "--dir=/lib64", "--dir=/etc:noexec",
        "--dir=/tmp:tmp", "--env=PATH=/usr/local/bin:/usr/bin:/bin", "--env=HOME=/box",
        "--env=JAVA_HOME=/usr/lib/jvm/java-17-openjdk-amd64", "--stderr-to-stdout",
        "--stdin=stdin.txt", "--run", "--", "/usr/bin/python3", "main.py",
    ];
    assert_eq!(args, expected);
    let b = IsolateBox::from_init_output(8, "/b/8", false);
    let io = IoSpec::new().with_stderr_to_stdout(false);
    let args = b.run_args(&vec!["./main".to_string()], &Limits::default(), &io, "m");
    assert_eq!(args[2], "--time=1");
    assert!(!args.iter().any(|a| a == "--cg" || a == "--stderr-to-stdout" || a == "--stdin=stdin.txt"));
    assert_eq!(args.last().map(|s| s.as_str()), Some("./main"));
}
