use judge::playground::{
    collect_created_files, decode_files, detect_language, determine_run_type, filter_java_notices,
    is_safe_path, makefile_input, normalize_path, replace_str, substitute_file_name, PlaygroundError,
    PlaygroundFile, PlaygroundJob, PlaygroundResult, RunType,
};

fn job(anigma: bool, name: Option<&str>, input: Option<&str>, files: Vec<(&str, &str)>) -> PlaygroundJob {
    PlaygroundJob {
        session_id: "s".to_string(),
        result_key: "k".to_string(),
        target_path: "Makefile".to_string(),
        files: files
            .into_iter()
            .map(|(p, c)| PlaygroundFile { path: p.to_string(), content: c.to_string(), is_binary: false })
            .collect(),
        stdin_input: None,
        file_input_base64: input.map(|s| s.to_string()),
        file_input_is_binary: false,
        anigma_mode: anigma,
        anigma_file_name: name.map(|s| s.to_string()),
        time_limit: 5000,
        memory_limit: 512,
    }
}

#[test]
fn makefile_mode_reports_created_files() {
    let files = vec![
        ("out.bin".to_string(), vec![0x00, 0x01, 0xff]),
        ("./input.txt".to_string(), vec![1]),
        ("stdout.txt".to_string(), vec![2]),
        ("sub\\res.txt".to_string(), b"hi".to_vec()),
        ("../escape".to_string(), vec![3]),
    ];
    let created = collect_created_files(&files, "input.txt");
    assert_eq!(created.len(), 2);
    assert_eq!(created[0].path, "out.bin");
    assert_eq!(created[0].content_base64, "AAH/");
    assert!(!created[0].is_binary);
    assert_eq!(created[1].path, "sub/res.txt");
    assert_eq!(created[1].content_base64, "aGk=");
}

#[test]
fn languages_from_extensions() {
    assert_eq!(detect_language("main.c"), Some("c"));
    assert_eq!(detect_language("dir/x.CPP"), Some("cpp"));
    assert_eq!(detect_language("a.cc"), Some("cpp"));
    assert_eq!(detect_language("a.cxx"), Some("cpp"));
    assert_eq!(detect_language("a.py"), Some("python"));
    assert_eq!(detect_language("A.java"), Some("java"));
    assert_eq!(detect_language("m.rs"), Some("rust"));
    assert_eq!(detect_language("m.go"), Some("go"));
    assert_eq!(detect_language("m.js"), Some("javascript"));
    assert_eq!(detect_language("notes.txt"), None);
    assert_eq!(detect_language("Makefile"), None);
}

#[test]
fn run_types() {
    assert_eq!(determine_run_type("proj/Makefile"), RunType::Makefile { folder: "proj".to_string() });
    assert_eq!(determine_run_type("makefile"), RunType::Makefile { folder: String::new() });
    assert_eq!(
        determine_run_type("src/main.py"),
        RunType::SingleFile { file_path: "src/main.py".to_string(), language: "python".to_string() }
    );
    assert_eq!(determine_run_type("data.csv"), RunType::Unknown);
    let r = PlaygroundResult::unsupported("s1".to_string());
    assert!(!r.success);
    assert_eq!(r.exit_code, 1);
}

#[test]
fn safe_paths() {
    assert!(is_safe_path("a/b.txt"));
    assert!(!is_safe_path("/etc/passwd"));
    assert!(!is_safe_path("a/../b"));
    assert!(!is_safe_path(""));
    assert_eq!(normalize_path("./././a\\b"), "a/b");
    assert_eq!(normalize_path("x/./y"), "x/./y");
}

#[test]
fn file_name_substitution() {
    assert_eq!(replace_str("g++ -o main main.cpp", "main.cpp", "solve.cpp"), "g++ -o main solve.cpp");
    assert_eq!(replace_str("aaaa", "aa", "b"), "bb");
    assert_eq!(replace_str("abc", "", "-"), "-a-b-c-");
    assert_eq!(replace_str("abc", "zz", "y"), "abc");
    let args = vec!["javac".to_string(), "Main.java".to_string()];
    assert_eq!(substitute_file_name(&args, "Main.java", "Hello.java"), vec!["javac", "Hello.java"]);
}

#[test]
fn java_notices_are_dropped() {
    let s = "Picked up JAVA_TOOL_OPTIONS: -Xmx1g\nException in main\n  at Main\n";
    assert_eq!(filter_java_notices(s), "Exception in main\n  at Main");
    assert_eq!(filter_java_notices(""), "");
    assert_eq!(filter_java_notices("  Picked up JAVA_TOOL_OPTIONS x"), "");
    assert_eq!(filter_java_notices("a\r\nb"), "a\nb");
}

#[test]
fn bundle_decoding() {
    let j = job(false, None, None, vec![("a.txt", "aGk="), ("b/c.bin", "AAH/")]);
    let files = decode_files(&j.files).unwrap();
    assert_eq!(files[0].0, "a.txt");
    assert_eq!(files[0].1, b"hi".to_vec());
    assert_eq!(files[1].1, vec![0x00, 0x01, 0xff]);
    let bad = job(false, None, None, vec![("a.txt", "!!!")]);
    assert_eq!(decode_files(&bad.files), Err(PlaygroundError::InvalidContent { path: "a.txt".to_string() }));
    let unsafe_job = job(false, None, None, vec![("../x", "aGk=")]);
    assert_eq!(decode_files(&unsafe_job.files), Err(PlaygroundError::UnsafePath { path: "../x".to_string() }));
}

#[test]
fn makefile_inputs() {
    let j = job(false, None, Some("aGk="), vec![]);
    assert_eq!(makefile_input(&j), Ok(("input.txt".to_string(), Some(b"hi".to_vec()))));
    let j = job(false, None, None, vec![]);
    assert_eq!(makefile_input(&j), Ok(("input.txt".to_string(), None)));
    let j = job(false, None, Some("%%"), vec![]);
    assert_eq!(makefile_input(&j), Err(PlaygroundError::InvalidInput));
    let j = job(true, None, None, vec![("sample.in", "AAH/")]);
    assert_eq!(makefile_input(&j), Ok(("sample.in".to_string(), Some(vec![0x00, 0x01, 0xff]))));
    let j = job(true, Some("t.in"), None, vec![("sample.in", "AAH/")]);
    assert_eq!(makefile_input(&j), Err(PlaygroundError::MissingInputFile { name: "t.in".to_string() }));
}
