use judge::languages::{
    build_registry, effective_limits, get_language_config, get_supported_languages, into_command,
    parse_limit, LanguageConfig, LanguageError, RawLanguageConfig,
};

fn raw(name: &str, compile: Option<&str>, run: &str, t: &[&str], m: &[&str], aliases: &[&str]) -> RawLanguageConfig {
    RawLanguageConfig {
        name: name.to_string(),
        source_file: "main.x".to_string(),
        compile_command: compile.map(|c| c.to_string()),
        run_command: run.to_string(),
        time_limit: t.iter().map(|s| s.to_string()).collect(),
        memory_limit: m.iter().map(|s| s.to_string()).collect(),
        aliases: aliases.iter().map(|s| s.to_string()).collect(),
    }
}

#[test]
fn limits_with_bonus() {
    let c = LanguageConfig {
        source_file: "Main.java".to_string(),
        compile_command: None,
        run_command: vec![],
        time_limit: Some((3, 2)),
        memory_limit: Some((2, 32)),
    };
    assert_eq!(c.calculate_time_limit(1000), 5000);
    assert_eq!(c.calculate_memory_limit(256), 544);
    assert_eq!(effective_limits(&c, 1000, false, 256, true), Some((5000, 256)));
    assert_eq!(effective_limits(&c, 1000, true, 256, false), Some((1000, 544)));
    assert_eq!(effective_limits(&c, u32::MAX, false, 1, false), None);
    let plain = LanguageConfig { time_limit: None, memory_limit: None, ..c };
    assert_eq!(plain.calculate_time_limit(700), 700);
    assert_eq!(plain.calculate_memory_limit(64), 64);
}

#[test]
fn commands_split_on_white_space() {
    assert_eq!(into_command("gcc  -o main\tmain.c "), vec!["gcc", "-o", "main", "main.c"]);
    assert!(into_command("   ").is_empty());
}

#[test]
fn limit_declarations() {
    assert_eq!(parse_limit(&vec![]), Ok(None));
    assert_eq!(parse_limit(&vec!["3".to_string(), "2".to_string()]), Ok(Some((3, 2))));
    assert_eq!(parse_limit(&vec!["3".to_string()]), Err(LanguageError::LimitArity));
    assert_eq!(parse_limit(&vec!["x".to_string(), "2".to_string()]), Err(LanguageError::LimitValue));
}

#[test]
fn registry_lookup_ignores_case() {
    let raws = vec![
        raw("c", Some("gcc -o main main.c"), "./main", &[], &[], &[]),
        raw("Python", None, "python3 main.py", &["3", "2"], &["2", "32"], &["py", "python3"]),
    ];
    let reg = build_registry(&raws).unwrap();
    let py = get_language_config(&reg, "PYTHON").unwrap();
    assert_eq!(py.run_command, vec!["python3", "main.py"]);
    assert!(py.compile_command.is_none());
    assert_eq!(py.time_limit, Some((3, 2)));
    assert!(get_language_config(&reg, "py").is_some());
    assert!(get_language_config(&reg, "Python3").is_some());
    let c = get_language_config(&reg, "c").unwrap();
    assert_eq!(c.compile_command, Some(vec!["gcc".to_string(), "-o".to_string(), "main".to_string(), "main.c".to_string()]));
    assert!(get_language_config(&reg, "cobol").is_none());
    let names = get_supported_languages(&reg);
    assert_eq!(names, vec!["c", "python", "py", "python3"]);
    let bad = vec![raw("c", None, "./main", &["1"], &[], &[])];
    assert_eq!(build_registry(&bad).err(), Some(LanguageError::LimitArity));
}
