use judge::compare::compare_output;

#[test]
fn test_compare_output_exact_match() {
    assert!(compare_output("hello\nworld\n", "hello\nworld\n"));
}

#[test]
fn test_compare_output_trailing_whitespace() {
    assert!(compare_output("hello  \nworld\n", "hello\nworld\n"));
}

#[test]
fn test_compare_output_trailing_newlines() {
    assert!(compare_output("hello\nworld\n\n\n", "hello\nworld\n"));
}

#[test]
fn test_compare_output_different() {
    assert!(!compare_output("hello\nworld\n", "hello\nearth\n"));
}

#[test]
fn comparison_laws_on_examples() {
    for s in ["", "a", "1 2 3", "x\n\ny", "  lead", "tab\t"] {
        assert!(compare_output(s, s));
        assert!(compare_output(s, &format!("{}\n", s)));
        assert!(compare_output(&format!("{}  \n", s), &format!("{}\n", s)));
    }
}

#[test]
fn trailing_space_in_expected_output() {
    assert!(compare_output("1 2 3\n", "1 2 3 \n"));
}

#[test]
fn leading_space_and_inner_lines_count() {
    assert!(!compare_output(" a\n", "a\n"));
    assert!(!compare_output("a\n\nb\n", "a\nb\n"));
    assert!(compare_output("a\r\nb\r\n", "a\nb"));
    assert!(!compare_output("", "x"));
}
