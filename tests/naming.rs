use agent_manager::naming::sanitize_name;

#[test]
fn sanitize_example_from_free_text() {
    assert_eq!(sanitize_name("Fix Bug #42!!"), "fix-bug-42");
}

#[test]
fn sanitize_empty_falls_back() {
    assert_eq!(sanitize_name(""), "feature");
}

#[test]
fn sanitize_only_symbols_falls_back() {
    assert_eq!(sanitize_name("!!! ???"), "feature");
    assert_eq!(sanitize_name("éà"), "feature");
}

#[test]
fn sanitize_only_dashes_falls_back() {
    assert_eq!(sanitize_name("---"), "feature");
}

#[test]
fn sanitize_keeps_dash_and_underscore() {
    assert_eq!(sanitize_name("a--b"), "a--b");
    assert_eq!(sanitize_name("My_Task"), "my_task");
}

#[test]
fn sanitize_collapses_runs_and_trims() {
    assert_eq!(sanitize_name("  Hello,   World!  "), "hello-world");
    assert_eq!(sanitize_name("-x-"), "x");
    assert_eq!(sanitize_name("agent/feature x"), "agent-feature-x");
}

#[test]
fn sanitize_output_is_always_safe() {
    let inputs = ["", "  ", "Fix Bug #42!!", "-a-", "__", "ÅÄÖ x", "a\nb\tc", "42", "---x---"];
    for input in inputs {
        let slug = sanitize_name(input);
        assert!(!slug.is_empty());
        assert!(slug
            .chars()
            .all(|c| c.is_ascii_lowercase() || c.is_ascii_digit() || c == '-' || c == '_'));
        assert!(!slug.starts_with('-'));
        assert!(!slug.ends_with('-'));
    }
}
