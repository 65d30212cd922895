use change_scribe::{parse, parse_footer_key, parse_footer_value};

fn footer_value(commit: &change_scribe::Commit, key: &str) -> Option<String> {
    commit
        .footer
        .iter()
        .find(|(k, _)| k == key)
        .map(|(_, v)| v.clone())
}

#[test]
fn terminate_footer_value_on_time() {
    let (key, rest) = parse_footer_key("Reviewed-by: some guy\nRefs: #123").unwrap();
    assert_eq!(key, "Reviewed-by");

    let (value, rest) = parse_footer_value(&rest);
    assert_eq!(value, "some guy");

    assert_eq!(rest, "Refs: #123");
}

#[test]
fn no_body_turns_into_none() {
    let commit = parse("fix: something\n\nBREAKING CHANGE: yes").unwrap();
    assert_eq!(commit.body, None);
}

#[test]
fn commit_with_body_is_some() {
    let commit = parse("fix: something\n\nChanges were easy\n\nBREAKING CHANGE: yes").unwrap();
    assert_eq!(commit.body, Some("Changes were easy".to_string()));
}

#[test]
fn footer_breaking_change_parses_to_breaking_change() {
    let commit = parse("fix: something\n\nBREAKING CHANGE: yes").unwrap();
    assert!(commit.breaking_change);
}

#[test]
fn no_footer_breaking_change_parses_to_false() {
    let commit = parse("fix: something\n\nChanges were easy").unwrap();
    assert!(!commit.breaking_change);
}

#[test]
fn test_breaking_change() {
    let (_, rest) = parse_footer_key("BREAKING CHANGE: ").unwrap();
    assert_eq!(rest, "");
}

#[test]
fn test_breaking_change_with_hash() {
    let (_, rest) = parse_footer_key("BREAKING CHANGE #").unwrap();
    assert_eq!(rest, "");
}

#[test]
fn test_reviewed_by() {
    let (_, rest) = parse_footer_key("Reviewed-by: ").unwrap();
    assert_eq!(rest, "");
}

#[test]
fn test_refs() {
    let (_, rest) = parse_footer_key("Refs: ").unwrap();
    assert_eq!(rest, "");
}

#[test]
fn footer_key_needs_a_separator() {
    assert!(parse_footer_key("Refs").is_none());
    assert!(parse_footer_key("some guy").is_none());
    assert!(parse_footer_key(": x").is_none());
}

#[test]
fn plain_header() {
    let commit = parse("fix: something").unwrap();
    assert_eq!(commit.commit_type, "fix");
    assert!(commit.scope.is_empty());
    assert!(!commit.breaking_change);
    assert_eq!(commit.subject, "something");
    assert_eq!(commit.body, None);
    assert!(commit.footer.is_empty());
    assert_eq!(commit.source, "fix: something");
}

#[test]
fn breaking_marker_scope_and_footer() {
    let commit = parse("feat(api)!: add endpoint\n\nBREAKING CHANGE: removes old one").unwrap();
    assert!(commit.breaking_change);
    assert_eq!(commit.scope, vec!["api".to_string()]);
    assert_eq!(
        footer_value(&commit, "BREAKING CHANGE"),
        Some("removes old one".to_string())
    );
}

#[test]
fn marker_without_scope_is_breaking() {
    let commit = parse("refactor!: drop support").unwrap();
    assert!(commit.breaking_change);
    assert_eq!(commit.commit_type, "refactor");
}

#[test]
fn footer_entries_with_both_separators() {
    let commit = parse("fix: x\n\nReviewed-by: some guy\nRefs: #123").unwrap();
    assert_eq!(commit.footer.len(), 2);
    assert_eq!(footer_value(&commit, "Reviewed-by"), Some("some guy".to_string()));
    assert_eq!(footer_value(&commit, "Refs"), Some("#123".to_string()));

    let commit = parse("fix: x\n\nReviewed-by: some guy\nRefs #123").unwrap();
    assert_eq!(footer_value(&commit, "Refs"), Some("123".to_string()));
}

#[test]
fn duplicate_footer_key_keeps_last_value() {
    let commit = parse("fix: x\n\nRefs: one\nRefs: two").unwrap();
    assert_eq!(commit.footer.len(), 1);
    assert_eq!(footer_value(&commit, "Refs"), Some("two".to_string()));
}

#[test]
fn scope_entries_kept_in_order_verbatim() {
    let commit = parse("feat(b, a,a): x").unwrap();
    assert_eq!(
        commit.scope,
        vec!["b".to_string(), " a".to_string(), "a".to_string()]
    );
    let commit = parse("feat(): x").unwrap();
    assert_eq!(commit.scope, vec!["".to_string()]);
}

#[test]
fn type_keeps_case_and_hyphens() {
    let commit = parse("Big-Fix(Core): x").unwrap();
    assert_eq!(commit.commit_type, "Big-Fix");
    assert_eq!(commit.scope, vec!["Core".to_string()]);
}

#[test]
fn paragraphs_are_joined_without_separator() {
    let commit = parse("fix: a\n\nPara one\n\nPara two\n\nRefs: 1").unwrap();
    assert_eq!(commit.body, Some("Para onePara two".to_string()));
    assert_eq!(footer_value(&commit, "Refs"), Some("1".to_string()));
}

#[test]
fn footer_value_trailing_white_space_is_trimmed() {
    let commit = parse("fix: a\n\nRefs: 12  \n").unwrap();
    assert_eq!(footer_value(&commit, "Refs"), Some("12".to_string()));
}

#[test]
fn missing_type_fails_at_zero() {
    assert_eq!(parse("123: x").unwrap_err().offset, 0);
    assert_eq!(parse("").unwrap_err().offset, 0);
    assert_eq!(parse(": x").unwrap_err().offset, 0);
}

#[test]
fn missing_separator_fails_where_it_should_start() {
    assert_eq!(parse("fix x").unwrap_err().offset, 3);
    assert_eq!(parse("fix(api) x").unwrap_err().offset, 8);
    assert_eq!(parse("fix(api)!x").unwrap_err().offset, 9);
    assert_eq!(parse("fix(api: x").unwrap_err().offset, 3);
}

#[test]
fn failure_offset_counts_bytes() {
    assert_eq!(parse("fixé x").unwrap_err().offset, 5);
}

#[test]
fn empty_subject_fails() {
    assert_eq!(parse("fix: ").unwrap_err().offset, 5);
    assert_eq!(parse("fix: \n\nbody").unwrap_err().offset, 5);
}

#[test]
fn text_after_footer_key_that_is_not_a_key_fails() {
    assert_eq!(parse("fix: x\n\n").unwrap_err().offset, 8);
}

#[test]
fn parse_error_title() {
    assert_eq!(parse("").unwrap_err().title(), "Invalid commit type syntax");
}

#[test]
fn empty_paragraph_still_makes_a_body() {
    let commit = parse("fix: a\n\n\n\nRefs: 1").unwrap();
    assert_eq!(commit.body, Some("".to_string()));
}
