use change_scribe::{
    commit_type_case_invalid, commit_type_invalid, commit_type_too_long, commit_type_too_short,
    Commit, Conf,
};

fn sample_commit() -> Commit {
    Commit {
        commit_type: "fix".to_string(),
        scope: vec![],
        breaking_change: false,
        subject: "subject".to_string(),
        body: None,
        footer: Default::default(),
        source: "fix subject".to_string(),
    }
}

#[test]
fn commit_type_test_invalid() {
    let mut commit = sample_commit();
    commit.commit_type = "invalid".to_string();

    let mut config = Conf::default();
    config.commit_type.types = vec![];

    assert!(commit_type_invalid(&commit, &config));
}

#[test]
fn commit_type_test_valid() {
    let mut commit = sample_commit();
    commit.commit_type = "fix".to_string();

    let mut config = Conf::default();
    config.commit_type.types = vec!["fix".to_string()];

    assert!(!commit_type_invalid(&commit, &config));
}

#[test]
fn commit_type_test_wildcard() {
    let mut commit = sample_commit();
    commit.commit_type = "this-is-very-valid".to_string();

    assert!(!commit_type_invalid(&commit, &Conf::default()));
}

#[test]
fn commit_type_test_too_short() {
    let mut commit = sample_commit();
    commit.commit_type = "fix".to_string();

    let mut config = Conf::default();
    config.commit_type.min_length = 4;

    assert!(commit_type_too_short(&commit, &config));
}

#[test]
fn commit_type_test_too_long() {
    let mut commit = sample_commit();
    commit.commit_type = "fix".to_string();

    let mut config = Conf::default();
    config.commit_type.max_length = 2;

    assert!(commit_type_too_long(&commit, &config));
}

#[test]
fn commit_type_test_long_enough() {
    let mut commit = sample_commit();
    commit.commit_type = "fix".to_string();

    let mut config = Conf::default();
    config.commit_type.min_length = 2;

    assert!(!commit_type_too_short(&commit, &config));
}

#[test]
fn test_short_enough() {
    let mut commit = sample_commit();
    commit.commit_type = "fix".to_string();

    let mut config = Conf::default();
    config.commit_type.max_length = 4;

    assert!(!commit_type_too_long(&commit, &config));
}

#[test]
fn commit_type_test_case_invalid() {
    let mut commit = sample_commit();
    commit.commit_type = "snake_case".to_string();

    assert!(commit_type_case_invalid(&commit, &Conf::default()));
}

#[test]
fn commit_type_test_case_valid() {
    let mut commit = sample_commit();
    commit.commit_type = "kebab-case".to_string();

    assert!(!commit_type_case_invalid(&commit, &Conf::default()));
}

#[test]
fn type_length_boundary_is_inclusive() {
    let commit = sample_commit();
    let mut config = Conf::default();
    config.commit_type.min_length = 3;
    assert!(commit_type_too_short(&commit, &config));
    config.commit_type.min_length = 2;
    assert!(!commit_type_too_short(&commit, &config));
    config.commit_type.max_length = 3;
    assert!(commit_type_too_long(&commit, &config));
}

#[test]
fn type_length_counts_bytes() {
    let mut commit = sample_commit();
    commit.commit_type = "fixé".to_string();
    let mut config = Conf::default();
    config.commit_type.max_length = 5;
    assert!(commit_type_too_long(&commit, &config));
}

#[test]
fn wildcard_allows_any_type() {
    let mut commit = sample_commit();
    commit.commit_type = "Whatever".to_string();
    let mut config = Conf::default();
    config.commit_type.types = vec!["fix".to_string(), "*".to_string()];
    assert!(!commit_type_invalid(&commit, &config));
}
