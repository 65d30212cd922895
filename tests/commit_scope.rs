use change_scribe::{
    commit_scope_case_invalid, commit_scope_invalid, commit_scope_required, commit_scope_too_long,
    commit_scope_too_short, Casing, Commit, Conf,
};

fn sample_commit() -> Commit {
    Commit {
        commit_type: "fix".to_string(),
        scope: vec![],
        breaking_change: false,
        subject: "subject".to_string(),
        body: None,
        footer: Default::default(),
        source: "fix subject".to_string(),
    }
}

#[test]
fn test_required() {
    let mut commit = sample_commit();
    commit.scope = vec![];

    let mut config = Conf::default();
    config.commit_scope.required = true;

    assert!(commit_scope_required(&commit, &config));
}

#[test]
fn test_not_required() {
    let mut commit = sample_commit();
    commit.scope = vec![];

    let mut config = Conf::default();
    config.commit_scope.required = false;

    assert!(!commit_scope_required(&commit, &config));
}

#[test]
fn commit_scope_test_invalid() {
    let mut commit = sample_commit();
    commit.scope = vec!["invalid".to_string()];

    let mut config = Conf::default();
    config.commit_scope.scopes = vec!["fix".to_string()];

    assert!(commit_scope_invalid(&commit, &config));
}

#[test]
fn commit_scope_test_valid() {
    let mut commit = sample_commit();
    commit.scope = vec!["fix".to_string()];

    let mut config = Conf::default();
    config.commit_scope.scopes = vec!["fix".to_string()];

    assert!(!commit_scope_invalid(&commit, &config));
}

#[test]
fn commit_scope_test_wildcard() {
    let mut commit = sample_commit();
    commit.scope = vec!["fix".to_string()];

    let mut config = Conf::default();
    config.commit_scope.scopes = vec!["*".to_string()];

    assert!(!commit_scope_invalid(&commit, &config));
}

#[test]
fn commit_scope_test_too_short() {
    let mut commit = sample_commit();
    commit.scope = vec!["fix".to_string()];

    let mut config = Conf::default();
    config.commit_scope.min_length = 4;

    assert!(commit_scope_too_short(&commit, &config));
}

#[test]
fn commit_scope_test_too_long() {
    let mut commit = sample_commit();
    commit.scope = vec!["fix".to_string()];

    let mut config = Conf::default();
    config.commit_scope.max_length = 2;

    assert!(commit_scope_too_long(&commit, &config));
}

#[test]
fn commit_scope_test_long_enough() {
    let mut commit = sample_commit();
    commit.scope = vec!["fix".to_string()];

    let mut config = Conf::default();
    config.commit_scope.max_length = 4;

    assert!(!commit_scope_too_long(&commit, &config));
}

#[test]
fn commit_scope_test_case_invalid() {
    let mut commit = sample_commit();
    commit.scope = vec!["snake_case".to_string()];

    assert!(commit_scope_case_invalid(&commit, &Conf::default()));
}

#[test]
fn commit_scope_test_case_valid() {
    let mut commit = sample_commit();
    commit.scope = vec!["kebab-case".to_string()];

    assert!(!commit_scope_case_invalid(&commit, &Conf::default()));
}

#[test]
fn one_unlisted_entry_makes_scope_invalid() {
    let mut commit = sample_commit();
    commit.scope = vec!["api".to_string(), "db".to_string()];
    let mut config = Conf::default();
    config.commit_scope.scopes = vec!["api".to_string()];
    assert!(commit_scope_invalid(&commit, &config));
    config.commit_scope.scopes = vec!["api".to_string(), "db".to_string()];
    assert!(!commit_scope_invalid(&commit, &config));
}

#[test]
fn empty_scope_is_never_invalid() {
    let commit = sample_commit();
    let mut config = Conf::default();
    config.commit_scope.scopes = vec![];
    assert!(!commit_scope_invalid(&commit, &config));
}

#[test]
fn scope_case_styles() {
    let mut commit = sample_commit();
    let mut config = Conf::default();
    commit.scope = vec!["snake_case".to_string()];
    config.commit_scope.case = Casing::Snake;
    assert!(!commit_scope_case_invalid(&commit, &config));
    commit.scope = vec!["camelCase".to_string()];
    config.commit_scope.case = Casing::Camel;
    assert!(!commit_scope_case_invalid(&commit, &config));
    commit.scope = vec!["PascalCase".to_string()];
    config.commit_scope.case = Casing::Pascal;
    assert!(!commit_scope_case_invalid(&commit, &config));
    config.commit_scope.case = Casing::Kebab;
    assert!(commit_scope_case_invalid(&commit, &config));
}

#[test]
fn scope_length_bounds_check_every_entry() {
    let mut commit = sample_commit();
    commit.scope = vec!["long-entry".to_string(), "ab".to_string()];
    let mut config = Conf::default();
    config.commit_scope.min_length = 2;
    assert!(commit_scope_too_short(&commit, &config));
    config.commit_scope.min_length = 1;
    assert!(!commit_scope_too_short(&commit, &config));
    config.commit_scope.max_length = 10;
    assert!(commit_scope_too_long(&commit, &config));
}
