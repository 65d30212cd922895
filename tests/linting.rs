use change_scribe::{
    check, lint, parse, rule_fires, Casing, Commit, Conf, LintErrorKind, LintFailure, Span,
};

fn kinds(commit: &Commit, config: &Conf) -> Vec<LintErrorKind> {
    check(commit, config).iter().map(|e| e.kind).collect()
}

#[test]
fn default_policy_accepts_plain_commit() {
    let config = Conf::default();
    let commit = parse("fix: something").unwrap();
    assert!(check(&commit, &config).is_empty());
    assert!(lint("fix: something", &config).is_ok());
}

#[test]
fn unlisted_and_capitalised_type_fire_together() {
    let mut config = Conf::default();
    config.commit_type.types = vec!["fix".to_string(), "feat".to_string()];
    config.commit_type.case = Casing::Kebab;
    let commit = parse("Feature: x").unwrap();
    assert_eq!(
        kinds(&commit, &config),
        vec![LintErrorKind::TypeInvalid, LintErrorKind::TypeCaseInvalid]
    );
    assert_eq!(commit.body, None);
    assert!(commit.footer.is_empty());
    match lint("Feature: x", &config) {
        Err(LintFailure::Violations(v)) => assert_eq!(v.len(), 2),
        _ => panic!("expected violations"),
    }
}

#[test]
fn capitalised_scope_fails_kebab_case_only() {
    let mut config = Conf::default();
    config.commit_scope.case = Casing::Kebab;
    let commit = parse("fix(Scope): x").unwrap();
    assert_eq!(kinds(&commit, &config), vec![LintErrorKind::ScopeCaseInvalid]);
    config.commit_scope.scopes = vec!["Scope".to_string()];
    assert_eq!(kinds(&commit, &config), vec![LintErrorKind::ScopeCaseInvalid]);
}

#[test]
fn parse_failure_is_reported_apart() {
    match lint("nope", &Conf::default()) {
        Err(LintFailure::Parse(e)) => assert_eq!(e.offset, 4),
        _ => panic!("expected a parse failure"),
    }
}

#[test]
fn rules_run_twice_give_the_same_list() {
    let mut config = Conf::default();
    config.commit_type.types = vec!["fix".to_string()];
    config.commit_scope.required = true;
    let commit = parse("Feat: x").unwrap();
    let first = check(&commit, &config);
    let second = check(&commit, &config);
    assert_eq!(first, second);
    assert_eq!(first.len(), 3);
}

#[test]
fn every_rule_fires_in_order() {
    let mut config = Conf::default();
    config.commit_type.types = vec!["fix".to_string()];
    config.commit_type.min_length = 10;
    config.commit_type.max_length = 2;
    config.commit_scope.scopes = vec!["api".to_string()];
    config.commit_scope.min_length = 10;
    config.commit_scope.max_length = 2;
    let commit = parse("Feat(Db): x").unwrap();
    assert_eq!(
        kinds(&commit, &config),
        vec![
            LintErrorKind::TypeInvalid,
            LintErrorKind::TypeTooShort,
            LintErrorKind::TypeTooLong,
            LintErrorKind::TypeCaseInvalid,
            LintErrorKind::ScopeInvalid,
            LintErrorKind::ScopeTooShort,
            LintErrorKind::ScopeTooLong,
            LintErrorKind::ScopeCaseInvalid,
        ]
    );
    config.commit_scope.required = true;
    let commit = parse("fix: x").unwrap();
    assert!(rule_fires(LintErrorKind::ScopeRequired, &commit, &config));
}

#[test]
fn spans_of_type_and_scope() {
    let commit = parse("fix(api): x").unwrap();
    assert_eq!(commit.type_span(), (0, 3));
    assert_eq!(commit.scope_span(), (4, 3));
    let commit = parse("feat(api,db): x").unwrap();
    assert_eq!(commit.scope_span(), (5, 6));
    let commit = parse("fix: x").unwrap();
    assert_eq!(commit.scope_span(), (4, 0));
}

#[test]
fn diagnostics_carry_their_spans() {
    let mut config = Conf::default();
    config.commit_type.types = vec!["feat".to_string()];
    config.commit_scope.scopes = vec!["db".to_string()];
    let commit = parse("fix(api): x").unwrap();
    let errors = check(&commit, &config);
    assert_eq!(errors.len(), 2);
    assert_eq!(errors[0].kind, LintErrorKind::TypeInvalid);
    assert_eq!(errors[0].span, Span { start: 0, end: 3 });
    assert_eq!(errors[1].kind, LintErrorKind::ScopeInvalid);
    assert_eq!(errors[1].span, Span { start: 4, end: 3 });
}

#[test]
fn titles_and_casing_names() {
    assert_eq!(LintErrorKind::TypeInvalid.title(), "Invalid commit type");
    assert_eq!(LintErrorKind::ScopeRequired.title(), "Scope is required");
    assert_eq!(Casing::Kebab.name(), "kebab-case");
    assert_eq!(Casing::Pascal.name(), "PascalCase");
    assert_eq!(Casing::default(), Casing::Kebab);
}

#[test]
fn default_policy_values() {
    let config = Conf::default();
    assert_eq!(config.commit_type.types, vec!["*".to_string()]);
    assert_eq!(config.commit_type.min_length, 0);
    assert_eq!(config.commit_type.max_length, u32::MAX as usize);
    assert!(!config.commit_scope.required);
    assert_eq!(config.commit_scope.case, Casing::Kebab);
}

#[test]
fn help_texts_interpolate_the_policy() {
    let mut config = Conf::default();
    config.commit_type.types = vec!["fix".to_string(), "feat".to_string()];
    config.commit_type.min_length = 4;
    config.commit_scope.max_length = 120;
    config.commit_scope.case = Casing::Snake;
    assert_eq!(
        change_scribe::help(LintErrorKind::TypeInvalid, &config),
        "Valid types are: [\"fix\", \"feat\"]"
    );
    assert_eq!(
        change_scribe::help(LintErrorKind::TypeTooShort, &config),
        "The commit type must be at least 4 characters long"
    );
    assert_eq!(
        change_scribe::help(LintErrorKind::ScopeTooLong, &config),
        "The scope must be at most 120 characters long"
    );
    assert_eq!(
        change_scribe::help(LintErrorKind::ScopeCaseInvalid, &config),
        "The scope must be in `snake_case` case"
    );
    assert_eq!(
        change_scribe::help(LintErrorKind::ScopeInvalid, &config),
        "Valid scopes are: [\"*\"]"
    );
    assert_eq!(
        change_scribe::help(LintErrorKind::TypeTooLong, &Conf::default()),
        "The commit type must be at most 4294967295 characters long"
    );
}

#[test]
fn labels_point_at_the_type_or_ask_for_a_scope() {
    let commit = parse("fix: x").unwrap();
    assert_eq!(
        change_scribe::label(LintErrorKind::TypeCaseInvalid, &commit),
        Some("At the commit type".to_string())
    );
    assert_eq!(
        change_scribe::label(LintErrorKind::ScopeRequired, &commit),
        Some("Insert a scope after the commit type. e.g.: `fix(scope)`".to_string())
    );
    assert_eq!(change_scribe::label(LintErrorKind::ScopeInvalid, &commit), None);
}
