//! The rule table, the diagnostics it yields, and the pass that runs it.
use vstd::prelude::*;
use crate::commit::{joined, Commit};
use crate::grammar::{parse_spec, CommitModel};
use crate::parser::{parse, parse_outcome, ParseError};
use crate::text::byte_len;
use crate::policy::Conf;
use crate::rules::{
    commit_scope_case_invalid, commit_scope_invalid, commit_scope_required, commit_scope_too_long,
    commit_scope_too_short, commit_type_case_invalid, commit_type_invalid, commit_type_too_long,
    commit_type_too_short, scope_case_invalid, scope_invalid, scope_required, scope_too_long,
    scope_too_short, type_case_invalid, type_invalid, type_too_long, type_too_short,
};

verus! {

/// What a diagnostic reports.
#[derive(Clone, Copy, Debug, PartialEq, Eq, Structural)]
pub enum LintErrorKind {
    TypeInvalid,
    TypeTooShort,
    TypeTooLong,
    TypeCaseInvalid,
    ScopeRequired,
    ScopeInvalid,
    ScopeTooShort,
    ScopeTooLong,
    ScopeCaseInvalid,
}

impl LintErrorKind {
    pub open spec fn is_about_type(self) -> bool {
        match self {
            LintErrorKind::TypeInvalid | LintErrorKind::TypeTooShort | LintErrorKind::TypeTooLong
            | LintErrorKind::TypeCaseInvalid => true,
            _ => false,
        }
    }

    /// The short description of the violation.
    pub fn title(&self) -> (r: String)
        ensures
            r@ == kind_title(*self),
    {
        match self {
            LintErrorKind::TypeInvalid => "Invalid commit type".to_owned(),
            LintErrorKind::TypeTooShort => "The commit type is too short".to_owned(),
            LintErrorKind::TypeTooLong => "The commit type is too long".to_owned(),
            LintErrorKind::TypeCaseInvalid => "Invalid commit type case".to_owned(),
            LintErrorKind::ScopeRequired => "Scope is required".to_owned(),
            LintErrorKind::ScopeInvalid => "Invalid scope".to_owned(),
            LintErrorKind::ScopeTooShort => "The scope is too short".to_owned(),
            LintErrorKind::ScopeTooLong => "The scope is too long".to_owned(),
            LintErrorKind::ScopeCaseInvalid => "Invalid commit scope case".to_owned(),
        }
    }
}

pub open spec fn kind_title(k: LintErrorKind) -> Seq<char> {
    match k {
        LintErrorKind::TypeInvalid => "Invalid commit type"@,
        LintErrorKind::TypeTooShort => "The commit type is too short"@,
        LintErrorKind::TypeTooLong => "The commit type is too long"@,
        LintErrorKind::TypeCaseInvalid => "Invalid commit type case"@,
        LintErrorKind::ScopeRequired => "Scope is required"@,
        LintErrorKind::ScopeInvalid => "Invalid scope"@,
        LintErrorKind::ScopeTooShort => "The scope is too short"@,
        LintErrorKind::ScopeTooLong => "The scope is too long"@,
        LintErrorKind::ScopeCaseInvalid => "Invalid commit scope case"@,
    }
}

/// A range of bytes of the message: from `start`, up to `end`.
#[derive(Clone, Copy, Debug, PartialEq, Eq, Structural)]
pub struct Span {
    pub start: usize,
    pub end: usize,
}

/// One violated rule, with the bytes of the message it points at.
#[derive(Clone, Copy, Debug, PartialEq, Eq, Structural)]
pub struct LintError {
    pub kind: LintErrorKind,
    pub span: Span,
}

/// Whether the rule behind `k` triggers.
pub open spec fn fires(k: LintErrorKind, c: CommitModel, conf: Conf) -> bool {
    match k {
        LintErrorKind::TypeInvalid => type_invalid(c, conf),
        LintErrorKind::TypeTooShort => type_too_short(c, conf),
        LintErrorKind::TypeTooLong => type_too_long(c, conf),
        LintErrorKind::TypeCaseInvalid => type_case_invalid(c, conf),
        LintErrorKind::ScopeRequired => scope_required(c, conf),
        LintErrorKind::ScopeInvalid => scope_invalid(c, conf),
        LintErrorKind::ScopeTooShort => scope_too_short(c, conf),
        LintErrorKind::ScopeTooLong => scope_too_long(c, conf),
        LintErrorKind::ScopeCaseInvalid => scope_case_invalid(c, conf),
    }
}

/// The diagnostic of rule `k` on `c`: type rules point at the type, scope
/// rules at the scope.
pub open spec fn diagnostic(k: LintErrorKind, c: CommitModel) -> LintError {
    LintError {
        kind: k,
        span: if k.is_about_type() {
            Span { start: 0, end: byte_len(c.commit_type) as usize }
        } else {
            Span {
                start: (byte_len(c.commit_type) + 1) as usize,
                end: byte_len(joined(c.scope, ':')) as usize,
            }
        },
    }
}

/// The rules, in the order they are evaluated and reported.
pub open spec fn rule_order() -> Seq<LintErrorKind> {
    seq![
        LintErrorKind::TypeInvalid,
        LintErrorKind::TypeTooShort,
        LintErrorKind::TypeTooLong,
        LintErrorKind::TypeCaseInvalid,
        LintErrorKind::ScopeRequired,
        LintErrorKind::ScopeInvalid,
        LintErrorKind::ScopeTooShort,
        LintErrorKind::ScopeTooLong,
        LintErrorKind::ScopeCaseInvalid,
    ]
}

/// The diagnostics of the rules `ks` that trigger, in the order of `ks`.
pub open spec fn diagnostics_of(ks: Seq<LintErrorKind>, c: CommitModel, conf: Conf) -> Seq<LintError>
    decreases ks.len(),
{
    if ks.len() == 0 {
        Seq::empty()
    } else {
        let before = diagnostics_of(ks.drop_last(), c, conf);
        if fires(ks.last(), c, conf) {
            before.push(diagnostic(ks.last(), c))
        } else {
            before
        }
    }
}

/// Every diagnostic for `c` under `conf`, in rule order.
pub open spec fn diagnostics(c: CommitModel, conf: Conf) -> Seq<LintError> {
    diagnostics_of(rule_order(), c, conf)
}

fn rule_table() -> (r: Vec<LintErrorKind>)
    ensures
        r@ == rule_order(),
{
    let r = vec![
        LintErrorKind::TypeInvalid,
        LintErrorKind::TypeTooShort,
        LintErrorKind::TypeTooLong,
        LintErrorKind::TypeCaseInvalid,
        LintErrorKind::ScopeRequired,
        LintErrorKind::ScopeInvalid,
        LintErrorKind::ScopeTooShort,
        LintErrorKind::ScopeTooLong,
        LintErrorKind::ScopeCaseInvalid,
    ];
    assert(r@ =~= rule_order());
    r
}

/// Evaluates the rule behind `k`.
pub fn rule_fires(k: LintErrorKind, commit: &Commit, config: &Conf) -> (r: bool)
    ensures
        r == fires(k, commit.model(), *config),
{
    match k {
        LintErrorKind::TypeInvalid => commit_type_invalid(commit, config),
        LintErrorKind::TypeTooShort => commit_type_too_short(commit, config),
        LintErrorKind::TypeTooLong => commit_type_too_long(commit, config),
        LintErrorKind::TypeCaseInvalid => commit_type_case_invalid(commit, config),
        LintErrorKind::ScopeRequired => commit_scope_required(commit, config),
        LintErrorKind::ScopeInvalid => commit_scope_invalid(commit, config),
        LintErrorKind::ScopeTooShort => commit_scope_too_short(commit, config),
        LintErrorKind::ScopeTooLong => commit_scope_too_long(commit, config),
        LintErrorKind::ScopeCaseInvalid => commit_scope_case_invalid(commit, config),
    }
}

/// Runs every rule, none skipped, and returns the diagnostics of those that
/// trigger, in rule order.
pub fn check(commit: &Commit, config: &Conf) -> (r: Vec<LintError>)
    requires
        commit.spans_fit(),
    ensures
        r@ == diagnostics(commit.model(), *config),
{
    let table = rule_table();
    let mut out: Vec<LintError> = Vec::new();
    let mut i: usize = 0;
    while i < table.len()
        invariant
            commit.spans_fit(),
            table@ == rule_order(),
            i <= table@.len(),
            out@ == diagnostics_of(table@.take(i as int), commit.model(), *config),
        decreases table@.len() - i,
    {
        let k = table[i];
        proof {
            assert(table@.take(i + 1).drop_last() =~= table@.take(i as int));
        }
        if rule_fires(k, commit, config) {
            let span = match k {
                LintErrorKind::TypeInvalid | LintErrorKind::TypeTooShort
                | LintErrorKind::TypeTooLong | LintErrorKind::TypeCaseInvalid => commit.type_span(),
                _ => commit.scope_span(),
            };
            out.push(LintError { kind: k, span: Span { start: span.0, end: span.1 } });
        }
        i = i + 1;
    }
    proof {
        assert(table@.take(i as int) =~= table@);
    }
    out
}

/// Why a message was rejected.
#[derive(Clone, Debug)]
pub enum LintFailure {
    /// The message does not match the grammar; no rule ran.
    Parse(ParseError),
    /// The message parsed, and these rules triggered, in rule order.
    Violations(Vec<LintError>),
}

/// Parses the message, then runs every rule on it: clean when no rule
/// triggers, else the full list of violations.
pub fn lint(message: &str, config: &Conf) -> (r: Result<(), LintFailure>)
    ensures
        match r {
            Ok(()) => parse_spec(message@) is Ok && diagnostics(parse_spec(message@)->Ok_0, *config).len()
                == 0,
            Err(LintFailure::Parse(e)) => parse_outcome(message@, Err(e)),
            Err(LintFailure::Violations(v)) => parse_spec(message@) is Ok && v@ == diagnostics(
                parse_spec(message@)->Ok_0,
                *config,
            ) && v@.len() > 0,
        },
{
    let commit = match parse(message) {
        Ok(c) => c,
        Err(e) => {
            return Err(LintFailure::Parse(e));
        },
    };
    let errors = check(&commit, config);
    if errors.len() == 0 {
        Ok(())
    } else {
        Err(LintFailure::Violations(errors))
    }
}

} // verus!
