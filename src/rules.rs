//! The rules a parsed commit is held to, and the pass that runs them all.
use vstd::prelude::*;
use crate::casing::{case_conforms, conforms};
use crate::commit::Commit;
use crate::grammar::CommitModel;
use crate::policy::{wildcard, Conf};
use crate::text::{byte_len, string_of, text_len};

verus! {

/// Whether `s` is among the texts of `list`.
pub open spec fn listed(list: Seq<String>, s: Seq<char>) -> bool {
    exists|i: int| 0 <= i < list.len() && #[trigger] list[i]@ == s
}

fn contains_text(list: &Vec<String>, s: &String) -> (r: bool)
    ensures
        r == listed(list@, s@),
{
    let mut i: usize = 0;
    while i < list.len()
        invariant
            i <= list@.len(),
            forall|j: int| 0 <= j < i ==> list@[j]@ != s@,
        decreases list@.len() - i,
    {
        if list[i] == *s {
            return true;
        }
        i = i + 1;
    }
    false
}

fn allows_any(list: &Vec<String>) -> (r: bool)
    ensures
        r == listed(list@, wildcard()),
{
    let star = string_of(&['*']);
    proof {
        assert(['*']@ =~= wildcard());
    }
    contains_text(list, &star)
}

pub open spec fn type_invalid(c: CommitModel, conf: Conf) -> bool {
    !listed(conf.commit_type.types@, wildcard()) && !listed(conf.commit_type.types@, c.commit_type)
}

pub open spec fn type_too_short(c: CommitModel, conf: Conf) -> bool {
    byte_len(c.commit_type) <= conf.commit_type.min_length
}

pub open spec fn type_too_long(c: CommitModel, conf: Conf) -> bool {
    byte_len(c.commit_type) >= conf.commit_type.max_length
}

pub open spec fn type_case_invalid(c: CommitModel, conf: Conf) -> bool {
    !conforms(conf.commit_type.case, c.commit_type)
}

pub open spec fn scope_required(c: CommitModel, conf: Conf) -> bool {
    conf.commit_scope.required && c.scope.len() == 0
}

pub open spec fn scope_invalid(c: CommitModel, conf: Conf) -> bool {
    &&& c.scope.len() > 0
    &&& !listed(conf.commit_scope.scopes@, wildcard())
    &&& exists|i: int|
        0 <= i < c.scope.len() && !listed(conf.commit_scope.scopes@, #[trigger] c.scope[i])
}

pub open spec fn scope_too_short(c: CommitModel, conf: Conf) -> bool {
    exists|i: int|
        0 <= i < c.scope.len() && byte_len(#[trigger] c.scope[i]) <= conf.commit_scope.min_length
}

pub open spec fn scope_too_long(c: CommitModel, conf: Conf) -> bool {
    exists|i: int|
        0 <= i < c.scope.len() && byte_len(#[trigger] c.scope[i]) >= conf.commit_scope.max_length
}

pub open spec fn scope_case_invalid(c: CommitModel, conf: Conf) -> bool {
    exists|i: int|
        0 <= i < c.scope.len() && !conforms(conf.commit_scope.case, #[trigger] c.scope[i])
}

/// The type is neither allowed by a wildcard nor listed.
pub fn commit_type_invalid(commit: &Commit, config: &Conf) -> (r: bool)
    ensures
        r == type_invalid(commit.model(), *config),
{
    if allows_any(&config.commit_type.types) {
        false
    } else {
        !contains_text(&config.commit_type.types, &commit.commit_type)
    }
}

/// The type is not written in the configured casing style.
pub fn commit_type_case_invalid(commit: &Commit, config: &Conf) -> (r: bool)
    ensures
        r == type_case_invalid(commit.model(), *config),
{
    !case_conforms(commit.commit_type.as_str(), config.commit_type.case)
}

/// The type is no longer in bytes than `min_length`.
pub fn commit_type_too_short(commit: &Commit, config: &Conf) -> (r: bool)
    ensures
        r == type_too_short(commit.model(), *config),
{
    text_len(commit.commit_type.as_str()) <= config.commit_type.min_length
}

/// The type is at least `max_length` bytes long.
pub fn commit_type_too_long(commit: &Commit, config: &Conf) -> (r: bool)
    ensures
        r == type_too_long(commit.model(), *config),
{
    text_len(commit.commit_type.as_str()) >= config.commit_type.max_length
}

/// A scope is required and the commit names none.
pub fn commit_scope_required(commit: &Commit, config: &Conf) -> (r: bool)
    ensures
        r == scope_required(commit.model(), *config),
{
    if config.commit_scope.required {
        commit.scope.len() == 0
    } else {
        false
    }
}

/// Some scope entry is neither allowed by a wildcard nor listed.
pub fn commit_scope_invalid(commit: &Commit, config: &Conf) -> (r: bool)
    ensures
        r == scope_invalid(commit.model(), *config),
{
    if commit.scope.len() == 0 {
        return false;
    }
    if allows_any(&config.commit_scope.scopes) {
        return false;
    }
    let mut i: usize = 0;
    while i < commit.scope.len()
        invariant
            i <= commit.scope@.len(),
            commit.scope@.len() > 0,
            !listed(config.commit_scope.scopes@, wildcard()),
            forall|j: int| 0 <= j < i ==> listed(config.commit_scope.scopes@, #[trigger] commit.scope@[j]@),
        decreases commit.scope@.len() - i,
    {
        if !contains_text(&config.commit_scope.scopes, &commit.scope[i]) {
            assert(!listed(config.commit_scope.scopes@, commit.scope@[i as int]@));
            assert(commit.model().scope[i as int] == commit.scope@[i as int]@);
            return true;
        }
        i = i + 1;
    }
    false
}

/// Some scope entry is no longer in bytes than `min_length`.
pub fn commit_scope_too_short(commit: &Commit, config: &Conf) -> (r: bool)
    ensures
        r == scope_too_short(commit.model(), *config),
{
    let mut i: usize = 0;
    while i < commit.scope.len()
        invariant
            i <= commit.scope@.len(),
            forall|j: int| 0 <= j < i ==> byte_len(#[trigger] commit.scope@[j]@) > config.commit_scope.min_length,
        decreases commit.scope@.len() - i,
    {
        if text_len(commit.scope[i].as_str()) <= config.commit_scope.min_length {
            assert(commit.model().scope[i as int] == commit.scope@[i as int]@);
            return true;
        }
        i = i + 1;
    }
    false
}

/// Some scope entry is at least `max_length` bytes long.
pub fn commit_scope_too_long(commit: &Commit, config: &Conf) -> (r: bool)
    ensures
        r == scope_too_long(commit.model(), *config),
{
    let mut i: usize = 0;
    while i < commit.scope.len()
        invariant
            i <= commit.scope@.len(),
            forall|j: int| 0 <= j < i ==> byte_len(#[trigger] commit.scope@[j]@) < config.commit_scope.max_length,
        decreases commit.scope@.len() - i,
    {
        if text_len(commit.scope[i].as_str()) >= config.commit_scope.max_length {
            assert(commit.model().scope[i as int] == commit.scope@[i as int]@);
            return true;
        }
        i = i + 1;
    }
    false
}

/// Some scope entry is not written in the configured casing style.
pub fn commit_scope_case_invalid(commit: &Commit, config: &Conf) -> (r: bool)
    ensures
        r == scope_case_invalid(commit.model(), *config),
{
    let mut i: usize = 0;
    while i < commit.scope.len()
        invariant
            i <= commit.scope@.len(),
            forall|j: int| 0 <= j < i ==> conforms(config.commit_scope.case, #[trigger] commit.scope@[j]@),
        decreases commit.scope@.len() - i,
    {
        if !case_conforms(commit.scope[i].as_str(), config.commit_scope.case) {
            assert(commit.model().scope[i as int] == commit.scope@[i as int]@);
            return true;
        }
        i = i + 1;
    }
    false
}

} // verus!
