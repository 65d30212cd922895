//! The label and the help text that accompany each diagnostic.
use vstd::prelude::*;
use crate::commit::{view_texts, Commit};
use crate::casing::casing_name;
use crate::lint::LintErrorKind;
use crate::policy::Conf;
use crate::text::{chars_of, string_of};

verus! {

pub open spec fn digit(d: nat) -> char {
    seq!['0', '1', '2', '3', '4', '5', '6', '7', '8', '9'][d as int]
}

/// The decimal digits of `n`, most significant first, without leading zeros.
pub open spec fn decimal(n: nat) -> Seq<char>
    decreases n,
{
    if n < 10 {
        seq![digit(n)]
    } else {
        decimal(n / 10).push(digit(n % 10))
    }
}

/// Relies on `usize`'s `Display`, through `ToString`: the decimal digits of `n`.
#[verifier::external_body]
fn decimal_text(n: usize) -> (r: String)
    ensures
        r@ == decimal(n as nat),
{
    n.to_string()
}

/// The list as `Debug` writes a `Vec<String>`: each text quoted and escaped,
/// separated by commas, in brackets.
pub uninterp spec fn debug_list(v: Seq<Seq<char>>) -> Seq<char>;

/// Relies on `Debug` for `Vec<String>`: a text that depends on the strings alone.
#[verifier::external_body]
fn debug_text(v: &Vec<String>) -> (r: String)
    ensures
        r@ == debug_list(view_texts(v@)),
{
    format!("{:?}", v)
}

/// The text `a` followed by `b`.
fn concat(a: &str, b: &str) -> (r: String)
    ensures
        r@ == a@ + b@,
{
    let mut v = chars_of(a);
    let w = chars_of(b);
    let ghost start = v@;
    let mut i: usize = 0;
    while i < w.len()
        invariant
            i <= w@.len(),
            v@ == start + w@.take(i as int),
        decreases w@.len() - i,
    {
        v.push(w[i]);
        assert(start + w@.take(i + 1) =~= (start + w@.take(i as int)).push(w@[i as int]));
        i = i + 1;
    }
    assert(w@.take(i as int) =~= w@);
    string_of(v.as_slice())
}

/// What a diagnostic of kind `k` says at its span, when it says more than
/// pointing there.
pub open spec fn label_of(k: LintErrorKind, commit_type: Seq<char>) -> Option<Seq<char>> {
    if k.is_about_type() {
        Some("At the commit type"@)
    } else if k == LintErrorKind::ScopeRequired {
        Some("Insert a scope after the commit type. e.g.: `"@ + commit_type + "(scope)`"@)
    } else {
        None
    }
}

/// The help of a diagnostic of kind `k`, built from the policy.
pub open spec fn help_of(k: LintErrorKind, conf: Conf) -> Seq<char> {
    match k {
        LintErrorKind::TypeInvalid => "Valid types are: "@ + debug_list(
            view_texts(conf.commit_type.types@),
        ),
        LintErrorKind::TypeTooShort => "The commit type must be at least "@ + decimal(
            conf.commit_type.min_length as nat,
        ) + " characters long"@,
        LintErrorKind::TypeTooLong => "The commit type must be at most "@ + decimal(
            conf.commit_type.max_length as nat,
        ) + " characters long"@,
        LintErrorKind::TypeCaseInvalid => "The commit type must be in `"@ + casing_name(
            conf.commit_type.case,
        ) + "` case"@,
        LintErrorKind::ScopeRequired | LintErrorKind::ScopeInvalid => "Valid scopes are: "@
            + debug_list(view_texts(conf.commit_scope.scopes@)),
        LintErrorKind::ScopeTooShort => "The scope must be at least "@ + decimal(
            conf.commit_scope.min_length as nat,
        ) + " characters long"@,
        LintErrorKind::ScopeTooLong => "The scope must be at most "@ + decimal(
            conf.commit_scope.max_length as nat,
        ) + " characters long"@,
        LintErrorKind::ScopeCaseInvalid => "The scope must be in `"@ + casing_name(
            conf.commit_scope.case,
        ) + "` case"@,
    }
}

/// The label of a diagnostic of kind `kind` on `commit`.
pub fn label(kind: LintErrorKind, commit: &Commit) -> (r: Option<String>)
    ensures
        match r {
            Some(t) => label_of(kind, commit.commit_type@) == Some(t@),
            None => label_of(kind, commit.commit_type@) is None,
        },
{
    match kind {
        LintErrorKind::TypeInvalid | LintErrorKind::TypeTooShort | LintErrorKind::TypeTooLong
        | LintErrorKind::TypeCaseInvalid => Some("At the commit type".to_owned()),
        LintErrorKind::ScopeRequired => {
            let head = concat("Insert a scope after the commit type. e.g.: `", commit.commit_type.as_str());
            Some(concat(head.as_str(), "(scope)`"))
        },
        _ => None,
    }
}

/// The help of a diagnostic of kind `kind` under `config`.
pub fn help(kind: LintErrorKind, config: &Conf) -> (r: String)
    ensures
        r@ == help_of(kind, *config),
{
    match kind {
        LintErrorKind::TypeInvalid => {
            concat("Valid types are: ", debug_text(&config.commit_type.types).as_str())
        },
        LintErrorKind::TypeTooShort => {
            let head = concat(
                "The commit type must be at least ",
                decimal_text(config.commit_type.min_length).as_str(),
            );
            concat(head.as_str(), " characters long")
        },
        LintErrorKind::TypeTooLong => {
            let head = concat(
                "The commit type must be at most ",
                decimal_text(config.commit_type.max_length).as_str(),
            );
            concat(head.as_str(), " characters long")
        },
        LintErrorKind::TypeCaseInvalid => {
            let head = concat("The commit type must be in `", config.commit_type.case.name().as_str());
            concat(head.as_str(), "` case")
        },
        LintErrorKind::ScopeRequired | LintErrorKind::ScopeInvalid => {
            concat("Valid scopes are: ", debug_text(&config.commit_scope.scopes).as_str())
        },
        LintErrorKind::ScopeTooShort => {
            let head = concat(
                "The scope must be at least ",
                decimal_text(config.commit_scope.min_length).as_str(),
            );
            concat(head.as_str(), " characters long")
        },
        LintErrorKind::ScopeTooLong => {
            let head = concat(
                "The scope must be at most ",
                decimal_text(config.commit_scope.max_length).as_str(),
            );
            concat(head.as_str(), " characters long")
        },
        LintErrorKind::ScopeCaseInvalid => {
            let head = concat("The scope must be in `", config.commit_scope.case.name().as_str());
            concat(head.as_str(), "` case")
        },
    }
}

} // verus!
