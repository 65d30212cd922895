//! Properties that relate the parser and the rule engine across inputs.
use vstd::prelude::*;
use crate::commit::joined;
use crate::grammar::{
    blank_line, body_from, find_from, footer_from, header_end, last_comma, matches_at,
    parse_spec, run_end, separator, split_commas, type_char, CommitModel,
};
use crate::lint::{diagnostics, diagnostics_of, fires, LintError, LintErrorKind};
use crate::parser::{parse_outcome, ParseError};
use crate::commit::{footer_map, Commit};
use crate::policy::{wildcard, Conf};
use crate::rules::{listed, type_invalid, type_too_short};
use crate::text::byte_len;

verus! {

/// Whether `c` occurs nowhere in `x`.
pub open spec fn lacks(x: Seq<char>, c: char) -> bool {
    forall|j: int| 0 <= j < x.len() ==> x[j] != c
}

/// A header with the given type, scope entries and subject: the entries in
/// parentheses, joined by commas, when there are any.
pub open spec fn header_text(ty: Seq<char>, scopes: Seq<Seq<char>>, subject: Seq<char>) -> Seq<
    char,
> {
    if scopes.len() == 0 {
        ty + separator() + subject
    } else {
        ty + seq!['('] + joined(scopes, ',') + seq![')'] + separator() + subject
    }
}

proof fn lemma_run_end_to(s: Seq<char>, i: int, n: int)
    requires
        0 <= i <= n <= s.len(),
        forall|j: int| i <= j < n ==> type_char(#[trigger] s[j]),
        n < s.len() ==> !type_char(s[n]),
    ensures
        run_end(s, i) == n,
    decreases n - i,
{
    if i < n {
        lemma_run_end_to(s, i + 1, n);
    }
}

proof fn lemma_find_char(s: Seq<char>, p: int, q: int, c: char)
    requires
        0 <= p <= q < s.len(),
        s[q] == c,
        forall|j: int| p <= j < q ==> #[trigger] s[j] != c,
    ensures
        find_from(s, p, seq![c]) == q,
    decreases q - p,
{
    if p < q {
        assert(s.subrange(p, p + 1)[0] == s[p]);
        lemma_find_char(s, p + 1, q, c);
    } else {
        assert(s.subrange(q, q + 1) =~= seq![c]);
    }
}

proof fn lemma_find_no_blank(s: Seq<char>, p: int)
    requires
        0 <= p <= s.len(),
        forall|j: int| p <= j < s.len() ==> #[trigger] s[j] != '\n',
    ensures
        find_from(s, p, blank_line()) == -1,
    decreases s.len() - p,
{
    if p + 2 <= s.len() {
        assert(s.subrange(p, p + 2)[0] == s[p]);
        lemma_find_no_blank(s, p + 1);
    }
}

proof fn lemma_joined_lacks(v: Seq<Seq<char>>, sep: char, c: char)
    requires
        sep != c,
        forall|i: int| 0 <= i < v.len() ==> lacks(#[trigger] v[i], c),
    ensures
        lacks(joined(v, sep), c),
    decreases v.len(),
{
    if v.len() >= 2 {
        lemma_joined_lacks(v.drop_last(), sep, c);
        assert(lacks(v.last(), c));
    }
}

proof fn lemma_last_comma_none(t: Seq<char>)
    requires
        lacks(t, ','),
    ensures
        last_comma(t) == -1,
    decreases t.len(),
{
    if t.len() > 0 {
        lemma_last_comma_none(t.drop_last());
    }
}

proof fn lemma_last_comma_after(a: Seq<char>, b: Seq<char>)
    requires
        lacks(b, ','),
    ensures
        last_comma(a + seq![','] + b) == a.len(),
    decreases b.len(),
{
    let x = a + seq![','] + b;
    if b.len() > 0 {
        assert(x.drop_last() =~= a + seq![','] + b.drop_last());
        lemma_last_comma_after(a, b.drop_last());
    }
}

/// Joining entries that hold no comma by commas, and cutting at the commas
/// again, gives the entries back.
pub proof fn lemma_split_joined(v: Seq<Seq<char>>)
    requires
        v.len() >= 1,
        forall|i: int| 0 <= i < v.len() ==> lacks(#[trigger] v[i], ','),
    ensures
        split_commas(joined(v, ',')) == v,
    decreases v.len(),
{
    if v.len() == 1 {
        lemma_last_comma_none(v[0]);
        assert(seq![v[0]] =~= v);
    } else {
        let a = joined(v.drop_last(), ',');
        let x = a + seq![','] + v.last();
        assert(lacks(v.last(), ','));
        lemma_last_comma_after(a, v.last());
        assert(x.take(a.len() as int) =~= a);
        assert(x.skip(a.len() as int + 1) =~= v.last());
        lemma_split_joined(v.drop_last());
        assert(v.drop_last().push(v.last()) =~= v);
    }
}

/// A header with a type, scope entries free of `,` and `)`, and a one-line
/// subject parses to exactly that type, those entries in order, and that
/// subject.
pub proof fn lemma_header_round_trip(
    ty: Seq<char>,
    scopes: Seq<Seq<char>>,
    subject: Seq<char>,
    r: Result<Commit, ParseError>,
)
    requires
        ty.len() > 0,
        forall|i: int| 0 <= i < ty.len() ==> type_char(#[trigger] ty[i]),
        forall|i: int|
            0 <= i < scopes.len() ==> lacks(#[trigger] scopes[i], ',') && lacks(scopes[i], ')'),
        subject.len() > 0,
        lacks(subject, '\n'),
        parse_outcome(header_text(ty, scopes, subject), r),
    ensures
        parse_spec(header_text(ty, scopes, subject)) == Ok::<CommitModel, int>(
            CommitModel {
                commit_type: ty,
                scope: scopes,
                breaking_change: false,
                subject,
                body: None,
                footer: Map::empty(),
            },
        ),
        r is Ok,
        r->Ok_0.commit_type@ == ty,
        r->Ok_0.scope_view() == scopes,
{
    let s = header_text(ty, scopes, subject);
    let n = ty.len() as int;
    let h: int;
    if scopes.len() == 0 {
        h = n;
        assert(s[n] == ':');
        assert(s.take(n) =~= ty);
    } else {
        let jn = joined(scopes, ',');
        let c = n + 1 + jn.len();
        h = c + 1;
        assert(s[n] == '(');
        assert(s.take(n) =~= ty);
        assert(s.subrange(n + 1, c) =~= jn);
        lemma_joined_lacks(scopes, ',', ')');
        assert forall|j: int| n + 1 <= j < c implies #[trigger] s[j] != ')' by {
            assert(s[j] == jn[j - n - 1]);
        }
        lemma_find_char(s, n + 1, c, ')');
        assert(s[h] == ':');
        lemma_split_joined(scopes);
    }
    assert forall|j: int| 0 <= j < n implies type_char(#[trigger] s[j]) by {
        assert(s[j] == ty[j]);
    }
    lemma_run_end_to(s, 0, n);
    assert(header_end(s) == h);
    assert(s.subrange(h, h + 2) =~= separator());
    assert(s.skip(h + 2) =~= subject);
    assert forall|j: int| h + 2 <= j < s.len() implies #[trigger] s[j] != '\n' by {
        assert(s[j] == subject[j - h - 2]);
    }
    lemma_find_no_blank(s, h + 2);
    assert(s.subrange(h + 2, s.len() as int) =~= subject);
    assert(footer_map(Seq::empty()) =~= Map::<Seq<char>, Seq<char>>::empty());
    assert(crate::grammar::subject_end(s, h + 2) == s.len());
    assert(body_from(s, s.len() as int, Seq::empty(), false) == Ok::<(int, Seq<char>, bool), int>(
        (s.len() as int, Seq::empty(), false),
    ));
    assert(footer_from(s, s.len() as int) == Ok::<Seq<(Seq<char>, Seq<char>)>, int>(
        Seq::empty(),
    ));
    assert(!crate::grammar::header_bang(s));
    assert(crate::grammar::header_scope(s) == scopes);
}

/// A message that does not start with a type fails at offset zero; one whose
/// type, scope and breaking marker are not followed by `": "` fails at the
/// byte offset where that separator should begin.
pub proof fn lemma_header_failure(s: Seq<char>, r: Result<Commit, ParseError>)
    requires
        parse_outcome(s, r),
    ensures
        run_end(s, 0) == 0 ==> r is Err && r->Err_0.offset == 0,
        run_end(s, 0) > 0 && !matches_at(s, header_end(s), separator()) ==> r is Err
            && r->Err_0.offset == byte_len(s.take(header_end(s))),
{
    assert(s.take(0) =~= Seq::<char>::empty());
}

/// Each diagnostic in the list is of a rule that triggers.
proof fn lemma_diagnostics_fired(ks: Seq<LintErrorKind>, c: CommitModel, conf: Conf)
    ensures
        forall|i: int|
            0 <= i < diagnostics_of(ks, c, conf).len() ==> fires(
                (#[trigger] diagnostics_of(ks, c, conf)[i]).kind,
                c,
                conf,
            ),
    decreases ks.len(),
{
    if ks.len() > 0 {
        lemma_diagnostics_fired(ks.drop_last(), c, conf);
    }
}

/// With a `*` among the allowed types, the type is never reported invalid,
/// whatever it is.
pub proof fn lemma_type_wildcard(c: CommitModel, conf: Conf)
    requires
        listed(conf.commit_type.types@, wildcard()),
    ensures
        !type_invalid(c, conf),
        forall|i: int|
            0 <= i < diagnostics(c, conf).len() ==> (#[trigger] diagnostics(c, conf)[i]).kind
                != LintErrorKind::TypeInvalid,
{
    lemma_diagnostics_fired(crate::lint::rule_order(), c, conf);
}

/// With `min_length` equal to `n`, a type of `n` bytes is too short and one
/// of `n + 1` bytes is not.
pub proof fn lemma_type_min_boundary(c: CommitModel, conf: Conf, n: usize)
    requires
        conf.commit_type.min_length == n,
    ensures
        byte_len(c.commit_type) == n ==> type_too_short(c, conf),
        byte_len(c.commit_type) == n + 1 ==> !type_too_short(c, conf),
{
}

/// Evaluating the rules twice on the same commit and policy gives the same
/// diagnostics, in the same order.
pub proof fn lemma_check_idempotent(
    commit: CommitModel,
    config: Conf,
    first: Seq<LintError>,
    second: Seq<LintError>,
)
    requires
        first == diagnostics(commit, config),
        second == diagnostics(commit, config),
    ensures
        first == second,
{
}

} // verus!
