//! The parser: from the text of a message to a [`Commit`], or to the byte
//! offset where the message stops matching the grammar.
use vstd::prelude::*;
use crate::commit::{footer_map, joined, keys_unique, view_entries, view_texts, Commit};
use crate::grammar::{
    blank_line, body_from, breaking_key, footer_from, footer_key_at, last_comma,
    parse_spec, split_commas, trim_end, value_end, CommitModel,
};
use crate::scan::{
    blank_line_chars, breaking_key_chars, find, footer_key, matches_lit, run_end_at,
    separator_chars, split_at_commas, text_of, trimmed_end, value_end_at,
};
use crate::text::{
    byte_len, byte_offset, chars_of, fits, lemma_byte_len_ascii, lemma_byte_len_concat,
    lemma_byte_len_prefix, lemma_byte_len_push, lemma_byte_len_subrange, lemma_char_width_pos,
    string_of, text_len,
};

verus! {

/// The message does not match the grammar; matching stopped at `offset`
/// bytes into it.
#[derive(Clone, Copy, Debug, PartialEq, Eq, Structural)]
pub struct ParseError {
    pub offset: usize,
}

impl ParseError {
    /// The short description of the failure.
    pub fn title(&self) -> (r: String)
        ensures
            r@ == "Invalid commit type syntax"@,
    {
        "Invalid commit type syntax".to_owned()
    }
}

/// Overwriting the value of a key that a list with unique keys holds gives
/// the mapping with that key set anew.
pub proof fn lemma_footer_replace(
    e: Seq<(Seq<char>, Seq<char>)>,
    j: int,
    k: Seq<char>,
    v: Seq<char>,
)
    requires
        keys_unique(e),
        0 <= j < e.len(),
        e[j].0 == k,
    ensures
        footer_map(e.update(j, (k, v))) == footer_map(e).insert(k, v),
        keys_unique(e.update(j, (k, v))),
    decreases e.len(),
{
    let u = e.update(j, (k, v));
    if j == e.len() - 1 {
        assert(u.drop_last() =~= e.drop_last());
        assert(footer_map(u) =~= footer_map(e).insert(k, v));
    } else {
        assert(u.drop_last() =~= e.drop_last().update(j, (k, v)));
        lemma_footer_replace(e.drop_last(), j, k, v);
        assert(e.last().0 != k);
        assert(footer_map(u) =~= footer_map(e).insert(k, v));
    }
}

/// Sets `key` to `value`, keeping keys unique.
fn insert_entry(footer: &mut Vec<(String, String)>, key: String, value: String)
    requires
        keys_unique(view_entries(old(footer)@)),
    ensures
        keys_unique(view_entries(final(footer)@)),
        footer_map(view_entries(final(footer)@)) == footer_map(view_entries(old(footer)@)).insert(
            key@,
            value@,
        ),
{
    let mut i: usize = 0;
    while i < footer.len()
        invariant
            i <= footer@.len(),
            footer@ == old(footer)@,
            keys_unique(view_entries(footer@)),
            forall|j: int| 0 <= j < i ==> footer@[j].0@ != key@,
        decreases footer@.len() - i,
    {
        if footer[i].0 == key {
            let ghost before = view_entries(footer@);
            let ghost kv = key@;
            let ghost vv = value@;
            footer[i] = (key, value);
            proof {
                assert(view_entries(footer@) =~= before.update(i as int, (kv, vv)));
                lemma_footer_replace(before, i as int, kv, vv);
            }
            return;
        }
        i = i + 1;
    }
    let ghost before = view_entries(footer@);
    let ghost entry = (key@, value@);
    footer.push((key, value));
    proof {
        assert(view_entries(footer@) =~= before.push(entry));
        assert(before.push(entry).drop_last() =~= before);
    }
}

/// `done` followed by what `r` holds, or the failure of `r`.
pub open spec fn prepend(
    done: Seq<(Seq<char>, Seq<char>)>,
    r: Result<Seq<(Seq<char>, Seq<char>)>, int>,
) -> Result<Seq<(Seq<char>, Seq<char>)>, int> {
    match r {
        Ok(rest) => Ok(done + rest),
        Err(e) => Err(e),
    }
}

/// Reads the footer from `fs` on: its entries, and whether one has the
/// key `BREAKING CHANGE`.
fn parse_footer(s: &Vec<char>, fs: usize) -> (r: Result<(Vec<(String, String)>, bool), usize>)
    requires
        fs <= s@.len(),
    ensures
        match r {
            Ok((f, b)) => footer_from(s@, fs as int) is Ok && footer_map(view_entries(f@))
                == footer_map(footer_from(s@, fs as int)->Ok_0) && keys_unique(view_entries(f@))
                && b == footer_map(footer_from(s@, fs as int)->Ok_0).dom().contains(
                breaking_key(),
            ),
            Err(k) => footer_from(s@, fs as int) == Err::<Seq<(Seq<char>, Seq<char>)>, int>(
                k as int,
            ) && k <= s@.len(),
        },
{
    let mut footer: Vec<(String, String)> = Vec::new();
    let mut breaking = false;
    let mut pos = fs;
    let ghost mut done: Seq<(Seq<char>, Seq<char>)> = Seq::empty();
    proof {
        assert(done + Seq::<(Seq<char>, Seq<char>)>::empty() =~= done);
        assert(view_entries(footer@) =~= done);
    }
    while pos < s.len()
        invariant
            fs <= pos <= s@.len(),
            footer_from(s@, fs as int) == prepend(done, footer_from(s@, pos as int)),
            footer_map(view_entries(footer@)) == footer_map(done),
            keys_unique(view_entries(footer@)),
            breaking == footer_map(done).dom().contains(breaking_key()),
        decreases s@.len() - pos,
    {
        match footer_key(s, pos) {
            None => {
                return Err(pos);
            },
            Some((ke, vs)) => {
                let ve = value_end_at(s, vs);
                let te = trimmed_end(s, vs, ve);
                let key = text_of(s, pos, ke);
                let value = text_of(s, vs, te);
                let is_breaking = ke - pos == 15 && matches_lit(s, pos, &breaking_key_chars());
                let ghost entry = (key@, value@);
                proof {
                    assert(breaking_key().len() == 15);
                    assert(is_breaking == (key@ == breaking_key()));
                    assert(entry == (s@.subrange(pos as int, ke as int), trim_end(
                        s@.subrange(vs as int, ve as int),
                    )));
                    match footer_from(s@, ve as int) {
                        Ok(rest) => {
                            assert(done + (seq![entry] + rest) =~= done.push(entry) + rest);
                        },
                        Err(e) => {},
                    }
                    assert(done.push(entry).drop_last() =~= done);
                }
                insert_entry(&mut footer, key, value);
                breaking = breaking || is_breaking;
                proof {
                    done = done.push(entry);
                }
                pos = ve;
            },
        }
    }
    proof {
        assert(done + Seq::<(Seq<char>, Seq<char>)>::empty() =~= done);
    }
    Ok((footer, breaking))
}

/// Appends `s[a..b]` to `acc`.
fn push_range(acc: &mut Vec<char>, s: &Vec<char>, a: usize, b: usize)
    requires
        a <= b <= s@.len(),
    ensures
        final(acc)@ == old(acc)@ + s@.subrange(a as int, b as int),
{
    let mut i = a;
    while i < b
        invariant
            a <= i <= b <= s@.len(),
            acc@ == old(acc)@ + s@.subrange(a as int, i as int),
        decreases b - i,
    {
        acc.push(s[i]);
        assert(old(acc)@ + s@.subrange(a as int, i + 1) =~= (old(acc)@ + s@.subrange(
            a as int,
            i as int,
        )).push(s@[i as int]));
        i = i + 1;
    }
}

/// Reads body paragraphs from `se` on, up to the footer: where the footer
/// starts, the paragraphs joined, and whether there was any.
fn parse_body(s: &Vec<char>, se: usize) -> (r: Result<(usize, Vec<char>, bool), usize>)
    requires
        se <= s@.len(),
    ensures
        match r {
            Ok((fs, acc, seen)) => body_from(s@, se as int, Seq::empty(), false) == Ok::<
                (int, Seq<char>, bool),
                int,
            >((fs as int, acc@, seen)) && fs <= s@.len(),
            Err(k) => body_from(s@, se as int, Seq::empty(), false) == Err::<
                (int, Seq<char>, bool),
                int,
            >(k as int) && k <= s@.len(),
        },
{
    let mut acc: Vec<char> = Vec::new();
    let mut seen = false;
    let mut pos = se;
    let blank = blank_line_chars();
    proof {
        assert(acc@ =~= Seq::<char>::empty());
    }
    while pos < s.len()
        invariant
            se <= pos <= s@.len(),
            blank@ == blank_line(),
            body_from(s@, se as int, Seq::empty(), false) == body_from(
                s@,
                pos as int,
                acc@,
                seen,
            ),
        decreases s@.len() - pos,
    {
        if !matches_lit(s, pos, &blank) {
            return Err(pos);
        }
        let q = pos + 2;
        if footer_key(s, q).is_some() {
            return Ok((q, acc, seen));
        }
        match find(s, q, &blank) {
            Some(e) => {
                push_range(&mut acc, s, q, e);
                seen = true;
                pos = e;
            },
            None => {
                if q < s.len() {
                    let n = s.len();
                    push_range(&mut acc, s, q, n);
                    seen = true;
                    pos = n;
                } else {
                    return Err(q);
                }
            },
        }
    }
    Ok((pos, acc, seen))
}

} // verus!

verus! {

/// The last comma lies within the text, and is a comma.
pub proof fn lemma_last_comma_bounds(t: Seq<char>)
    ensures
        -1 <= last_comma(t) < t.len(),
        last_comma(t) >= 0 ==> t[last_comma(t)] == ',',
    decreases t.len(),
{
    if t.len() > 0 && t.last() != ',' {
        lemma_last_comma_bounds(t.drop_last());
    }
}

/// Cutting at commas and joining with `:` keeps the byte length.
pub proof fn lemma_split_joined_len(t: Seq<char>)
    ensures
        split_commas(t).len() >= 1,
        byte_len(joined(split_commas(t), ':')) == byte_len(t),
    decreases t.len(),
{
    let k = last_comma(t);
    lemma_last_comma_bounds(t);
    if 0 <= k {
        let v = split_commas(t.take(k));
        let y = t.skip(k + 1);
        lemma_split_joined_len(t.take(k));
        assert(v.push(y).drop_last() =~= v);
        lemma_byte_len_concat(joined(v, ':'), seq![':']);
        lemma_byte_len_concat(joined(v, ':') + seq![':'], y);
        lemma_byte_len_ascii(':');
        lemma_byte_len_ascii(',');
        assert(t =~= t.take(k) + seq![','] + y);
        lemma_byte_len_concat(t.take(k), seq![',']);
        lemma_byte_len_concat(t.take(k) + seq![','], y);
    }
}

fn close_paren_chars() -> (r: Vec<char>)
    ensures
        r@ == seq![')'],
{
    let r = vec![')'];
    assert(r@ =~= seq![')']);
    r
}

/// Whether `parse` answered `r` on the text `s`: the record the grammar
/// gives, or the byte offset of the character where matching stopped.
pub open spec fn parse_outcome(s: Seq<char>, r: Result<Commit, ParseError>) -> bool {
    match r {
        Ok(c) => parse_spec(s) == Ok::<CommitModel, int>(c.model()) && c.source@ == s && c.wf(),
        Err(e) => parse_spec(s) is Err && 0 <= parse_spec(s)->Err_0 <= s.len() && e.offset
            == byte_len(s.take(parse_spec(s)->Err_0)),
    }
}

fn fail_at(s: &Vec<char>, k: usize) -> (r: ParseError)
    requires
        k <= s@.len(),
        fits(s@),
    ensures
        r.offset == byte_len(s@.take(k as int)),
{
    ParseError { offset: byte_offset(s, k) }
}

/// Parses a commit message.
pub fn parse(message: &str) -> (r: Result<Commit, ParseError>)
    ensures
        parse_outcome(message@, r),
{
    let total = text_len(message);
    let s = chars_of(message);
    assert(fits(s@) && total == byte_len(s@));
    let t = run_end_at(&s, 0);
    if t == 0 {
        return Err(fail_at(&s, 0));
    }
    let mut scope: Vec<String> = Vec::new();
    let mut p = t;
    if t < s.len() && s[t] == '(' {
        match find(&s, t + 1, &close_paren_chars()) {
            Some(c) => {
                scope = split_at_commas(&s, t + 1, c);
                p = c + 1;
            },
            None => {},
        }
    }
    proof {
        assert(view_texts(scope@) == crate::grammar::header_scope(s@));
    }
    let bang = p < s.len() && s[p] == '!';
    let h = if bang {
        p + 1
    } else {
        p
    };
    assert(h == crate::grammar::header_end(s@));
    if !matches_lit(&s, h, &separator_chars()) {
        return Err(fail_at(&s, h));
    }
    let subj = h + 2;
    let se = match find(&s, subj, &blank_line_chars()) {
        Some(k) => k,
        None => s.len(),
    };
    if se == subj {
        return Err(fail_at(&s, subj));
    }
    let (fs, acc, seen) = match parse_body(&s, se) {
        Ok(x) => x,
        Err(k) => {
            return Err(fail_at(&s, k));
        },
    };
    let (footer, footer_breaking) = match parse_footer(&s, fs) {
        Ok(x) => x,
        Err(k) => {
            return Err(fail_at(&s, k));
        },
    };
    let body = if seen {
        Some(string_of(acc.as_slice()))
    } else {
        None
    };
    let commit = Commit {
        commit_type: text_of(&s, 0, t),
        scope,
        breaking_change: bang || footer_breaking,
        subject: text_of(&s, subj, se),
        body,
        footer,
        source: message.to_owned(),
    };
    proof {
        assert(s@.subrange(0, t as int) =~= s@.take(t as int));
        lemma_byte_len_push(s@.take(t as int), s@[t as int]);
        assert(s@.take(t as int).push(s@[t as int]) =~= s@.take(t + 1));
        lemma_byte_len_prefix(s@, t + 1);
        lemma_char_width_pos(s@[t as int]);
        let sv = commit.scope_view();
        if sv.len() > 0 {
            let c = crate::grammar::scope_close(s@, t as int);
            lemma_split_joined_len(s@.subrange(t + 1, c));
            lemma_byte_len_subrange(s@, t + 1, c);
        }
        assert(commit.model() == parse_spec(s@)->Ok_0);
    }
    Ok(commit)
}

} // verus!

verus! {

/// Reads a footer key at the start of `input`: the key, and the text after
/// its separator.
pub fn parse_footer_key(input: &str) -> (r: Option<(String, String)>)
    ensures
        match r {
            Some((k, rest)) => footer_key_at(input@, 0) is Some && k@ == input@.take(
                footer_key_at(input@, 0)->Some_0.0,
            ) && rest@ == input@.skip(footer_key_at(input@, 0)->Some_0.1),
            None => footer_key_at(input@, 0) is None,
        },
{
    let s = chars_of(input);
    match footer_key(&s, 0) {
        Some((a, b)) => {
            let n = s.len();
            let key = text_of(&s, 0, a);
            let rest = text_of(&s, b, n);
            assert(s@.subrange(0, a as int) =~= s@.take(a as int));
            assert(s@.subrange(b as int, n as int) =~= s@.skip(b as int));
            Some((key, rest))
        },
        None => None,
    }
}

/// Reads a footer value at the start of `input`, up to the next footer key
/// or the end: the value without trailing white space, and the rest.
pub fn parse_footer_value(input: &str) -> (r: (String, String))
    ensures
        r.0@ == trim_end(input@.take(value_end(input@, 0))),
        r.1@ == input@.skip(value_end(input@, 0)),
{
    let s = chars_of(input);
    let n = s.len();
    let e = value_end_at(&s, 0);
    let te = trimmed_end(&s, 0, e);
    let value = text_of(&s, 0, te);
    let rest = text_of(&s, e, n);
    assert(s@.subrange(0, e as int) =~= s@.take(e as int));
    assert(s@.subrange(e as int, n as int) =~= s@.skip(e as int));
    (value, rest)
}

} // verus!
