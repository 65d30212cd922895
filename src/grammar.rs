//! The grammar of a commit message, stated over its characters.
use vstd::prelude::*;
use crate::commit::{footer_map, joined};
use crate::text::{alphabetic, white_space};

verus! {

/// What a message that matches the grammar holds.
pub struct CommitModel {
    pub commit_type: Seq<char>,
    pub scope: Seq<Seq<char>>,
    pub breaking_change: bool,
    pub subject: Seq<char>,
    pub body: Option<Seq<char>>,
    pub footer: Map<Seq<char>, Seq<char>>,
}

/// A character of a type or a footer key.
pub open spec fn type_char(c: char) -> bool {
    alphabetic(c) || c == '-'
}

pub open spec fn separator() -> Seq<char> {
    seq![':', ' ']
}

pub open spec fn hash_separator() -> Seq<char> {
    seq![' ', '#']
}

pub open spec fn blank_line() -> Seq<char> {
    seq!['\n', '\n']
}

pub open spec fn breaking_key() -> Seq<char> {
    seq!['B', 'R', 'E', 'A', 'K', 'I', 'N', 'G', ' ', 'C', 'H', 'A', 'N', 'G', 'E']
}

/// The end of the run of type characters that starts at `p`.
pub open spec fn run_end(s: Seq<char>, p: int) -> int
    decreases s.len() - p,
{
    if 0 <= p < s.len() && type_char(s[p]) {
        run_end(s, p + 1)
    } else {
        p
    }
}

/// Whether `lit` occurs in `s` at `p`.
pub open spec fn matches_at(s: Seq<char>, p: int, lit: Seq<char>) -> bool {
    0 <= p && p + lit.len() <= s.len() && s.subrange(p, p + lit.len()) == lit
}

/// The first position from `p` on where `lit` occurs, or -1.
pub open spec fn find_from(s: Seq<char>, p: int, lit: Seq<char>) -> int
    decreases s.len() + 1 - p,
{
    if p < 0 || p + lit.len() > s.len() {
        -1
    } else if matches_at(s, p, lit) {
        p
    } else {
        find_from(s, p + 1, lit)
    }
}

/// A footer key at `p`: where the key ends and where its value starts.
pub open spec fn footer_key_at(s: Seq<char>, p: int) -> Option<(int, int)> {
    let e = if matches_at(s, p, breaking_key()) {
        p + breaking_key().len()
    } else {
        run_end(s, p)
    };
    if p < e && (matches_at(s, e, separator()) || matches_at(s, e, hash_separator())) {
        Some((e, e + 2))
    } else {
        None
    }
}

/// Where a footer value that starts at `p` ends: at the next footer key, or
/// at the end of the message.
pub open spec fn value_end(s: Seq<char>, p: int) -> int
    decreases s.len() - p,
{
    if p < 0 || p >= s.len() || footer_key_at(s, p) is Some {
        p
    } else {
        value_end(s, p + 1)
    }
}

/// The text without its trailing white space.
pub open spec fn trim_end(t: Seq<char>) -> Seq<char>
    decreases t.len(),
{
    if t.len() > 0 && white_space(t.last()) {
        trim_end(t.drop_last())
    } else {
        t
    }
}

/// The position of the last comma of `t`, or -1.
pub open spec fn last_comma(t: Seq<char>) -> int
    decreases t.len(),
{
    if t.len() == 0 {
        -1
    } else if t.last() == ',' {
        t.len() - 1
    } else {
        last_comma(t.drop_last())
    }
}

/// The text cut at each comma; never empty.
pub open spec fn split_commas(t: Seq<char>) -> Seq<Seq<char>>
    decreases t.len(),
{
    let k = last_comma(t);
    if 0 <= k < t.len() {
        split_commas(t.take(k)).push(t.skip(k + 1))
    } else {
        seq![t]
    }
}

/// The footer entries from `p` on, in order, or the position where no key
/// could be read.
pub open spec fn footer_from(s: Seq<char>, p: int) -> Result<Seq<(Seq<char>, Seq<char>)>, int>
    decreases s.len() - p,
{
    if p < 0 || p >= s.len() {
        Ok(Seq::empty())
    } else {
        match footer_key_at(s, p) {
            None => Err(p),
            Some((ke, vs)) => {
                let ve = value_end(s, vs);
                let entry = (s.subrange(p, ke), trim_end(s.subrange(vs, ve)));
                if ve <= p || ve > s.len() {
                    Err(p)
                } else {
                    match footer_from(s, ve) {
                        Ok(rest) => Ok(seq![entry] + rest),
                        Err(e) => Err(e),
                    }
                }
            },
        }
    }
}

/// The body from `p` on: where the footer starts, the paragraphs read so far
/// joined with `acc`, and whether any was read; or the position of failure.
pub open spec fn body_from(s: Seq<char>, p: int, acc: Seq<char>, seen: bool) -> Result<
    (int, Seq<char>, bool),
    int,
>
    decreases s.len() - p,
{
    if p < 0 || p >= s.len() {
        Ok((p, acc, seen))
    } else if !matches_at(s, p, blank_line()) {
        Err(p)
    } else {
        let q = p + 2;
        if footer_key_at(s, q) is Some {
            Ok((q, acc, seen))
        } else {
            let e = find_from(s, q, blank_line());
            if q <= e <= s.len() {
                body_from(s, e, acc + s.subrange(q, e), true)
            } else if q < s.len() {
                body_from(s, s.len() as int, acc + s.subrange(q, s.len() as int), true)
            } else {
                Err(q)
            }
        }
    }
}

/// Where the scope's parentheses close, when the text at `p` opens one that
/// closes.
pub open spec fn scope_close(s: Seq<char>, p: int) -> int {
    if 0 <= p < s.len() && s[p] == '(' {
        find_from(s, p + 1, seq![')'])
    } else {
        -1
    }
}

/// The position right after the type, the scope and the breaking marker.
pub open spec fn header_end(s: Seq<char>) -> int {
    let t = run_end(s, 0);
    let c = scope_close(s, t);
    let p = if c >= 0 {
        c + 1
    } else {
        t
    };
    if 0 <= p < s.len() && s[p] == '!' {
        p + 1
    } else {
        p
    }
}

/// The scope entries of the header.
pub open spec fn header_scope(s: Seq<char>) -> Seq<Seq<char>> {
    let t = run_end(s, 0);
    let c = scope_close(s, t);
    if c >= 0 {
        split_commas(s.subrange(t + 1, c))
    } else {
        Seq::empty()
    }
}

/// Whether the header carries the breaking marker `!`.
pub open spec fn header_bang(s: Seq<char>) -> bool {
    let t = run_end(s, 0);
    let c = scope_close(s, t);
    let p = if c >= 0 {
        c + 1
    } else {
        t
    };
    0 <= p < s.len() && s[p] == '!'
}

/// Where the subject ends: at the first blank line after it starts, or at
/// the end of the message.
pub open spec fn subject_end(s: Seq<char>, p: int) -> int {
    let k = find_from(s, p, blank_line());
    if k >= 0 {
        k
    } else {
        s.len() as int
    }
}

/// The result of parsing a message: the record, or the character position
/// where matching stopped.
pub open spec fn parse_spec(s: Seq<char>) -> Result<CommitModel, int> {
    let t = run_end(s, 0);
    let h = header_end(s);
    let subj = h + 2;
    let se = subject_end(s, subj);
    if t == 0 {
        Err(0)
    } else if !matches_at(s, h, separator()) {
        Err(h)
    } else if se == subj {
        Err(subj)
    } else {
        match body_from(s, se, Seq::empty(), false) {
            Err(e) => Err(e),
            Ok((fs, body, seen)) => match footer_from(s, fs) {
                Err(e) => Err(e),
                Ok(entries) => {
                    let footer = footer_map(entries);
                    Ok(
                        CommitModel {
                            commit_type: s.take(t),
                            scope: header_scope(s),
                            breaking_change: header_bang(s) || footer.dom().contains(
                                breaking_key(),
                            ),
                            subject: s.subrange(subj, se),
                            body: if seen {
                                Some(body)
                            } else {
                                None
                            },
                            footer,
                        },
                    )
                },
            },
        }
    }
}

} // verus!
