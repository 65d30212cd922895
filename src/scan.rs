//! Cursor steps over the characters of a message, each equal to a grammar
//! function.
use vstd::prelude::*;
use vstd::slice::slice_subrange;
use crate::commit::view_texts;
use crate::grammar::{
    blank_line, breaking_key, find_from, footer_key_at, hash_separator, last_comma,
    matches_at, run_end, separator, split_commas, trim_end, type_char, value_end,
};
use crate::text::{is_alphabetic, is_white_space, string_of, white_space};

verus! {

pub fn separator_chars() -> (r: Vec<char>)
    ensures
        r@ == separator(),
{
    let r = vec![':', ' '];
    assert(r@ =~= separator());
    r
}

pub fn hash_separator_chars() -> (r: Vec<char>)
    ensures
        r@ == hash_separator(),
{
    let r = vec![' ', '#'];
    assert(r@ =~= hash_separator());
    r
}

pub fn blank_line_chars() -> (r: Vec<char>)
    ensures
        r@ == blank_line(),
{
    let r = vec!['\n', '\n'];
    assert(r@ =~= blank_line());
    r
}

pub fn breaking_key_chars() -> (r: Vec<char>)
    ensures
        r@ == breaking_key(),
{
    let r = vec!['B', 'R', 'E', 'A', 'K', 'I', 'N', 'G', ' ', 'C', 'H', 'A', 'N', 'G', 'E'];
    assert(r@ =~= breaking_key());
    r
}

pub fn is_type_char(c: char) -> (r: bool)
    ensures
        r == type_char(c),
{
    c == '-' || is_alphabetic(c)
}

/// The end of the run of type characters from `p`.
pub fn run_end_at(s: &Vec<char>, p: usize) -> (r: usize)
    requires
        p <= s@.len(),
    ensures
        r == run_end(s@, p as int),
        p <= r <= s@.len(),
{
    let mut i = p;
    while i < s.len()
        invariant
            p <= i <= s@.len(),
            run_end(s@, i as int) == run_end(s@, p as int),
        ensures
            run_end(s@, i as int) == i,
            p <= i <= s@.len(),
        decreases s@.len() - i,
    {
        if !is_type_char(s[i]) {
            break;
        }
        i = i + 1;
    }
    i
}

/// Whether `lit` occurs at `p`.
pub fn matches_lit(s: &Vec<char>, p: usize, lit: &Vec<char>) -> (r: bool)
    requires
        p <= s@.len(),
    ensures
        r == matches_at(s@, p as int, lit@),
{
    if lit.len() > s.len() - p {
        return false;
    }
    let mut j: usize = 0;
    while j < lit.len()
        invariant
            p + lit@.len() <= s@.len() <= usize::MAX,
            j <= lit@.len(),
            forall|k: int| 0 <= k < j ==> s@[p + k] == lit@[k],
        decreases lit@.len() - j,
    {
        assert(p + j < s@.len());
        if s[p + j] != lit[j] {
            assert(s@.subrange(p as int, p + lit@.len())[j as int] != lit@[j as int]);
            return false;
        }
        j = j + 1;
    }
    assert(s@.subrange(p as int, p + lit@.len()) =~= lit@);
    true
}

/// The first position from `p` on where `lit` occurs.
pub fn find(s: &Vec<char>, p: usize, lit: &Vec<char>) -> (r: Option<usize>)
    requires
        p <= s@.len(),
    ensures
        match r {
            Some(q) => find_from(s@, p as int, lit@) == q && p <= q && q + lit@.len() <= s@.len(),
            None => find_from(s@, p as int, lit@) == -1,
        },
{
    let mut i = p;
    while lit.len() <= s.len() - i
        invariant
            p <= i <= s@.len(),
            find_from(s@, i as int, lit@) == find_from(s@, p as int, lit@),
        ensures
            p <= i <= s@.len(),
            find_from(s@, i as int, lit@) == find_from(s@, p as int, lit@),
            lit@.len() > s@.len() - i,
        decreases s@.len() - i,
    {
        if matches_lit(s, i, lit) {
            return Some(i);
        }
        if i == s.len() {
            assert(s@.subrange(i as int, i as int) =~= lit@);
            break;
        }
        i = i + 1;
    }
    None
}

/// The footer key at `p`: where it ends and where its value starts.
pub fn footer_key(s: &Vec<char>, p: usize) -> (r: Option<(usize, usize)>)
    requires
        p <= s@.len(),
    ensures
        match r {
            Some((a, b)) => footer_key_at(s@, p as int) == Some((a as int, b as int)) && p < a
                && b <= s@.len(),
            None => footer_key_at(s@, p as int) is None,
        },
{
    assert(breaking_key().len() == 15 && separator().len() == 2 && hash_separator().len() == 2);
    assert(s@.len() == s.len());
    let e = if matches_lit(s, p, &breaking_key_chars()) {
        p + 15
    } else {
        run_end_at(s, p)
    };
    if p < e && (matches_lit(s, e, &separator_chars()) || matches_lit(s, e, &hash_separator_chars())) {
        Some((e, e + 2))
    } else {
        None
    }
}

/// Where a footer value that starts at `p` ends.
pub fn value_end_at(s: &Vec<char>, p: usize) -> (r: usize)
    requires
        p <= s@.len(),
    ensures
        r == value_end(s@, p as int),
        p <= r <= s@.len(),
{
    let mut i = p;
    while i < s.len()
        invariant
            p <= i <= s@.len(),
            value_end(s@, i as int) == value_end(s@, p as int),
        ensures
            p <= i <= s@.len(),
            value_end(s@, i as int) == i,
        decreases s@.len() - i,
    {
        if footer_key(s, i).is_some() {
            break;
        }
        i = i + 1;
    }
    i
}

/// The end of `s[lo..hi]` without its trailing white space.
pub fn trimmed_end(s: &Vec<char>, lo: usize, hi: usize) -> (r: usize)
    requires
        lo <= hi <= s@.len(),
    ensures
        lo <= r <= hi,
        s@.subrange(lo as int, r as int) == trim_end(s@.subrange(lo as int, hi as int)),
{
    let mut j = hi;
    while j > lo
        invariant
            lo <= j <= hi <= s@.len(),
            trim_end(s@.subrange(lo as int, j as int)) == trim_end(
                s@.subrange(lo as int, hi as int),
            ),
        ensures
            lo <= j <= hi,
            trim_end(s@.subrange(lo as int, j as int)) == trim_end(
                s@.subrange(lo as int, hi as int),
            ),
            j == lo || !white_space(s@[j - 1]),
        decreases j,
    {
        if !is_white_space(s[j - 1]) {
            break;
        }
        assert(s@.subrange(lo as int, j as int).drop_last() =~= s@.subrange(
            lo as int,
            j - 1,
        ));
        j = j - 1;
    }
    assert(j > lo ==> s@.subrange(lo as int, j as int).last() == s@[j - 1]);
    j
}

/// The text of `s[a..b]`.
pub fn text_of(s: &Vec<char>, a: usize, b: usize) -> (r: String)
    requires
        a <= b <= s@.len(),
    ensures
        r@ == s@.subrange(a as int, b as int),
{
    string_of(slice_subrange(s.as_slice(), a, b))
}

/// The entries of `s[a..b]` cut at each comma.
pub fn split_at_commas(s: &Vec<char>, a: usize, b: usize) -> (r: Vec<String>)
    requires
        a <= b <= s@.len(),
    ensures
        view_texts(r@) == split_commas(s@.subrange(a as int, b as int)),
{
    let ghost t = s@.subrange(a as int, b as int);
    let mut out: Vec<String> = Vec::new();
    let mut start = a;
    let mut i = a;
    while i < b
        invariant
            a <= start <= i <= b <= s@.len(),
            t == s@.subrange(a as int, b as int),
            last_comma(t.take(i - a)) == start - a - 1,
            start == a ==> out@.len() == 0,
            start > a ==> view_texts(out@) == split_commas(t.take(start - a - 1)),
        decreases b - i,
    {
        let ghost n = (i - a) as int;
        proof {
            assert(t.take(n + 1).drop_last() =~= t.take(n));
            assert(t.take(n + 1).last() == s@[i as int]);
        }
        if s[i] == ',' {
            let ghost x = t.take(n + 1).take(n);
            proof {
                assert(x =~= t.take(n));
                let k = last_comma(x);
                if 0 <= k {
                    assert(x.take(k) =~= t.take(k));
                    assert(x.skip(k + 1) =~= s@.subrange(start as int, i as int));
                } else {
                    assert(x =~= s@.subrange(start as int, i as int));
                }
            }
            out.push(text_of(s, start, i));
            proof {
                assert(view_texts(out@) =~= split_commas(t.take(n)));
            }
            start = i + 1;
        }
        i = i + 1;
    }
    let ghost m = (b - a) as int;
    proof {
        assert(t.take(m) =~= t);
        let k = last_comma(t);
        if 0 <= k {
            assert(t.skip(k + 1) =~= s@.subrange(start as int, b as int));
        } else {
            assert(t =~= s@.subrange(start as int, b as int));
        }
    }
    out.push(text_of(s, start, b));
    proof {
        assert(view_texts(out@) =~= split_commas(t));
    }
    out
}

} // verus!
