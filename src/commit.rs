//! The record of a parsed commit message and the spans derived from it.
use vstd::prelude::*;
use crate::grammar::CommitModel;
use crate::text::{byte_len, fits, lemma_byte_len_ascii, lemma_byte_len_concat, text_len};

verus! {

/// A commit message that matched the grammar.
#[derive(Clone, Debug)]
pub struct Commit {
    /// The type: letters and hyphens, never empty.
    pub commit_type: String,
    /// The scope entries, in order of appearance.
    pub scope: Vec<String>,
    /// Whether the header carried `!` or the footer a `BREAKING CHANGE` key.
    pub breaking_change: bool,
    /// The header's description.
    pub subject: String,
    /// The body paragraphs, joined; absent when there were none.
    pub body: Option<String>,
    /// The footer entries, one per key, in order of the key's first appearance.
    pub footer: Vec<(String, String)>,
    /// The whole message, verbatim.
    pub source: String,
}

pub open spec fn view_texts(v: Seq<String>) -> Seq<Seq<char>> {
    v.map_values(|s: String| s@)
}

pub open spec fn view_entries(v: Seq<(String, String)>) -> Seq<(Seq<char>, Seq<char>)> {
    v.map_values(|e: (String, String)| (e.0@, e.1@))
}

/// The mapping that a list of entries gives when each later entry overwrites
/// an earlier one with the same key.
pub open spec fn footer_map(e: Seq<(Seq<char>, Seq<char>)>) -> Map<Seq<char>, Seq<char>>
    decreases e.len(),
{
    if e.len() == 0 {
        Map::empty()
    } else {
        footer_map(e.drop_last()).insert(e.last().0, e.last().1)
    }
}

pub open spec fn keys_unique(e: Seq<(Seq<char>, Seq<char>)>) -> bool {
    forall|i: int, j: int| 0 <= i < j < e.len() ==> e[i].0 != e[j].0
}

/// The texts joined by `sep`.
pub open spec fn joined(s: Seq<Seq<char>>, sep: char) -> Seq<char>
    decreases s.len(),
{
    if s.len() == 0 {
        Seq::empty()
    } else if s.len() == 1 {
        s[0]
    } else {
        joined(s.drop_last(), sep) + seq![sep] + s.last()
    }
}

impl Commit {
    /// What the record holds, as the grammar states it.
    pub open spec fn model(&self) -> CommitModel {
        CommitModel {
            commit_type: self.commit_type@,
            scope: self.scope_view(),
            breaking_change: self.breaking_change,
            subject: self.subject@,
            body: match self.body {
                Some(b) => Some(b@),
                None => None,
            },
            footer: self.footer_view(),
        }
    }

    pub open spec fn scope_view(&self) -> Seq<Seq<char>> {
        view_texts(self.scope@)
    }

    pub open spec fn footer_entries(&self) -> Seq<(Seq<char>, Seq<char>)> {
        view_entries(self.footer@)
    }

    /// The footer as a mapping from key to value.
    pub open spec fn footer_view(&self) -> Map<Seq<char>, Seq<char>> {
        footer_map(self.footer_entries())
    }

    /// The byte lengths that the scope's span is built from fit in a `usize`.
    pub open spec fn spans_fit(&self) -> bool {
        &&& byte_len(self.commit_type@) < usize::MAX
        &&& fits(joined(self.scope_view(), ':'))
    }

    /// Spans fit, and footer keys are unique.
    pub open spec fn wf(&self) -> bool {
        &&& self.spans_fit()
        &&& keys_unique(self.footer_entries())
    }

    /// From the start of the message to the end of the type.
    pub open spec fn spec_type_span(&self) -> (usize, usize) {
        (0, byte_len(self.commit_type@) as usize)
    }

    /// Starts after the type and its opening parenthesis. The second
    /// component is the byte length of the scope entries joined by one-byte
    /// separators, not an offset from the start: read as an end offset it
    /// lies before the start whenever the type is longer than that text, so a
    /// renderer takes it as the span's length.
    pub open spec fn spec_scope_span(&self) -> (usize, usize) {
        ((byte_len(self.commit_type@) + 1) as usize, byte_len(joined(self.scope_view(), ':')) as usize)
    }

    /// The bytes of the type: `[0, length of the type)`.
    pub fn type_span(&self) -> (r: (usize, usize))
        ensures
            r == self.spec_type_span(),
            r.1 == byte_len(self.commit_type@),
    {
        (0, text_len(self.commit_type.as_str()))
    }

    /// The span of the scope, as `spec_scope_span` states it.
    pub fn scope_span(&self) -> (r: (usize, usize))
        requires
            self.spans_fit(),
        ensures
            r == self.spec_scope_span(),
            r.0 == byte_len(self.commit_type@) + 1,
            r.1 == byte_len(joined(self.scope_view(), ':')),
    {
        let start = text_len(self.commit_type.as_str()) + 1;
        let mut end: usize = 0;
        let mut i: usize = 0;
        while i < self.scope.len()
            invariant
                self.spans_fit(),
                i <= self.scope@.len(),
                end == byte_len(joined(self.scope_view().take(i as int), ':')),
            decreases self.scope@.len() - i,
        {
            let ghost done = self.scope_view().take(i as int);
            let ghost next = self.scope_view().take(i + 1);
            proof {
                assert(next.drop_last() =~= done);
                lemma_joined_prefix_fits(self.scope_view(), i + 1);
            }
            let w = text_len(self.scope[i].as_str());
            if i == 0 {
                proof {
                    assert(next.len() == 1);
                }
                end = w;
            } else {
                proof {
                    lemma_byte_len_concat(joined(done, ':'), seq![':']);
                    lemma_byte_len_concat(joined(done, ':') + seq![':'], next.last());
                    lemma_byte_len_ascii(':');
                }
                end = end + 1 + w;
            }
            i = i + 1;
        }
        proof {
            assert(self.scope_view().take(i as int) =~= self.scope_view());
        }
        (start, end)
    }
}

/// Each prefix of the joined scope text is no longer than the whole.
pub proof fn lemma_joined_prefix_fits(s: Seq<Seq<char>>, k: int)
    requires
        0 <= k <= s.len(),
    ensures
        byte_len(joined(s.take(k), ':')) <= byte_len(joined(s, ':')),
    decreases s.len() - k,
{
    if k < s.len() {
        lemma_joined_prefix_fits(s, k + 1);
        let t = s.take(k + 1);
        assert(t.drop_last() =~= s.take(k));
        if k > 0 {
            lemma_byte_len_concat(joined(s.take(k), ':'), seq![':']);
            lemma_byte_len_concat(joined(s.take(k), ':') + seq![':'], t.last());
        }
    } else {
        assert(s.take(k) =~= s);
    }
}

} // verus!
