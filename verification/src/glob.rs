//! Wildcard patterns: `*` stands for any run of characters, `?` for any one
//! character, and every other character for itself.

use vstd::prelude::*;
use vstd::string::*;
use crate::text::chars_of;

verus! {

/// A wildcard pattern, kept as the text it was written as.
#[derive(Debug)]
pub struct Glob {
    pub original: String,
}

/// Whether the pattern from position `i` on matches the text from position
/// `j` on.
pub open spec fn matches_at(p: Seq<char>, t: Seq<char>, i: int, j: int) -> bool
    decreases p.len() - i, t.len() - j,
{
    if i >= p.len() {
        j >= t.len()
    } else if p[i] == '*' {
        matches_at(p, t, i + 1, j) || (j < t.len() && matches_at(p, t, i, j + 1))
    } else {
        j < t.len() && (p[i] == '?' || p[i] == t[j]) && matches_at(p, t, i + 1, j + 1)
    }
}

/// Whether the pattern `p` matches the whole of the text `t`.
pub open spec fn glob_matches(p: Seq<char>, t: Seq<char>) -> bool {
    matches_at(p, t, 0, 0)
}

/// A pattern matches itself from any position on.
pub proof fn lemma_matches_itself_from(p: Seq<char>, i: int)
    requires
        0 <= i <= p.len(),
    ensures
        matches_at(p, p, i, i),
    decreases p.len() - i,
{
    if i < p.len() {
        lemma_matches_itself_from(p, i + 1);
        if p[i] == '*' {
            assert(matches_at(p, p, i, i + 1));
        }
    }
}

fn row_of_false(n: usize) -> (row: Vec<bool>)
    ensures
        row.len() == n,
        forall|j: int| 0 <= j < n ==> !row[j],
{
    let mut row: Vec<bool> = Vec::new();
    while row.len() < n
        invariant
            row.len() <= n,
            forall|k: int| 0 <= k < row.len() ==> !row[k],
        decreases n - row.len(),
    {
        row.push(false);
    }
    row
}

/// Whether the pattern `p` matches the whole of the text `t`. The answer
/// is worked out for ever longer ends of the pattern, for each against every
/// end of the text.
pub fn matches_chars(p: &Vec<char>, t: &Vec<char>) -> (r: bool)
    ensures
        r == glob_matches(p@, t@),
{
    let n: usize = t.len();
    let m: usize = p.len();
    // What the end of the pattern from `i` on matches: `next[j]` says it of
    // the text from `j` on, `next_end` of the empty end of the text.
    let mut next: Vec<bool> = row_of_false(n);
    let mut next_end: bool = true;
    let mut i: usize = m;
    while i > 0
        invariant
            i <= m,
            m == p.len(),
            n == t.len(),
            next.len() == n,
            forall|j: int| 0 <= j < n ==> next[j] == matches_at(p@, t@, i as int, j),
            next_end == matches_at(p@, t@, i as int, n as int),
        decreases i,
    {
        i = i - 1;
        let c: char = p[i];
        let mut cur: Vec<bool> = row_of_false(n);
        let cur_end: bool = c == '*' && next_end;
        let mut j: usize = n;
        while j > 0
            invariant
                j <= n,
                i < m,
                m == p.len(),
                n == t.len(),
                c == p@[i as int],
                next.len() == n,
                cur.len() == n,
                forall|k: int| 0 <= k < n ==> next[k] == matches_at(p@, t@, i + 1, k),
                next_end == matches_at(p@, t@, i + 1, n as int),
                forall|k: int| j <= k < n ==> cur[k] == matches_at(p@, t@, i as int, k),
                cur_end == matches_at(p@, t@, i as int, n as int),
            decreases j,
        {
            j = j - 1;
            let after_cur: bool = if j + 1 < n {
                cur[j + 1]
            } else {
                cur_end
            };
            let after_next: bool = if j + 1 < n {
                next[j + 1]
            } else {
                next_end
            };
            let v: bool = if c == '*' {
                next[j] || after_cur
            } else {
                (c == '?' || c == t[j]) && after_next
            };
            cur.set(j, v);
        }
        next = cur;
        next_end = cur_end;
    }
    if n == 0 {
        next_end
    } else {
        next[0]
    }
}

impl View for Glob {
    type V = Seq<char>;

    open spec fn view(&self) -> Seq<char> {
        self.original@
    }
}

impl Glob {
    /// The pattern written as `pattern`.
    pub fn new(pattern: &str) -> (g: Glob)
        ensures
            g@ == pattern@,
    {
        Glob { original: String::from_str(pattern) }
    }

    /// Whether the pattern matches the whole of `text`.
    pub fn matches(&self, text: &str) -> (r: bool)
        ensures
            r == glob_matches(self@, text@),
    {
        let p = chars_of(self.original.as_str());
        let t = chars_of(text);
        matches_chars(&p, &t)
    }

    /// The text the pattern was written as.
    pub fn to_string(&self) -> (s: String)
        ensures
            s@ == self@,
    {
        self.original.clone()
    }
}

impl Clone for Glob {
    fn clone(&self) -> (r: Self)
        ensures
            r@ == self@,
    {
        Glob { original: self.original.clone() }
    }
}

} // verus!
