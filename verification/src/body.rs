//! The outbound body inside a body file.
//!
//! A body file may open with a preamble: notes on context, sources and reasoning, written in
//! Markdown. The first line that holds nothing but `---` ends the preamble, and what follows
//! that line is the text to be sent. A file without such a line is all body.
use vstd::prelude::*;
use crate::text::{chars_of, string_from_chars};

verus! {

/// Position `i` starts a line of `t`.
pub open spec fn is_line_start(t: Seq<char>, i: int) -> bool {
    i == 0 || (0 < i <= t.len() && t[i - 1] == '\n')
}

/// The line that starts at `i` is the separator `---` (ended by `\n`, by `\r\n`, or by the
/// end of the text): the position just after that line, or `-1` when it is no separator.
pub open spec fn separator_end(t: Seq<char>, i: int) -> int {
    if !(is_line_start(t, i) && i + 3 <= t.len() && t[i] == '-' && t[i + 1] == '-' && t[i + 2]
        == '-') {
        -1
    } else if i + 3 == t.len() {
        t.len() as int
    } else if t[i + 3] == '\n' {
        i + 4
    } else if t[i + 3] == '\r' && i + 4 < t.len() && t[i + 4] == '\n' {
        i + 5
    } else {
        -1
    }
}

/// A separator line starts at `i`.
pub open spec fn is_separator(t: Seq<char>, i: int) -> bool {
    separator_end(t, i) >= 0
}

/// `i` is where the first separator line of `t` starts.
pub open spec fn is_first_separator(t: Seq<char>, i: int) -> bool {
    is_separator(t, i) && forall|j: int| 0 <= j < i ==> !is_separator(t, j)
}

/// The outbound body of a body file's text: what follows its first separator line, or the
/// whole text when it has none.
pub open spec fn body_section(t: Seq<char>) -> Seq<char> {
    if exists|i: int| is_separator(t, i) {
        let i = choose|i: int| is_first_separator(t, i);
        t.subrange(separator_end(t, i), t.len() as int)
    } else {
        t
    }
}

proof fn lemma_first_separator_unique(t: Seq<char>, i: int, k: int)
    requires
        is_first_separator(t, i),
        is_first_separator(t, k),
    ensures
        i == k,
{
    if i < k {
        assert(!is_separator(t, i));
    }
    if k < i {
        assert(!is_separator(t, k));
    }
}

proof fn lemma_body_section_at(t: Seq<char>, i: int)
    requires
        is_first_separator(t, i),
    ensures
        body_section(t) == t.subrange(separator_end(t, i), t.len() as int),
{
    assert(exists|j: int| is_separator(t, j));
    let k = choose|k: int| is_first_separator(t, k);
    lemma_first_separator_unique(t, i, k);
}

/// The outbound body of `text` (see [`body_section`]).
pub fn outbound_body(text: &str) -> (res: String)
    ensures
        res@ == body_section(text@),
{
    let t = chars_of(text);
    let n = t.len();
    let mut i: usize = 0;
    while i < n
        invariant
            n == t@.len(),
            t@ == text@,
            i <= n,
            forall|j: int| 0 <= j < i ==> !is_separator(t@, j),
        decreases n - i,
    {
        if (i == 0 || t[i - 1] == '\n') && n - i >= 3 && t[i] == '-' && t[i + 1] == '-' && t[i + 2]
            == '-' {
            let mut end: usize = 0;
            let mut found = false;
            if n - i == 3 {
                end = n;
                found = true;
            } else if t[i + 3] == '\n' {
                end = i + 4;
                found = true;
            } else if t[i + 3] == '\r' && n - i > 4 && t[i + 4] == '\n' {
                end = i + 5;
                found = true;
            }
            if found {
                assert(separator_end(t@, i as int) == end);
                proof {
                    lemma_body_section_at(t@, i as int);
                }
                let mut rest: Vec<char> = Vec::new();
                let mut k: usize = end;
                while k < n
                    invariant
                        n == t@.len(),
                        end <= k <= n,
                        rest@ == t@.subrange(end as int, k as int),
                    decreases n - k,
                {
                    rest.push(t[k]);
                    assert(rest@ =~= t@.subrange(end as int, k + 1));
                    k = k + 1;
                }
                return string_from_chars(rest.as_slice());
            }
        }
        assert(!is_separator(t@, i as int));
        i = i + 1;
    }
    assert(!exists|j: int| is_separator(t@, j)) by {
        assert forall|j: int| !is_separator(t@, j) by {
            if is_separator(t@, j) {
                assert(0 <= j < n);
            }
        }
    }
    string_from_chars(t.as_slice())
}

/// The separator line that ends a preamble.
pub open spec fn separator_line() -> Seq<char> {
    seq!['-', '-', '-', '\n']
}

/// `p` can stand before a separator line: it is empty or ends a line, and none of its lines is
/// a separator.
pub open spec fn is_preamble(p: Seq<char>) -> bool {
    &&& (p.len() == 0 || p.last() == '\n')
    &&& forall|j: int| !is_separator(p, j)
}

/// A body file without a separator line is all body.
pub proof fn lemma_no_separator_all_body(t: Seq<char>)
    requires
        forall|j: int| !is_separator(t, j),
    ensures
        body_section(t) == t,
{
}

/// Whatever preamble stands above the separator line, the outbound body is exactly the text
/// below it: notes added to the preamble after approval leave the body unchanged.
pub proof fn lemma_preamble_does_not_reach_body(p: Seq<char>, b: Seq<char>)
    requires
        is_preamble(p),
    ensures
        body_section(p + separator_line() + b) == b,
{
    let t = p + separator_line() + b;
    let n = p.len() as int;
    assert(t[n] == '-' && t[n + 1] == '-' && t[n + 2] == '-' && t[n + 3] == '\n');
    assert(separator_end(t, n) == n + 4);
    assert forall|j: int| 0 <= j < n implies !is_separator(t, j) by {
        if is_separator(t, j) {
            assert(t[n - 1] == '\n');
            assert(is_line_start(p, j));
            assert(j + 3 < n);
            assert(p[j] == '-' && p[j + 1] == '-' && p[j + 2] == '-');
            if t[j + 3] == '\r' {
                assert(j + 4 < n);
            }
            assert(is_separator(p, j));
        }
    }
    assert(is_first_separator(t, n));
    lemma_body_section_at(t, n);
    assert(t.subrange(n + 4, t.len() as int) =~= b);
}

/// Two versions of a body file that differ only in their preambles have the same outbound body.
pub proof fn lemma_preamble_edit_keeps_body(p1: Seq<char>, p2: Seq<char>, b: Seq<char>)
    requires
        is_preamble(p1),
        is_preamble(p2),
    ensures
        body_section(p1 + separator_line() + b) == body_section(p2 + separator_line() + b),
{
    lemma_preamble_does_not_reach_body(p1, b);
    lemma_preamble_does_not_reach_body(p2, b);
}

} // verus!
