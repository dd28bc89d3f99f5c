//! Detection of unresolved placeholders in outbound text.
use vstd::prelude::*;
use crate::text::{chars_of, contains_chars, contains_string, contains_text, same_text};

verus! {

/// The placeholder markers that a finished message must not contain, in the order in which
/// they are searched for.
pub open spec fn placeholder_patterns() -> Seq<Seq<char>> {
    seq!["TODO"@, "TBD"@, "FIXME"@, "{{"@, "}}"@, "<insert"@, "[要確認]"@]
}

/// The placeholder markers in ascending string order, the order in which an error lists them.
pub open spec fn sorted_placeholder_patterns() -> Seq<Seq<char>> {
    seq!["<insert"@, "FIXME"@, "TBD"@, "TODO"@, "[要確認]"@, "{{"@, "}}"@]
}

fn patterns() -> (res: Vec<&'static str>)
    ensures
        res.deep_view() == placeholder_patterns(),
{
    let res: Vec<&'static str> = vec!["TODO", "TBD", "FIXME", "{{", "}}", "<insert", "[要確認]"];
    assert(res.deep_view() =~= placeholder_patterns());
    res
}

fn sorted_patterns() -> (res: Vec<&'static str>)
    ensures
        res.deep_view() == sorted_placeholder_patterns(),
{
    let res: Vec<&'static str> = vec!["<insert", "FIXME", "TBD", "TODO", "[要確認]", "{{", "}}"];
    assert(res.deep_view() =~= sorted_placeholder_patterns());
    res
}

/// `pattern` is found in `value` and is not among the `allowed` markers.
pub open spec fn is_unresolved(value: Seq<char>, allowed: Seq<Seq<char>>, pattern: Seq<char>) -> bool {
    contains_text(value, pattern) && !allowed.contains(pattern)
}

/// The members of `candidates`, in order, that are unresolved in `value`.
pub open spec fn unresolved_among(
    candidates: Seq<Seq<char>>,
    value: Seq<char>,
    allowed: Seq<Seq<char>>,
) -> Seq<Seq<char>>
    decreases candidates.len(),
{
    if candidates.len() == 0 {
        seq![]
    } else {
        let rest = unresolved_among(candidates.drop_last(), value, allowed);
        if is_unresolved(value, allowed, candidates.last()) {
            rest.push(candidates.last())
        } else {
            rest
        }
    }
}

/// The markers of either text that are unresolved, listed in `candidates` order.
pub open spec fn unresolved_in_either(
    candidates: Seq<Seq<char>>,
    first: Seq<char>,
    second: Option<Seq<char>>,
    allowed: Seq<Seq<char>>,
) -> Seq<Seq<char>>
    decreases candidates.len(),
{
    if candidates.len() == 0 {
        seq![]
    } else {
        let rest = unresolved_in_either(candidates.drop_last(), first, second, allowed);
        let p = candidates.last();
        if is_unresolved(first, allowed, p) || (second matches Some(s) && is_unresolved(
            s,
            allowed,
            p,
        )) {
            rest.push(p)
        } else {
            rest
        }
    }
}

/// The placeholder markers found in `value` that `allow` does not permit, in search order.
pub fn placeholder_hits<'a>(value: &'a str, allow: &[String]) -> (res: Vec<&'a str>)
    ensures
        res.deep_view() == unresolved_among(placeholder_patterns(), value@, allow.deep_view()),
{
    let pats = patterns();
    let text = chars_of(value);
    let mut res: Vec<&'a str> = Vec::new();
    let mut i: usize = 0;
    while i < pats.len()
        invariant
            pats.deep_view() == placeholder_patterns(),
            text@ == value@,
            i <= pats@.len(),
            res.deep_view() == unresolved_among(
                placeholder_patterns().take(i as int),
                value@,
                allow.deep_view(),
            ),
        decreases pats@.len() - i,
    {
        let p: &'static str = pats[i];
        let pc = chars_of(p);
        assert(placeholder_patterns().take(i + 1).drop_last() =~= placeholder_patterns().take(
            i as int,
        ));
        assert(placeholder_patterns().take(i + 1).last() == p@);
        if contains_chars(&text, &pc) && !contains_string(allow, p) {
            res.push(p);
            assert(res.deep_view() =~= unresolved_among(
                placeholder_patterns().take(i + 1),
                value@,
                allow.deep_view(),
            ));
        }
        i = i + 1;
    }
    assert(placeholder_patterns().take(7) =~= placeholder_patterns());
    res
}

/// Whether `pattern` is one of `hits`.
fn listed(hits: &Vec<&str>, pattern: &str) -> (res: bool)
    ensures
        res == hits.deep_view().contains(pattern@),
{
    let mut i: usize = 0;
    while i < hits.len()
        invariant
            i <= hits@.len(),
            forall|j: int| 0 <= j < i ==> hits@[j]@ != pattern@,
        decreases hits@.len() - i,
    {
        if same_text(hits[i], pattern) {
            assert(hits.deep_view()[i as int] == pattern@);
            return true;
        }
        i = i + 1;
    }
    assert(!hits.deep_view().contains(pattern@)) by {
        if hits.deep_view().contains(pattern@) {
            let k = choose|k: int| 0 <= k < hits.deep_view().len() && hits.deep_view()[k] == pattern@;
            assert(hits@[k]@ == pattern@);
        }
    }
    false
}

proof fn lemma_unresolved_among_contains(
    candidates: Seq<Seq<char>>,
    value: Seq<char>,
    allowed: Seq<Seq<char>>,
    p: Seq<char>,
)
    ensures
        unresolved_among(candidates, value, allowed).contains(p) <==> (candidates.contains(p)
            && is_unresolved(value, allowed, p)),
    decreases candidates.len(),
{
    if candidates.len() > 0 {
        let rest = candidates.drop_last();
        lemma_unresolved_among_contains(rest, value, allowed, p);
        let r = unresolved_among(rest, value, allowed);
        if candidates.contains(p) && p != candidates.last() {
            let k = choose|k: int| 0 <= k < candidates.len() && candidates[k] == p;
            assert(rest[k] == p);
        }
        if rest.contains(p) {
            let k = choose|k: int| 0 <= k < rest.len() && rest[k] == p;
            assert(candidates[k] == p);
        }
        if is_unresolved(value, allowed, candidates.last()) {
            let r2 = r.push(candidates.last());
            if r.contains(p) {
                let k = choose|k: int| 0 <= k < r.len() && r[k] == p;
                assert(r2[k] == p);
            }
            if r2.contains(p) && p != candidates.last() {
                let k = choose|k: int| 0 <= k < r2.len() && r2[k] == p;
                assert(r[k] == p);
            }
            assert(r2[r.len() as int] == candidates.last());
        }
        assert(candidates[candidates.len() - 1] == candidates.last());
    }
}

/// The markers unresolved in `body` or in `subject`, each once, in ascending order.
pub fn unresolved_placeholders(body: &str, subject: &Option<String>, allow: &[String]) -> (res:
    Vec<String>)
    ensures
        res.deep_view() == unresolved_in_either(
            sorted_placeholder_patterns(),
            body@,
            match subject {
                Some(s) => Some(s@),
                None => None,
            },
            allow.deep_view(),
        ),
{
    let ghost subject_view: Option<Seq<char>> = match subject {
        Some(s) => Some(s@),
        None => None,
    };
    let body_hits = placeholder_hits(body, allow);
    let subject_hits: Vec<&str> = match subject {
        Some(s) => placeholder_hits(s.as_str(), allow),
        None => Vec::new(),
    };
    let sorted = sorted_patterns();
    let mut res: Vec<String> = Vec::new();
    let mut i: usize = 0;
    while i < sorted.len()
        invariant
            sorted.deep_view() == sorted_placeholder_patterns(),
            body_hits.deep_view() == unresolved_among(placeholder_patterns(), body@, allow.deep_view()),
            subject matches Some(s) ==> subject_hits.deep_view() == unresolved_among(
                placeholder_patterns(),
                s@,
                allow.deep_view(),
            ),
            subject is None ==> subject_hits@.len() == 0,
            subject_view == match subject {
                Some(s) => Some(s@),
                None => None::<Seq<char>>,
            },
            i <= sorted@.len(),
            res.deep_view() == unresolved_in_either(
                sorted_placeholder_patterns().take(i as int),
                body@,
                subject_view,
                allow.deep_view(),
            ),
        decreases sorted@.len() - i,
    {
        let p: &'static str = sorted[i];
        let ghost sp = sorted_placeholder_patterns();
        assert(sp.take(i + 1).drop_last() =~= sp.take(i as int));
        assert(sp.take(i + 1).last() == p@);
        proof {
            lemma_unresolved_among_contains(placeholder_patterns(), body@, allow.deep_view(), p@);
            if let Some(s) = subject {
                lemma_unresolved_among_contains(placeholder_patterns(), s@, allow.deep_view(), p@);
            }
            assert(placeholder_patterns().contains(p@)) by {
                reveal_strlit("TODO");
                reveal_strlit("TBD");
                reveal_strlit("FIXME");
                reveal_strlit("{{");
                reveal_strlit("}}");
                reveal_strlit("<insert");
                reveal_strlit("[要確認]");
                assert(sp.contains(p@));
                let k = choose|k: int| 0 <= k < sp.len() && sp[k] == p@;
                if k == 0 { assert(placeholder_patterns()[5] == p@); }
                else if k == 1 { assert(placeholder_patterns()[2] == p@); }
                else if k == 2 { assert(placeholder_patterns()[1] == p@); }
                else if k == 3 { assert(placeholder_patterns()[0] == p@); }
                else if k == 4 { assert(placeholder_patterns()[6] == p@); }
                else if k == 5 { assert(placeholder_patterns()[3] == p@); }
                else { assert(placeholder_patterns()[4] == p@); }
            }
            if subject is None {
                assert(!subject_hits.deep_view().contains(p@));
            }
        }
        if listed(&body_hits, p) || listed(&subject_hits, p) {
            res.push(String::from_str(p));
            assert(res.deep_view() =~= unresolved_in_either(
                sp.take(i + 1),
                body@,
                subject_view,
                allow.deep_view(),
            ));
        }
        i = i + 1;
    }
    assert(sorted_placeholder_patterns().take(7) =~= sorted_placeholder_patterns());
    res
}

/// The members of `hits`, in order, that `allowed` does not permit.
pub open spec fn not_allowed(hits: Seq<Seq<char>>, allowed: Seq<Seq<char>>) -> Seq<Seq<char>>
    decreases hits.len(),
{
    if hits.len() == 0 {
        seq![]
    } else {
        let rest = not_allowed(hits.drop_last(), allowed);
        if allowed.contains(hits.last()) {
            rest
        } else {
            rest.push(hits.last())
        }
    }
}

proof fn lemma_more_allowed(
    candidates: Seq<Seq<char>>,
    value: Seq<char>,
    allow1: Seq<Seq<char>>,
    allow2: Seq<Seq<char>>,
)
    requires
        forall|p: Seq<char>| allow1.contains(p) ==> allow2.contains(p),
    ensures
        unresolved_among(candidates, value, allow2) == not_allowed(
            unresolved_among(candidates, value, allow1),
            allow2,
        ),
    decreases candidates.len(),
{
    if candidates.len() > 0 {
        lemma_more_allowed(candidates.drop_last(), value, allow1, allow2);
        let r1 = unresolved_among(candidates.drop_last(), value, allow1);
        let p = candidates.last();
        if is_unresolved(value, allow1, p) {
            assert(r1.push(p).drop_last() =~= r1);
            assert(r1.push(p).last() == p);
        }
    }
}

proof fn lemma_unresolved_shape(
    candidates: Seq<Seq<char>>,
    value: Seq<char>,
    allowed: Seq<Seq<char>>,
)
    requires
        candidates.no_duplicates(),
    ensures
        unresolved_among(candidates, value, allowed).no_duplicates(),
        unresolved_among(candidates, value, allowed).len() <= candidates.len(),
        (forall|p: Seq<char>| candidates.contains(p) ==> allowed.contains(p)) ==> unresolved_among(
            candidates,
            value,
            allowed,
        ).len() == 0,
    decreases candidates.len(),
{
    if candidates.len() > 0 {
        let rest = candidates.drop_last();
        let p = candidates.last();
        assert(rest.no_duplicates()) by {
            assert forall|i: int, j: int|
                0 <= i < rest.len() && 0 <= j < rest.len() && i != j implies rest[i] != rest[j] by {
                assert(rest[i] == candidates[i] && rest[j] == candidates[j]);
            }
        }
        lemma_unresolved_shape(rest, value, allowed);
        let r = unresolved_among(rest, value, allowed);
        if forall|q: Seq<char>| candidates.contains(q) ==> allowed.contains(q) {
            assert forall|q: Seq<char>| rest.contains(q) implies allowed.contains(q) by {
                let k = choose|k: int| 0 <= k < rest.len() && rest[k] == q;
                assert(candidates[k] == q);
            }
            assert(candidates[candidates.len() - 1] == p);
            assert(allowed.contains(p));
        }
        if is_unresolved(value, allowed, p) {
            lemma_unresolved_among_contains(rest, value, allowed, p);
            assert(!rest.contains(p)) by {
                if rest.contains(p) {
                    let k = choose|k: int| 0 <= k < rest.len() && rest[k] == p;
                    assert(candidates[k] == candidates[candidates.len() - 1]);
                }
            }
            let r2 = r.push(p);
            assert forall|i: int, j: int|
                0 <= i < r2.len() && 0 <= j < r2.len() && i != j implies r2[i] != r2[j] by {
                if i == r.len() as int {
                    assert(r.contains(r2[j]));
                } else if j == r.len() as int {
                    assert(r.contains(r2[i]));
                }
            }
        }
    }
}

proof fn lemma_patterns_distinct()
    ensures
        placeholder_patterns().no_duplicates(),
{
    reveal_strlit("TODO");
    reveal_strlit("TBD");
    reveal_strlit("FIXME");
    reveal_strlit("{{");
    reveal_strlit("}}");
    reveal_strlit("<insert");
    reveal_strlit("[要確認]");
    let ps = placeholder_patterns();
    assert forall|i: int, j: int| 0 <= i < ps.len() && 0 <= j < ps.len() && i != j implies ps[i]
        != ps[j] by {
        assert(ps[i][0] != ps[j][0] || ps[i].len() != ps[j].len());
    }
}

/// Placeholder hits (what `placeholder_hits` returns) name each marker at most once, so at
/// most seven; allowing more markers only drops hits, keeping the order of the rest (a
/// subsequence); and allowing every marker leaves none.
pub proof fn lemma_placeholder_hits_shape(
    value: Seq<char>,
    allow1: Seq<Seq<char>>,
    allow2: Seq<Seq<char>>,
)
    ensures
        unresolved_among(placeholder_patterns(), value, allow1).no_duplicates(),
        unresolved_among(placeholder_patterns(), value, allow1).len() <= 7,
        (forall|p: Seq<char>| allow1.contains(p) ==> allow2.contains(p)) ==> unresolved_among(
            placeholder_patterns(),
            value,
            allow2,
        ) == not_allowed(unresolved_among(placeholder_patterns(), value, allow1), allow2),
        (forall|p: Seq<char>| allow1.contains(p) ==> allow2.contains(p)) ==> exists|index: Seq<int>|
            #[trigger] embeds(
                index,
                unresolved_among(placeholder_patterns(), value, allow2),
                unresolved_among(placeholder_patterns(), value, allow1),
            ),
        (forall|p: Seq<char>| placeholder_patterns().contains(p) ==> allow1.contains(p))
            ==> unresolved_among(placeholder_patterns(), value, allow1).len() == 0,
{
    lemma_patterns_distinct();
    lemma_unresolved_shape(placeholder_patterns(), value, allow1);
    if forall|p: Seq<char>| allow1.contains(p) ==> allow2.contains(p) {
        lemma_more_allowed(placeholder_patterns(), value, allow1, allow2);
        lemma_not_allowed_subsequence(unresolved_among(placeholder_patterns(), value, allow1), allow2);
    }
}

/// `index` places each member of `kept` at a position of `hits` holding it, positions
/// increasing: `kept` is a subsequence of `hits`.
pub open spec fn embeds(index: Seq<int>, kept: Seq<Seq<char>>, hits: Seq<Seq<char>>) -> bool {
    &&& index.len() == kept.len()
    &&& forall|i: int| 0 <= i < index.len() ==> 0 <= #[trigger] index[i] < hits.len() && hits[index[i]] == kept[i]
    &&& forall|i: int, j: int| 0 <= i < j < index.len() ==> #[trigger] index[i] < #[trigger] index[j]
}

/// Dropping members keeps the order of the rest: `not_allowed(hits, allowed)` is a
/// subsequence of `hits`.
pub proof fn lemma_not_allowed_subsequence(hits: Seq<Seq<char>>, allowed: Seq<Seq<char>>)
    ensures
        exists|index: Seq<int>| #[trigger] embeds(index, not_allowed(hits, allowed), hits),
    decreases hits.len(),
{
    let kept = not_allowed(hits, allowed);
    if hits.len() == 0 {
        assert(embeds(Seq::<int>::empty(), kept, hits));
    } else {
        let h0 = hits.drop_last();
        lemma_not_allowed_subsequence(h0, allowed);
        let rest = not_allowed(h0, allowed);
        let index0 = choose|index: Seq<int>| #[trigger] embeds(index, rest, h0);
        if allowed.contains(hits.last()) {
            assert forall|i: int| 0 <= i < index0.len() implies 0 <= #[trigger] index0[i] < hits.len()
                && hits[index0[i]] == kept[i] by {
                assert(h0[index0[i]] == hits[index0[i]]);
            }
            assert(embeds(index0, kept, hits));
        } else {
            let index = index0.push(hits.len() - 1);
            assert forall|i: int| 0 <= i < index.len() implies 0 <= #[trigger] index[i] < hits.len()
                && hits[index[i]] == kept[i] by {
                if i < index0.len() {
                    assert(index[i] == index0[i]);
                    assert(h0[index0[i]] == hits[index0[i]]);
                }
            }
            assert forall|i: int, j: int| 0 <= i < j < index.len() implies #[trigger] index[i]
                < #[trigger] index[j] by {
                if j == index0.len() {
                    assert(index[i] == index0[i]);
                } else {
                    assert(index[i] == index0[i] && index[j] == index0[j]);
                }
            }
            assert(embeds(index, kept, hits));
        }
    }
}

} // verus!
