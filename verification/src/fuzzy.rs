//! Fuzzy search: entries are scored against the typed pattern by the
//! `nucleo-matcher` crate, kept when they match, ranked best first (equal
//! scores keep their order) and cut to the requested page.
use vstd::prelude::*;
use nucleo_matcher::pattern::{CaseMatching, Normalization, Pattern};
use nucleo_matcher::{Matcher, Utf32Str};
use crate::text::utf8;

verus! {

#[verifier::external_type_specification]
#[verifier::external_body]
pub struct ExMatcher(Matcher);

#[verifier::external_type_specification]
#[verifier::external_body]
pub struct ExPattern(Pattern);

/// How many spaces `s` holds.
pub open spec fn space_count(s: Seq<char>) -> nat {
    s.filter(|c: char| c == ' ').len()
}

/// The score that `nucleo-matcher` gives `haystack` for the pattern written
/// `pattern`, parsed with case ignored and smart normalization, by a matcher
/// configured for paths (`None` when it does not match). The configuration
/// for paths depends on the target platform's path separator.
pub uninterp spec fn pattern_score(pattern: Seq<char>, haystack: Seq<char>) -> Option<u32>;

/// A matcher configured for paths.
pub struct PathMatcher {
    matcher: Matcher,
}

impl PathMatcher {
    /// Calls `Matcher::new` with the default configuration adapted to paths.
    #[verifier::external_body]
    pub(crate) fn new() -> PathMatcher {
        PathMatcher { matcher: Matcher::new(nucleo_matcher::Config::DEFAULT.match_paths()) }
    }
}

/// A search pattern as typed, with its parsed form.
pub struct FuzzyPattern {
    text: String,
    pattern: Pattern,
}

impl View for FuzzyPattern {
    type V = Seq<char>;

    closed spec fn view(&self) -> Seq<char> {
        self.text@
    }
}

impl FuzzyPattern {
    /// Calls `Pattern::parse` on `text`, ignoring case and with smart
    /// normalization, and keeps `text` beside the result.
    #[verifier::external_body]
    pub(crate) fn parse(text: &str) -> (r: FuzzyPattern)
        ensures
            r@ == text@,
    {
        FuzzyPattern {
            text: text.to_string(),
            pattern: Pattern::parse(text, CaseMatching::Ignore, Normalization::Smart),
        }
    }

    /// Calls `Pattern::score` on `haystack` with `matcher`. The matcher
    /// panics on haystacks longer than `u32::MAX` in the form it matches
    /// (their bytes, or their characters, which are never more), and the sum
    /// of the atom scores, each below 2^16, can pass `u32::MAX` only for
    /// patterns of more than 65536 atoms. `requires` leaves both out: the
    /// first by counting bytes, the second by counting spaces, since the
    /// pattern is split into atoms at spaces, so it has at most one atom more
    /// than it has spaces.
    #[verifier::external_body]
    pub(crate) fn score(&self, haystack: &str, matcher: &mut PathMatcher) -> (r: Option<u32>)
        requires
            utf8(haystack@).len() <= u32::MAX,
            space_count(self@) < 65536,
        ensures
            r == pattern_score(self@, haystack@),
    {
        let mut buf = Vec::new();
        self.pattern.score(Utf32Str::new(haystack, &mut buf), &mut matcher.matcher)
    }
}

/// The score of entry `i`, which must have one.
pub open spec fn score_at(scores: Seq<Option<u32>>, i: int) -> u32 {
    scores[i]->0
}

/// Entry `a` comes before entry `b`: a higher score, or the same score and an
/// earlier place.
pub open spec fn ranks_before(scores: Seq<Option<u32>>, a: int, b: int) -> bool {
    score_at(scores, a) > score_at(scores, b) || (score_at(scores, a) == score_at(scores, b) && a
        < b)
}

/// `order` lists the entries among the first `n` that have a score, each
/// once, best first, equal scores in the order they came.
pub open spec fn is_score_order(scores: Seq<Option<u32>>, order: Seq<usize>, n: int) -> bool {
    &&& forall|i: int| 0 <= i < order.len() ==> #[trigger] order[i] < n && scores[order[i] as int] is Some
    &&& forall|k: int| 0 <= k < n && scores[k] is Some ==> order.contains(k as usize)
    &&& forall|i: int, j: int|
        0 <= i < j < order.len() ==> ranks_before(scores, order[i] as int, order[j] as int)
}

/// The entries that have a score, best first; entries with the same score
/// keep their order.
pub fn score_order(scores: &[Option<u32>]) -> (order: Vec<usize>)
    ensures
        is_score_order(scores@, order@, scores@.len() as int),
{
    let ghost s = scores@;
    let mut order: Vec<usize> = Vec::new();
    let mut i: usize = 0;
    while i < scores.len()
        invariant
            i <= scores.len(),
            s == scores@,
            is_score_order(s, order@, i as int),
        decreases scores.len() - i,
    {
        if let Some(score) = scores[i] {
            // the place after every entry that scores at least as much
            let mut p: usize = 0;
            while p < order.len() && scores[order[p]].unwrap() >= score
                invariant
                    p <= order.len(),
                    i < scores.len(),
                    s == scores@,
                    s[i as int] == Some(score),
                    is_score_order(s, order@, i as int),
                    forall|q: int| 0 <= q < p ==> score_at(s, order@[q] as int) >= score,
                decreases order.len() - p,
            {
                p = p + 1;
            }
            let ghost before = order@;
            order.insert(p, i);
            proof {
                let after = order@;
                assert(after =~= before.insert(p as int, i));
                // the entries from `p` on score less than entry `i`
                assert forall|q: int| p <= q < before.len() implies score_at(s, before[q] as int)
                    < score by {
                    if p < before.len() {
                        assert(score_at(s, before[p as int] as int) < score);
                        if q > p {
                            assert(ranks_before(s, before[p as int] as int, before[q] as int));
                        }
                    }
                }
                assert forall|a: int, b: int|
                    0 <= a < b < after.len() implies ranks_before(
                    s,
                    after[a] as int,
                    after[b] as int,
                ) by {
                    if a < p && b < p {
                        assert(after[a] == before[a] && after[b] == before[b]);
                    } else if a < p && b == p {
                        assert(after[a] == before[a]);
                    } else if a < p {
                        assert(after[a] == before[a] && after[b] == before[b - 1]);
                    } else if a == p {
                        assert(after[b] == before[b - 1]);
                    } else {
                        assert(after[a] == before[a - 1] && after[b] == before[b - 1]);
                    }
                }
                assert forall|k: int|
                    0 <= k < i + 1 && s[k] is Some implies after.contains(k as usize) by {
                    if k == i {
                        assert(after[p as int] == i);
                    } else {
                        assert(before.contains(k as usize));
                        let q = choose|q: int| 0 <= q < before.len() && before[q] == k as usize;
                        if q < p {
                            assert(after[q] == before[q]);
                        } else {
                            assert(after[q + 1] == before[q]);
                        }
                    }
                }
                assert forall|q: int| 0 <= q < after.len() implies #[trigger] after[q] < i + 1 && s[after[q] as int] is Some by {
                    if q < p {
                        assert(after[q] == before[q]);
                    } else if q > p {
                        assert(after[q] == before[q - 1]);
                    }
                }
            }
        } else {
            proof {
                assert forall|k: int| 0 <= k < i + 1 && s[k] is Some implies order@.contains(
                    k as usize,
                ) by {
                    assert(k != i);
                }
            }
        }
        i = i + 1;
    }
    order
}

/// The part of `order` that a page starting at `pos` of at most `len`
/// entries shows.
pub open spec fn page_of<A>(order: Seq<A>, pos: int, len: int) -> Seq<A> {
    let start = if pos < order.len() { pos } else { order.len() as int };
    let end = if len < order.len() - start { start + len } else { order.len() as int };
    order.subrange(start, end)
}

/// The page of the ranked entries that starts at `pos` and holds at most
/// `len` of them, as clones of `items`.
pub fn page_by_score<T: Clone>(items: &[T], scores: &[Option<u32>], pos: usize, len: usize) -> (r:
    Vec<T>)
    requires
        items@.len() == scores@.len(),
    ensures
        exists|order: Seq<usize>|
            #[trigger] is_score_order(scores@, order, scores@.len() as int) && r@.len() == page_of(
                order,
                pos as int,
                len as int,
            ).len() && forall|i: int|
                0 <= i < r@.len() ==> cloned::<T>(
                    items@[page_of(order, pos as int, len as int)[i] as int],
                    #[trigger] r@[i],
                ),
{
    let order = score_order(scores);
    let n = order.len();
    let start = if pos < n {
        pos
    } else {
        n
    };
    let end = if len < n - start {
        start + len
    } else {
        n
    };
    let ghost page = page_of(order@, pos as int, len as int);
    assert(page =~= order@.subrange(start as int, end as int));
    let mut r: Vec<T> = Vec::new();
    let mut k = start;
    while k < end
        invariant
            start <= k <= end <= n,
            n == order@.len(),
            page == order@.subrange(start as int, end as int),
            is_score_order(scores@, order@, scores@.len() as int),
            items@.len() == scores@.len(),
            r@.len() == k - start,
            forall|i: int| 0 <= i < r@.len() ==> cloned::<T>(items@[page[i] as int], #[trigger] r@[i]),
        decreases end - k,
    {
        let idx = order[k];
        r.push(items[idx].clone());
        k = k + 1;
    }
    r
}

} // verus!
