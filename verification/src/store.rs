//! Directory paths and shortcuts as the database holds them, and how a
//! path is matched to the shortcut that covers it.
use vstd::prelude::*;
use crate::fuzzy::{space_count, is_score_order, page_by_score, page_of, pattern_score, FuzzyPattern, PathMatcher};
use crate::text::{is_byte_prefix, separator_byte, starts_with_bytes, utf8};
use vstd::string::*;

verus! {

/// A named shortcut to a directory.
#[derive(Debug)]
pub struct Shortcut {
    pub id: i64,
    pub name: String,
    pub path: String,
    pub description: Option<String>,
}

impl Clone for Shortcut {
    fn clone(&self) -> (r: Self)
        ensures
            r == *self,
    {
        let description = match &self.description {
            Some(d) => Some(d.clone()),
            None => None,
        };
        Shortcut { id: self.id, name: self.name.clone(), path: self.path.clone(), description }
    }
}

/// A visited directory, with the date of the visit (seconds since the epoch)
/// and the most specific shortcut that covers it.
#[derive(Debug)]
pub struct Path {
    pub id: i64,
    pub date: i64,
    pub path: String,
    pub shortcut: Option<Shortcut>,
    pub smart_path: bool,
}

impl Clone for Path {
    fn clone(&self) -> (r: Self)
        ensures
            r == *self,
    {
        let shortcut = match &self.shortcut {
            Some(s) => Some(s.clone()),
            None => None,
        };
        Path {
            id: self.id,
            date: self.date,
            path: self.path.clone(),
            shortcut,
            smart_path: self.smart_path,
        }
    }
}

/// `sub` is `base` itself or a directory below it: the bytes of `base` start
/// those of `sub` and are followed by nothing or by a separator.
pub open spec fn spec_is_subpath(base: Seq<u8>, sub: Seq<u8>) -> bool {
    &&& is_byte_prefix(base, sub)
    &&& (sub.len() == base.len() || sub[base.len() as int] == separator_byte())
}

/// The byte length of a shortcut's path.
pub open spec fn shortcut_len(s: Shortcut) -> nat {
    utf8(s.path@).len()
}

/// The shortcut at index `i` covers the directory `path`.
pub open spec fn covers(shortcuts: Seq<Shortcut>, i: int, path: Seq<u8>) -> bool {
    spec_is_subpath(utf8(shortcuts[i].path@), path)
}

/// `k` is the first among the longest shortcuts that cover `path`.
pub open spec fn is_best_cover(shortcuts: Seq<Shortcut>, k: int, path: Seq<u8>) -> bool {
    &&& 0 <= k < shortcuts.len()
    &&& covers(shortcuts, k, path)
    &&& forall|j: int|
        0 <= j < shortcuts.len() && #[trigger] covers(shortcuts, j, path) ==> shortcut_len(
            shortcuts[j],
        ) <= shortcut_len(shortcuts[k])
    &&& forall|j: int|
        0 <= j < k && #[trigger] covers(shortcuts, j, path) ==> shortcut_len(shortcuts[j])
            < shortcut_len(shortcuts[k])
}

/// The shortcut that `assign_shortcut` keeps, starting from `current`: the first
/// of the longest covering shortcuts when one is longer than `current`, else
/// `current`.
pub open spec fn assigned_shortcut(
    current: Option<Shortcut>,
    shortcuts: Seq<Shortcut>,
    path: Seq<u8>,
) -> Option<Shortcut> {
    if exists|k: int|
        is_best_cover(shortcuts, k, path) && (current is None || shortcut_len(current->0)
            < shortcut_len(#[trigger] shortcuts[k])) {
        Some(shortcuts[choose|k: int| is_best_cover(shortcuts, k, path)])
    } else {
        current
    }
}

/// There is at most one first-longest covering shortcut.
pub proof fn lemma_best_cover_unique(shortcuts: Seq<Shortcut>, k1: int, k2: int, path: Seq<u8>)
    requires
        is_best_cover(shortcuts, k1, path),
        is_best_cover(shortcuts, k2, path),
    ensures
        k1 == k2,
{
    assert(covers(shortcuts, k1, path));
    assert(covers(shortcuts, k2, path));
}

impl Path {
    /// A path entry with the most specific of `shortcuts` that covers it.
    pub fn new(id: i64, path: String, date: i64, shortcuts: &[Shortcut]) -> (r: Self)
        ensures
            r.id == id,
            r.date == date,
            r.path == path,
            !r.smart_path,
            r.shortcut == assigned_shortcut(None, shortcuts@, utf8(path@)),
    {
        let mut p = Path { id, path, date, shortcut: None, smart_path: false };
        p.assign_shortcut(shortcuts);
        p
    }

    /// Replaces the shortcut by the first of the longest `shortcuts` that cover
    /// the path, when that one is longer than the current shortcut.
    pub fn assign_shortcut(&mut self, shortcuts: &[Shortcut])
        ensures
            final(self).id == old(self).id,
            final(self).date == old(self).date,
            final(self).path == old(self).path,
            final(self).smart_path == old(self).smart_path,
            final(self).shortcut == assigned_shortcut(
                old(self).shortcut,
                shortcuts@,
                utf8(old(self).path@),
            ),
    {
        let ghost path = utf8(self.path@);
        let ghost start = self.shortcut;
        let ghost s = shortcuts@;
        let mut i: usize = 0;
        // `best` is the index of the shortcut chosen so far, if any
        let ghost mut best: Option<int> = None;
        while i < shortcuts.len()
            invariant
                i <= shortcuts.len(),
                s == shortcuts@,
                path == utf8(self.path@),
                self.id == old(self).id,
                self.date == old(self).date,
                self.path == old(self).path,
                self.smart_path == old(self).smart_path,
                start == old(self).shortcut,
                match best {
                    None => {
                        &&& self.shortcut == start
                        &&& forall|j: int|
                            0 <= j < i && #[trigger] covers(s, j, path) ==> start is Some
                                && shortcut_len(s[j]) <= shortcut_len(start->0)
                    },
                    Some(k) => {
                        &&& 0 <= k < i
                        &&& self.shortcut == Some(s[k])
                        &&& covers(s, k, path)
                        &&& (start is None || shortcut_len(start->0) < shortcut_len(s[k]))
                        &&& forall|j: int|
                            0 <= j < i && #[trigger] covers(s, j, path) ==> shortcut_len(s[j])
                                <= shortcut_len(s[k])
                        &&& forall|j: int|
                            0 <= j < k && #[trigger] covers(s, j, path) ==> shortcut_len(s[j])
                                < shortcut_len(s[k])
                    },
                },
            decreases shortcuts.len() - i,
        {
            let candidate = &shortcuts[i];
            proof {
                assert(*candidate == s[i as int]);
            }
            if Self::is_subpath(candidate.path.as_str(), self.path.as_str()) {
                assert(covers(s, i as int, path));
                let keep = match &self.shortcut {
                    Some(existing) => {
                        let existing_len = existing.path.as_str().as_bytes().len();
                        let candidate_len = candidate.path.as_str().as_bytes().len();
                        assert(existing_len == shortcut_len(*existing));
                        assert(candidate_len == shortcut_len(s[i as int]));
                        existing_len >= candidate_len
                    },
                    None => false,
                };
                if !keep {
                    self.shortcut = Some(candidate.clone());
                    proof {
                        best = Some(i as int);
                    }
                }
            } else {
                assert(!covers(s, i as int, path));
            }
            i = i + 1;
        }
        proof {
            match best {
                None => {
                    if exists|k: int|
                        is_best_cover(s, k, path) && (start is None || shortcut_len(start->0)
                            < shortcut_len(#[trigger] s[k])) {
                        let k = choose|k: int|
                            is_best_cover(s, k, path) && (start is None || shortcut_len(start->0)
                                < shortcut_len(#[trigger] s[k]));
                        assert(covers(s, k, path));
                    }
                },
                Some(k) => {
                    assert(is_best_cover(s, k, path));
                    let k2 = choose|k2: int| is_best_cover(s, k2, path);
                    lemma_best_cover_unique(s, k, k2, path);
                },
            }
        }
    }

    /// Whether `sub_path` is `base_path` itself or a directory below it.
    pub fn is_subpath(base_path: &str, sub_path: &str) -> (r: bool)
        ensures
            r == spec_is_subpath(utf8(base_path@), utf8(sub_path@)),
    {
        let base = base_path.as_bytes();
        let sub = sub_path.as_bytes();
        if !starts_with_bytes(sub, base) {
            return false;
        }
        if sub.len() == base.len() {
            return true;
        }
        sub[base.len()] == 47u8
    }
}


/// The text of a path followed by the name and the description of a shortcut.
pub open spec fn path_with_shortcut(path: Seq<char>, s: Shortcut) -> Seq<char> {
    path + seq![' '] + s.name@ + match s.description {
        Some(d) => seq![' '] + d@,
        None => Seq::empty(),
    }
}

/// The text that a shortcut is searched by: its name, path and description.
pub open spec fn shortcut_search_text_spec(s: Shortcut) -> Seq<char> {
    s.name@ + seq![' '] + s.path@ + match s.description {
        Some(d) => seq![' '] + d@,
        None => Seq::empty(),
    }
}

/// The larger of two optional scores.
pub open spec fn max_score(a: Option<u32>, b: Option<u32>) -> Option<u32> {
    match b {
        None => a,
        Some(y) => match a {
            None => Some(y),
            Some(x) => Some(if x >= y { x } else { y }),
        },
    }
}

/// The best score of a path: that of the path itself, and, when shortcuts
/// are included, those of the path with the name and description of each of
/// `shortcuts` that covers it.
pub open spec fn path_search_score(
    pattern: Seq<char>,
    path: Seq<char>,
    shortcuts: Seq<Shortcut>,
    include_shortcuts: bool,
) -> Option<u32>
    decreases shortcuts.len(),
{
    if !include_shortcuts || shortcuts.len() == 0 {
        pattern_score(pattern, path)
    } else {
        let before = path_search_score(pattern, path, shortcuts.drop_last(), include_shortcuts);
        let s = shortcuts.last();
        if spec_is_subpath(utf8(s.path@), utf8(path)) {
            max_score(before, pattern_score(pattern, path_with_shortcut(path, s)))
        } else {
            before
        }
    }
}

/// The texts scored for a path are short enough for the matcher.
pub open spec fn path_search_scorable(
    path: Seq<char>,
    shortcuts: Seq<Shortcut>,
    include_shortcuts: bool,
) -> bool {
    &&& utf8(path).len() <= u32::MAX
    &&& include_shortcuts ==> forall|i: int|
        0 <= i < shortcuts.len() ==> utf8(#[trigger] path_with_shortcut(path, shortcuts[i])).len()
            <= u32::MAX
}

fn space_then(text: &mut String, more: &str)
    ensures
        final(text)@ == old(text)@ + seq![' '] + more@,
{
    text.append(" ");
    proof {
        reveal_strlit(" ");
    }
    text.append(more);
    assert(final(text)@ =~= old(text)@ + seq![' '] + more@);
}

/// The text of a path followed by the name and the description of `shortcut`.
pub fn path_with_shortcut_text(path: &str, shortcut: &Shortcut) -> (r: String)
    ensures
        r@ == path_with_shortcut(path@, *shortcut),
{
    let mut combined = path.to_owned();
    space_then(&mut combined, shortcut.name.as_str());
    if let Some(desc) = &shortcut.description {
        space_then(&mut combined, desc.as_str());
    }
    assert(combined@ =~= path_with_shortcut(path@, *shortcut));
    combined
}

/// The text that `shortcut` is searched by: its name, path and description.
pub fn shortcut_search_text(shortcut: &Shortcut) -> (r: String)
    ensures
        r@ == shortcut_search_text_spec(*shortcut),
{
    let mut s = shortcut.name.clone();
    space_then(&mut s, shortcut.path.as_str());
    if let Some(desc) = &shortcut.description {
        space_then(&mut s, desc.as_str());
    }
    assert(s@ =~= shortcut_search_text_spec(*shortcut));
    s
}

/// The fuzzy score of a path: the best of the score of the path and, when
/// `include_shortcuts` is set, the scores of the path with the name and
/// description of each shortcut that covers it.
pub fn score_path_for_fuzzy_search(
    path: &Path,
    matches: &FuzzyPattern,
    matcher: &mut PathMatcher,
    shortcuts: &[Shortcut],
    include_shortcuts: bool,
) -> (r: Option<u32>)
    requires
        space_count(matches@) < 65536,
        path_search_scorable(path.path@, shortcuts@, include_shortcuts),
    ensures
        r == path_search_score(matches@, path.path@, shortcuts@, include_shortcuts),
{
    let mut max_score = matches.score(path.path.as_str(), matcher);
    if !include_shortcuts {
        return max_score;
    }
    let mut i: usize = 0;
    while i < shortcuts.len()
        invariant
            i <= shortcuts.len(),
            space_count(matches@) < 65536,
            include_shortcuts,
            path_search_scorable(path.path@, shortcuts@, include_shortcuts),
            max_score == path_search_score(
                matches@,
                path.path@,
                shortcuts@.subrange(0, i as int),
                include_shortcuts,
            ),
        decreases shortcuts.len() - i,
    {
        let shortcut = &shortcuts[i];
        let ghost prefix = shortcuts@.subrange(0, i + 1int);
        proof {
            assert(prefix.drop_last() =~= shortcuts@.subrange(0, i as int));
            assert(prefix.last() == shortcuts@[i as int]);
        }
        if Path::is_subpath(shortcut.path.as_str(), path.path.as_str()) {
            let combined = path_with_shortcut_text(path.path.as_str(), shortcut);
            assert(combined@ == path_with_shortcut(path.path@, shortcuts@[i as int]));
            if let Some(score) = matches.score(combined.as_str(), matcher) {
                max_score = match max_score {
                    Some(m) => Some(if m >= score { m } else { score }),
                    None => Some(score),
                };
            }
        }
        i = i + 1;
    }
    assert(shortcuts@.subrange(0, shortcuts@.len() as int) =~= shortcuts@);
    max_score
}


/// The page of the history list that starts at `pos` and holds at most `len`
/// entries, when the smart suggestions are shown on top of the history, the
/// best one just above the latest visit (`smart_rows` comes best first).
/// Returns the suggestions that fall in the page (at most `len` of them),
/// then where the page of the history proper starts and how many rows of it
/// are still wanted: for every history, the suggestions followed by that
/// page of the history are the page of the whole list.
pub fn smart_page(smart_rows: Vec<Path>, pos: usize, len: usize) -> (r: (Vec<Path>, usize, usize))
    ensures
        ({
            let n = smart_rows@.len();
            &&& r.0@ == page_of(smart_rows@.reverse(), pos as int, len as int)
            &&& r.1 == if pos < n { 0 } else { pos - n }
            &&& r.2 == len - r.0@.len()
        }),
        forall|history: Seq<Path>|
            #![trigger page_of(history, r.1 as int, r.2 as int)]
            page_of(smart_rows@.reverse() + history, pos as int, len as int) == r.0@ + page_of(
                history,
                r.1 as int,
                r.2 as int,
            ),
{
    let n = smart_rows.len();
    let ghost rev = smart_rows@.reverse();
    if pos >= n {
        proof {
            assert(page_of(rev, pos as int, len as int) =~= Seq::<Path>::empty());
            assert forall|history: Seq<Path>|
                #![trigger page_of(history, (pos - n) as int, len as int)]
                page_of(rev + history, pos as int, len as int) == Seq::<Path>::empty() + page_of(
                    history,
                    (pos - n) as int,
                    len as int,
                ) by {
                let whole = rev + history;
                let a = page_of(whole, pos as int, len as int);
                let b = page_of(history, (pos - n) as int, len as int);
                assert(a.len() == b.len());
                assert forall|i: int| 0 <= i < a.len() implies a[i] == b[i] by {
                    assert(whole[pos + i] == history[pos - n + i]);
                }
                assert(a =~= Seq::<Path>::empty() + b);
            }
        }
        return (Vec::new(), pos - n, len);
    }
    let end = if n - pos <= len {
        n
    } else {
        pos + len
    };
    let mut kept: Vec<Path> = Vec::new();
    let mut k: usize = pos;
    while k < end
        invariant
            pos <= k <= end,
            end <= n,
            n == smart_rows@.len(),
            rev == smart_rows@.reverse(),
            kept@ == rev.subrange(pos as int, k as int),
        decreases end - k,
    {
        let item = smart_rows[n - 1 - k].clone();
        kept.push(item);
        proof {
            assert(kept@ =~= rev.subrange(pos as int, k + 1));
        }
        k = k + 1;
    }
    let rest = len - (end - pos);
    proof {
        assert(kept@ =~= page_of(rev, pos as int, len as int));
        assert forall|history: Seq<Path>|
            #![trigger page_of(history, 0int, rest as int)]
            page_of(rev + history, pos as int, len as int) == kept@ + page_of(history, 0int, rest as int) by {
            let whole = rev + history;
            let a = page_of(whole, pos as int, len as int);
            let b = kept@ + page_of(history, 0int, rest as int);
            assert(a.len() == b.len());
            assert forall|i: int| 0 <= i < a.len() implies a[i] == b[i] by {
                if i < end - pos {
                    assert(whole[pos + i] == rev[pos + i]);
                } else {
                    assert(whole[pos + i] == history[pos + i - n]);
                }
            }
            assert(a =~= b);
        }
    }
    (kept, 0, rest)
}


/// The fuzzy score of each path of `rows`.
pub open spec fn path_scores(
    pattern: Seq<char>,
    rows: Seq<Path>,
    shortcuts: Seq<Shortcut>,
    include_shortcuts: bool,
) -> Seq<Option<u32>> {
    Seq::new(
        rows.len(),
        |i: int| path_search_score(pattern, rows[i].path@, shortcuts, include_shortcuts),
    )
}

/// The fuzzy score of each shortcut of `rows`.
pub open spec fn shortcut_scores(pattern: Seq<char>, rows: Seq<Shortcut>) -> Seq<Option<u32>> {
    Seq::new(rows.len(), |i: int| pattern_score(pattern, shortcut_search_text_spec(rows[i])))
}

/// The entries of `rows` at the places that `order` lists.
pub open spec fn pick<A>(rows: Seq<A>, order: Seq<usize>) -> Seq<A> {
    order.map_values(|i: usize| rows[i as int])
}

/// The fuzzy search over the visited directories: of `rows`, the whole
/// history as stored (latest first), those that match `like_text`, best
/// first and equal scores in their order, from place `pos` and at most `len`.
pub fn list_path_fuzzy(
    rows: &[Path],
    pos: usize,
    len: usize,
    like_text: &str,
    shortcuts: &[Shortcut],
    include_shortcuts: bool,
) -> (r: Vec<Path>)
    requires
        space_count(like_text@) < 65536,
        forall|i: int|
            0 <= i < rows@.len() ==> path_search_scorable(
                (#[trigger] rows@[i]).path@,
                shortcuts@,
                include_shortcuts,
            ),
    ensures
        exists|order: Seq<usize>|
            #[trigger] is_score_order(
                path_scores(like_text@, rows@, shortcuts@, include_shortcuts),
                order,
                rows@.len() as int,
            ) && r@ == pick(rows@, page_of(order, pos as int, len as int)),
{
    let mut matcher = PathMatcher::new();
    let pattern = FuzzyPattern::parse(like_text);
    let ghost want = path_scores(like_text@, rows@, shortcuts@, include_shortcuts);
    let mut scores: Vec<Option<u32>> = Vec::new();
    let mut i: usize = 0;
    while i < rows.len()
        invariant
            i <= rows@.len(),
            pattern@ == like_text@,
            space_count(like_text@) < 65536,
            want == path_scores(like_text@, rows@, shortcuts@, include_shortcuts),
            forall|j: int|
                0 <= j < rows@.len() ==> path_search_scorable(
                    (#[trigger] rows@[j]).path@,
                    shortcuts@,
                    include_shortcuts,
                ),
            scores@ == want.subrange(0, i as int),
        decreases rows@.len() - i,
    {
        let score = score_path_for_fuzzy_search(
            &rows[i],
            &pattern,
            &mut matcher,
            shortcuts,
            include_shortcuts,
        );
        scores.push(score);
        assert(scores@ =~= want.subrange(0, i + 1));
        i = i + 1;
    }
    assert(scores@ =~= want);
    let r = page_by_score(rows, scores.as_slice(), pos, len);
    proof {
        let order = choose|order: Seq<usize>|
            #[trigger] is_score_order(scores@, order, scores@.len() as int) && r@.len() == page_of(
                order,
                pos as int,
                len as int,
            ).len() && forall|i: int|
                0 <= i < r@.len() ==> cloned::<Path>(
                    rows@[page_of(order, pos as int, len as int)[i] as int],
                    #[trigger] r@[i],
                );
        assert(r@ =~= pick(rows@, page_of(order, pos as int, len as int)));
        assert(is_score_order(want, order, rows@.len() as int));
    }
    r
}

/// The fuzzy search over the shortcuts: of `rows`, all shortcuts as stored
/// (by name), those whose name, path and description match `like_text`, best
/// first and equal scores in their order, from place `pos` and at most `len`.
pub fn list_shortcuts_fuzzy(rows: &[Shortcut], pos: usize, len: usize, like_text: &str) -> (r:
    Vec<Shortcut>)
    requires
        space_count(like_text@) < 65536,
        forall|i: int|
            0 <= i < rows@.len() ==> utf8(shortcut_search_text_spec(#[trigger] rows@[i])).len()
                <= u32::MAX,
    ensures
        exists|order: Seq<usize>|
            #[trigger] is_score_order(shortcut_scores(like_text@, rows@), order, rows@.len() as int)
                && r@ == pick(rows@, page_of(order, pos as int, len as int)),
{
    let mut matcher = PathMatcher::new();
    let pattern = FuzzyPattern::parse(like_text);
    let ghost want = shortcut_scores(like_text@, rows@);
    let mut scores: Vec<Option<u32>> = Vec::new();
    let mut i: usize = 0;
    while i < rows.len()
        invariant
            i <= rows@.len(),
            pattern@ == like_text@,
            space_count(like_text@) < 65536,
            want == shortcut_scores(like_text@, rows@),
            forall|j: int|
                0 <= j < rows@.len() ==> utf8(shortcut_search_text_spec(#[trigger] rows@[j])).len()
                    <= u32::MAX,
            scores@ == want.subrange(0, i as int),
        decreases rows@.len() - i,
    {
        let text = shortcut_search_text(&rows[i]);
        let score = pattern.score(text.as_str(), &mut matcher);
        scores.push(score);
        assert(scores@ =~= want.subrange(0, i + 1));
        i = i + 1;
    }
    assert(scores@ =~= want);
    let r = page_by_score(rows, scores.as_slice(), pos, len);
    proof {
        let order = choose|order: Seq<usize>|
            #[trigger] is_score_order(scores@, order, scores@.len() as int) && r@.len() == page_of(
                order,
                pos as int,
                len as int,
            ).len() && forall|i: int|
                0 <= i < r@.len() ==> cloned::<Shortcut>(
                    rows@[page_of(order, pos as int, len as int)[i] as int],
                    #[trigger] r@[i],
                );
        assert(r@ =~= pick(rows@, page_of(order, pos as int, len as int)));
        assert(is_score_order(want, order, rows@.len() as int));
    }
    r
}


/// Every directory is a subpath of itself.
pub proof fn law_subpath_reflexive(p: Seq<u8>)
    ensures
        spec_is_subpath(p, p),
{
    assert(p.subrange(0, p.len() as int) =~= p);
}

/// Shortcut `i` covers `path` and the path combined with its name and
/// description scores `x`.
pub open spec fn scores_through(
    pattern: Seq<char>,
    path: Seq<char>,
    shortcuts: Seq<Shortcut>,
    i: int,
    x: u32,
) -> bool {
    &&& 0 <= i < shortcuts.len()
    &&& spec_is_subpath(utf8(shortcuts[i].path@), utf8(path))
    &&& pattern_score(pattern, path_with_shortcut(path, shortcuts[i])) == Some(x)
}

/// The fuzzy score of a path is the best of the score of the path itself
/// and, when shortcuts are included, the scores of the path combined with
/// each shortcut that covers it: it is at least each of them, and it is one
/// of them; with no score among them, there is none.
pub proof fn law_path_score_is_the_best(
    pattern: Seq<char>,
    path: Seq<char>,
    shortcuts: Seq<Shortcut>,
    include_shortcuts: bool,
)
    ensures
        !include_shortcuts ==> path_search_score(pattern, path, shortcuts, include_shortcuts)
            == pattern_score(pattern, path),
        pattern_score(pattern, path) matches Some(x) ==> (path_search_score(
            pattern,
            path,
            shortcuts,
            include_shortcuts,
        ) matches Some(y) && y >= x),
        include_shortcuts ==> forall|i: int, x: u32|
            #[trigger] scores_through(pattern, path, shortcuts, i, x) ==> (path_search_score(
                pattern,
                path,
                shortcuts,
                include_shortcuts,
            ) matches Some(y) && y >= x),
        path_search_score(pattern, path, shortcuts, include_shortcuts) matches Some(y) ==> (
        pattern_score(pattern, path) == Some(y) || (include_shortcuts && exists|i: int|
            #[trigger] scores_through(pattern, path, shortcuts, i, y))),
    decreases shortcuts.len(),
{
    if include_shortcuts && shortcuts.len() > 0 {
        let init = shortcuts.drop_last();
        let n = shortcuts.len() - 1;
        law_path_score_is_the_best(pattern, path, init, include_shortcuts);
        let before = path_search_score(pattern, path, init, include_shortcuts);
        let r = path_search_score(pattern, path, shortcuts, include_shortcuts);
        assert forall|i: int, x: u32|
            #[trigger] scores_through(pattern, path, shortcuts, i, x) implies (r matches Some(y)
                && y >= x) by {
            if i < n {
                assert(init[i] == shortcuts[i]);
                assert(scores_through(pattern, path, init, i, x));
            }
        }
        if r is Some {
            let y = r->0;
            if pattern_score(pattern, path) != Some(y) {
                if before == Some(y) {
                    let i = choose|i: int| #[trigger] scores_through(pattern, path, init, i, y);
                    assert(init[i] == shortcuts[i]);
                    assert(scores_through(pattern, path, shortcuts, i, y));
                } else {
                    assert(scores_through(pattern, path, shortcuts, n, y));
                }
            }
        }
    }
}

} // verus!
