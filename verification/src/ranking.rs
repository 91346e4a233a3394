//! Smart suggestions: the directories that usually follow the current one in
//! the history, ranked by how soon and how often they followed it.
use vstd::prelude::*;
use vstd::arithmetic::power2::{pow2, lemma2_to64, lemma2_to64_rest, lemma_pow2_strictly_increases};
use vstd::bits::lemma_u64_shl_is_mul;
use vstd::seq_lib::seq_to_set_is_finite;
use vstd::set_lib::{lemma_int_range, lemma_len_subset, set_int_range};
use crate::store::{assigned_shortcut, Path, Shortcut};
use crate::text::{str_eq, utf8};

verus! {

/// The weight of a directory seen `r` places before the end of the
/// suggestion window: `2^r` shifted left twice in 64 bits.
pub open spec fn distance_score(r: nat) -> nat {
    if r <= 61 {
        pow2(r) * 4
    } else {
        0
    }
}

/// The score that one sighting adds: the distance weight plus a small bonus
/// for the more recent occurrences of the current directory.
pub open spec fn sighting_score(depth: nat, count: nat, depth_idx: nat, distance: nat) -> int {
    distance_score((count - 1 - distance) as nat) + (depth - depth_idx - 1)
}

/// The score recorded for `key` in `entries`, or zero.
pub open spec fn score_of(entries: Seq<(Seq<char>, u64)>, key: Seq<char>) -> nat
    decreases entries.len(),
{
    if entries.len() == 0 {
        0
    } else if entries.last().0 == key {
        entries.last().1 as nat
    } else {
        score_of(entries.drop_last(), key)
    }
}

/// Strings as their characters.
pub open spec fn texts(v: Seq<String>) -> Seq<Seq<char>> {
    v.map_values(|s: String| s@)
}

/// `key` is among the entries.
pub open spec fn has_key(entries: Seq<(Seq<char>, u64)>, key: Seq<char>) -> bool {
    exists|i: int| 0 <= i < entries.len() && entries[i].0 == key
}

/// No key occurs twice.
pub open spec fn distinct_keys(entries: Seq<(Seq<char>, u64)>) -> bool {
    forall|i: int, j: int|
        0 <= i < entries.len() && 0 <= j < entries.len() && i != j ==> #[trigger] entries[i].0
            != #[trigger] entries[j].0
}

/// Ranks the directories that followed the current one.
pub struct SmartRanker {
    depth: usize,
    context_values_count: usize,
    seen_paths: Vec<(String, u64)>,
}

/// The ranker as its settings and the scores it has recorded, in the order
/// in which the directories were first seen.
pub ghost struct RankerModel {
    pub depth: nat,
    pub count: nat,
    pub entries: Seq<(Seq<char>, u64)>,
}

pub open spec fn entry_view(e: (String, u64)) -> (Seq<char>, u64) {
    (e.0@, e.1)
}

impl View for SmartRanker {
    type V = RankerModel;

    closed spec fn view(&self) -> RankerModel {
        RankerModel {
            depth: self.depth as nat,
            count: self.context_values_count as nat,
            entries: self.seen_paths@.map_values(|e: (String, u64)| entry_view(e)),
        }
    }
}

/// The keys that `collect_rows` returns, each with its place in `entries`:
/// at most `count` distinct entries, best first, none of those left out
/// scoring above one that is kept.
pub open spec fn is_top_ranking(
    entries: Seq<(Seq<char>, u64)>,
    rows: Seq<Seq<char>>,
    count: nat,
    idx: Seq<int>,
) -> bool {
    &&& rows.len() == if count < entries.len() { count } else { entries.len() }
    &&& idx.len() == rows.len()
    &&& forall|i: int| 0 <= i < idx.len() ==> 0 <= #[trigger] idx[i] < entries.len()
    &&& forall|i: int| 0 <= i < idx.len() ==> rows[i] == entries[#[trigger] idx[i]].0
    &&& forall|i: int, j: int| 0 <= i < j < idx.len() ==> idx[i] != idx[j]
    &&& forall|i: int, j: int|
        0 <= i < j < idx.len() ==> entries[idx[i]].1 >= entries[idx[j]].1
    &&& forall|j: int, i: int|
        0 <= j < entries.len() && !idx.contains(j) && 0 <= i < idx.len() ==> entries[j].1
            <= entries[idx[i]].1
}

proof fn lemma_score_of_found(entries: Seq<(Seq<char>, u64)>, k: int)
    requires
        distinct_keys(entries),
        0 <= k < entries.len(),
    ensures
        score_of(entries, entries[k].0) == entries[k].1,
    decreases entries.len(),
{
    if k != entries.len() - 1 {
        let prefix = entries.drop_last();
        assert(entries.last().0 != entries[k].0);
        assert(prefix[k] == entries[k]);
        lemma_score_of_found(prefix, k);
    }
}

proof fn lemma_score_of_absent(entries: Seq<(Seq<char>, u64)>, key: Seq<char>)
    requires
        forall|i: int| 0 <= i < entries.len() ==> entries[i].0 != key,
    ensures
        score_of(entries, key) == 0,
    decreases entries.len(),
{
    if entries.len() > 0 {
        let prefix = entries.drop_last();
        assert(entries.last().0 != key);
        assert forall|i: int| 0 <= i < prefix.len() implies prefix[i].0 != key by {
            assert(prefix[i] == entries[i]);
        }
        lemma_score_of_absent(prefix, key);
    }
}

/// The place of `key` among the entries, if it is there.
fn position_of(entries: &Vec<(String, u64)>, key: &String) -> (r: Option<usize>)
    ensures
        match r {
            Some(i) => i < entries@.len() && entries@[i as int].0@ == key@,
            None => forall|i: int| 0 <= i < entries@.len() ==> entries@[i].0@ != key@,
        },
{
    let mut i: usize = 0;
    while i < entries.len()
        invariant
            0 <= i <= entries@.len(),
            forall|j: int| 0 <= j < i ==> entries@[j].0@ != key@,
        decreases entries.len() - i,
    {
        if entries[i].0 == *key {
            return Some(i);
        }
        i = i + 1;
    }
    None
}

/// The score recorded for `key`, or zero.
fn score_for(entries: &Vec<(String, u64)>, key: &String) -> (r: u64)
    requires
        distinct_keys(entries@.map_values(|e: (String, u64)| entry_view(e))),
    ensures
        r == score_of(entries@.map_values(|e: (String, u64)| entry_view(e)), key@),
{
    let ghost e = entries@.map_values(|e: (String, u64)| entry_view(e));
    match position_of(entries, key) {
        Some(i) => {
            proof {
                assert(e[i as int] == entry_view(entries@[i as int]));
                lemma_score_of_found(e, i as int);
            }
            entries[i].1
        },
        None => {
            proof {
                assert forall|j: int| 0 <= j < e.len() implies e[j].0 != key@ by {
                    assert(e[j] == entry_view(entries@[j]));
                }
                lemma_score_of_absent(e, key@);
            }
            0
        },
    }
}

/// The weight of a sighting at reverse index `r`, computed as the shifts do.
fn weight(reverse_idx: u32) -> (r: u64)
    requires
        reverse_idx < 64,
    ensures
        r == distance_score(reverse_idx as nat),
{
    let shift = reverse_idx as u64;
    let score: u64 = 1u64 << shift;
    proof {
        lemma2_to64();
        lemma2_to64_rest();
        assert(1u64 * pow2(shift as nat) <= u64::MAX) by {
            assert(pow2(shift as nat) <= pow2(63)) by {
                if shift < 63 {
                    lemma_pow2_strictly_increases(shift as nat, 63);
                }
            }
        }
        lemma_u64_shl_is_mul(1u64, shift);
    }
    let r = score << 2u64;
    proof {
        if shift <= 61 {
            assert(score * pow2(2) <= u64::MAX) by {
                lemma_pow2_strictly_increases(shift as nat, 62);
                assert(pow2(shift as nat) * 4 <= pow2(61) * 4) by {
                    if shift < 61 {
                        lemma_pow2_strictly_increases(shift as nat, 61);
                    }
                }
            }
            lemma_u64_shl_is_mul(score, 2u64);
        } else if shift == 62 {
            assert(score == 0x4000_0000_0000_0000u64);
            assert(0x4000_0000_0000_0000u64 << 2u64 == 0u64) by (bit_vector);
        } else {
            assert(score == 0x8000_0000_0000_0000u64);
            assert(0x8000_0000_0000_0000u64 << 2u64 == 0u64) by (bit_vector);
        }
    }
    r
}

impl SmartRanker {
    /// A ranker for the `depth` latest occurrences of the current directory,
    /// keeping `context_values_count` directories after each of them.
    pub fn new(depth: usize, context_values_count: usize) -> (r: SmartRanker)
        ensures
            r@ == (RankerModel {
                depth: depth as nat,
                count: context_values_count as nat,
                entries: Seq::empty(),
            }),
            r.well_formed(),
    {
        let r = SmartRanker { depth, context_values_count, seen_paths: Vec::new() };
        assert(r@.entries =~= Seq::empty());
        r
    }

    /// No directory is recorded twice.
    pub open spec fn well_formed(&self) -> bool {
        distinct_keys(self@.entries)
    }

    /// Whether `add_path` can record this sighting without an arithmetic
    /// overflow: the weight fits a power of two, the occurrence index is below
    /// the depth, and the new total fits in 64 bits.
    pub open spec fn can_add(m: RankerModel, depth_idx: nat, path: Seq<char>, distance: nat) -> bool {
        distance < m.count ==> {
            &&& m.count <= u32::MAX
            &&& m.count - 1 - distance < 64
            &&& depth_idx < m.depth
            &&& sighting_score(m.depth, m.count, depth_idx, distance) <= u64::MAX
            &&& sighting_score(m.depth, m.count, depth_idx, distance) + score_of(m.entries, path)
                <= u64::MAX
        }
    }

    /// Records that `path` followed the `depth`-th latest occurrence of the
    /// current directory at `distance` places. Sightings at a distance of
    /// `context_values_count` or more are ignored.
    pub fn add_path(&mut self, depth: usize, path: String, distance: usize)
        requires
            old(self).well_formed(),
            Self::can_add(old(self)@, depth as nat, path@, distance as nat),
        ensures
            final(self).well_formed(),
            final(self)@.depth == old(self)@.depth,
            final(self)@.count == old(self)@.count,
            distance >= old(self)@.count ==> final(self)@ == old(self)@,
            distance < old(self)@.count ==> {
                let s = sighting_score(
                    old(self)@.depth,
                    old(self)@.count,
                    depth as nat,
                    distance as nat,
                );
                &&& forall|k: Seq<char>|
                    #![trigger score_of(final(self)@.entries, k)]
                    score_of(final(self)@.entries, k) == score_of(old(self)@.entries, k) + if k
                        == path@ {
                        s
                    } else {
                        0
                    }
                &&& forall|k: Seq<char>|
                    #[trigger] has_key(final(self)@.entries, k) <==> (k == path@ || has_key(
                        old(self)@.entries,
                        k,
                    ))
                &&& final(self)@.entries.len() == old(self)@.entries.len() + if has_key(
                    old(self)@.entries,
                    path@,
                ) {
                    0int
                } else {
                    1int
                }
            },
    {
        if distance >= self.context_values_count {
            return;
        }
        let ghost old_entries = self@.entries;
        let reverse_idx: u32 = self.context_values_count as u32 - 1 - distance as u32;
        let base = weight(reverse_idx);
        let score = base + (self.depth - depth - 1) as u64;
        let ghost s = score as nat;
        match position_of(&self.seen_paths, &path) {
            Some(i) => {
                let existing = self.seen_paths[i].1;
                proof {
                    assert(old_entries[i as int] == entry_view(self.seen_paths@[i as int]));
                    lemma_score_of_found(old_entries, i as int);
                }
                let new_score = score + existing;
                self.seen_paths.set(i, (path, new_score));
                proof {
                    let new_entries = self@.entries;
                    assert(new_entries =~= old_entries.update(i as int, (path@, new_score)));
                    assert(distinct_keys(new_entries));
                    assert forall|k: Seq<char>|
                        #![trigger score_of(new_entries, k)]
                        score_of(new_entries, k) == score_of(old_entries, k) + if k == path@ {
                            s
                        } else {
                            0
                        } by {
                        if k == path@ {
                            lemma_score_of_found(new_entries, i as int);
                        } else if exists|j: int| 0 <= j < old_entries.len() && old_entries[j].0 == k {
                            let j = choose|j: int| 0 <= j < old_entries.len() && old_entries[j].0 == k;
                            lemma_score_of_found(new_entries, j);
                            lemma_score_of_found(old_entries, j);
                        } else {
                            lemma_score_of_absent(old_entries, k);
                            lemma_score_of_absent(new_entries, k);
                        }
                    }
                    assert forall|k: Seq<char>|
                        #[trigger] has_key(new_entries, k) <==> (k == path@ || has_key(
                            old_entries,
                            k,
                        )) by {
                        if k == path@ {
                            assert(new_entries[i as int].0 == k);
                        }
                        if exists|j: int| 0 <= j < new_entries.len() && new_entries[j].0 == k {
                            let j = choose|j: int| 0 <= j < new_entries.len() && new_entries[j].0 == k;
                            if j != i {
                                assert(old_entries[j].0 == k);
                            }
                        }
                        if exists|j: int| 0 <= j < old_entries.len() && old_entries[j].0 == k {
                            let j = choose|j: int| 0 <= j < old_entries.len() && old_entries[j].0 == k;
                            if j != i {
                                assert(new_entries[j].0 == k);
                            } else {
                                assert(new_entries[i as int].0 == k);
                            }
                        }
                    }
                }
            },
            None => {
                let ghost key = path@;
                self.seen_paths.push((path, score));
                proof {
                    let new_entries = self@.entries;
                    assert(new_entries =~= old_entries.push((key, score)));
                    assert(distinct_keys(new_entries));
                    lemma_score_of_absent(old_entries, key);
                    assert(new_entries.drop_last() =~= old_entries);
                    assert forall|k: Seq<char>|
                        #[trigger] has_key(new_entries, k) <==> (k == key || has_key(
                            old_entries,
                            k,
                        )) by {
                        if k == key {
                            assert(new_entries[old_entries.len() as int].0 == k);
                        }
                        if exists|j: int| 0 <= j < new_entries.len() && new_entries[j].0 == k {
                            let j = choose|j: int| 0 <= j < new_entries.len() && new_entries[j].0 == k;
                            if j < old_entries.len() {
                                assert(old_entries[j].0 == k);
                            }
                        }
                        if exists|j: int| 0 <= j < old_entries.len() && old_entries[j].0 == k {
                            let j = choose|j: int| 0 <= j < old_entries.len() && old_entries[j].0 == k;
                            assert(new_entries[j].0 == k);
                        }
                    }
                }
            },
        }
    }

    /// The best `context_values_count` directories, best first, each once.
    pub fn collect_rows(&self) -> (r: Vec<String>)
        requires
            self.well_formed(),
        ensures
            texts(r@).no_duplicates(),
            exists|idx: Seq<int>|
                #[trigger] is_top_ranking(
                    self@.entries,
                    texts(r@),
                    self@.count,
                    idx,
                ),
    {
        let ghost e = self@.entries;
        let n = self.seen_paths.len();
        let k = if self.context_values_count < n {
            self.context_values_count
        } else {
            n
        };
        let mut taken: Vec<bool> = Vec::new();
        while taken.len() < n
            invariant
                taken.len() <= n,
                forall|j: int| 0 <= j < taken.len() ==> !taken@[j],
            decreases n - taken.len(),
        {
            taken.push(false);
        }
        let mut rows: Vec<String> = Vec::new();
        let ghost mut idx: Seq<int> = Seq::empty();
        let mut t: usize = 0;
        while t < k
            invariant
                n == self.seen_paths@.len(),
                e == self@.entries,
                e.len() == n,
                k <= n,
                t <= k,
                taken.len() == n,
                rows.len() == t,
                idx.len() == t,
                idx.no_duplicates(),
                forall|i: int| 0 <= i < t ==> 0 <= #[trigger] idx[i] < n,
                forall|j: int| 0 <= j < n ==> (taken@[j] <==> idx.contains(j)),
                forall|i: int| 0 <= i < t ==> rows@[i]@ == e[#[trigger] idx[i]].0,
                forall|i: int, j: int| 0 <= i < j < t ==> e[idx[i]].1 >= e[idx[j]].1,
                forall|j: int, i: int|
                    0 <= j < n && !idx.contains(j) && 0 <= i < t ==> e[j].1 <= e[idx[i]].1,
            decreases k - t,
        {
            proof {
                lemma_missing_index(idx, n as int);
            }
            let mut best: usize = n;
            let mut j: usize = 0;
            while j < n
                invariant
                    n == self.seen_paths@.len(),
                    e == self@.entries,
                    taken.len() == n,
                    j <= n,
                    best == n || (best < j && !taken@[best as int]),
                    best == n ==> forall|j2: int| 0 <= j2 < j ==> taken@[j2],
                    best < n ==> forall|j2: int|
                        0 <= j2 < j && !taken@[j2] ==> e[j2].1 <= e[best as int].1,
                decreases n - j,
            {
                if !taken[j] {
                    proof {
                        assert(e[j as int] == entry_view(self.seen_paths@[j as int]));
                        if best < n {
                            assert(e[best as int] == entry_view(self.seen_paths@[best as int]));
                        }
                    }
                    if best == n || self.seen_paths[j].1 > self.seen_paths[best].1 {
                        best = j;
                    }
                }
                j = j + 1;
            }
            proof {
                let m = choose|m: int| 0 <= m < n && !idx.contains(m);
                assert(!taken@[m]);
            }
            taken.set(best, true);
            rows.push(self.seen_paths[best].0.clone());
            proof {
                assert(e[best as int] == entry_view(self.seen_paths@[best as int]));
                let old_idx = idx;
                idx = idx.push(best as int);
                assert(idx.no_duplicates()) by {
                    assert(!old_idx.contains(best as int));
                    assert forall|a: int, b: int| 0 <= a < b < idx.len() implies idx[a] != idx[b] by {
                        if b == old_idx.len() {
                            assert(old_idx[a] == idx[a]);
                            if idx[a] == best as int {
                                assert(old_idx.contains(best as int));
                            }
                        }
                    }
                }
                assert forall|j2: int| 0 <= j2 < n implies (taken@[j2] <==> idx.contains(j2)) by {
                    if j2 == best as int {
                        assert(idx[old_idx.len() as int] == j2);
                    } else {
                        if idx.contains(j2) {
                            let a = choose|a: int| 0 <= a < idx.len() && idx[a] == j2;
                            assert(old_idx[a] == j2);
                        }
                        if old_idx.contains(j2) {
                            let a = choose|a: int| 0 <= a < old_idx.len() && old_idx[a] == j2;
                            assert(idx[a] == j2);
                        }
                    }
                }
                assert forall|i: int, j2: int| 0 <= i < j2 < idx.len() implies e[idx[i]].1 >= e[idx[j2]].1 by {
                    if j2 == old_idx.len() {
                        assert(!old_idx.contains(best as int));
                        assert(old_idx[i] == idx[i]);
                    }
                }
                assert forall|j2: int, i: int|
                    0 <= j2 < n && !idx.contains(j2) && 0 <= i < idx.len() implies e[j2].1 <= e[idx[i]].1 by {
                    if !old_idx.contains(j2) {
                    } else {
                        let a = choose|a: int| 0 <= a < old_idx.len() && old_idx[a] == j2;
                        assert(idx[a] == j2);
                    }
                    if i < old_idx.len() {
                        assert(old_idx[i] == idx[i]);
                        if old_idx.contains(j2) {
                            let a = choose|a: int| 0 <= a < old_idx.len() && old_idx[a] == j2;
                            assert(idx[a] == j2);
                        }
                    }
                }
            }
            t = t + 1;
        }
        proof {
            let rv = texts(rows@);
            assert forall|i: int| 0 <= i < idx.len() implies rv[i] == e[#[trigger] idx[i]].0 by {
                assert(rv[i] == rows@[i]@);
            }
            assert(forall|i: int, j2: int| 0 <= i < j2 < idx.len() ==> idx[i] != idx[j2]);
            assert(is_top_ranking(e, rv, self@.count, idx));
            assert(distinct_keys(e));
            assert forall|a: int, b: int| 0 <= a < rv.len() && 0 <= b < rv.len() && a != b implies rv[a]
                != rv[b] by {
                assert(rv[a] == e[idx[a]].0);
                assert(rv[b] == e[idx[b]].0);
                assert(idx[a] != idx[b]);
            }
        }
        rows
    }

}


/// A sequence of distinct indices below `n` that is shorter than `n` misses one.
proof fn lemma_missing_index(idx: Seq<int>, n: int)
    requires
        idx.no_duplicates(),
        forall|i: int| 0 <= i < idx.len() ==> 0 <= #[trigger] idx[i] < n,
    ensures
        idx.len() < n ==> exists|j: int| 0 <= j < n && !idx.contains(j),
{
    if idx.len() < n && forall|j: int| 0 <= j < n ==> idx.contains(j) {
        idx.unique_seq_to_set();
        lemma_int_range(0, n);
        assert(set_int_range(0, n).subset_of(idx.to_set())) by {
            assert forall|j: int| set_int_range(0, n).contains(j) implies idx.to_set().contains(j) by {
                assert(idx.contains(j));
            }
        }
        seq_to_set_is_finite(idx);
        lemma_len_subset(set_int_range(0, n), idx.to_set());
    }
}


/// Lists of directory names as their characters.
pub open spec fn text_lists(v: Seq<Vec<String>>) -> Seq<Seq<Seq<char>>> {
    v.map_values(|l: Vec<String>| texts(l@))
}

/// The paths of a list of entries, as their characters.
pub open spec fn path_texts(v: Seq<Path>) -> Seq<Seq<char>> {
    v.map_values(|p: Path| p.path@)
}

/// How many directories of `list` come before the first `stop`: the
/// directories that followed one occurrence of the current directory until
/// it was visited again.
pub open spec fn window_len(list: Seq<Seq<char>>, stop: Seq<char>) -> nat
    decreases list.len(),
{
    if list.len() == 0 || list[0] == stop {
        0
    } else {
        1 + window_len(list.drop_first(), stop)
    }
}

/// What the first `n` directories of a window add to the score of `key`, the
/// window that followed the `depth_idx`-th latest occurrence.
pub open spec fn window_score(
    depth: nat,
    count: nat,
    depth_idx: nat,
    list: Seq<Seq<char>>,
    n: nat,
    key: Seq<char>,
) -> nat
    decreases n,
{
    if n == 0 {
        0
    } else {
        window_score(depth, count, depth_idx, list, (n - 1) as nat, key) + if list[n - 1] == key
            && n - 1 < count {
            sighting_score(depth, count, depth_idx, (n - 1) as nat) as nat
        } else {
            0nat
        }
    }
}

/// The score of `key` once the windows of the first `m` occurrences of
/// `stop` are counted.
pub open spec fn suggestion_score(
    depth: nat,
    count: nat,
    lists: Seq<Seq<Seq<char>>>,
    stop: Seq<char>,
    m: nat,
    key: Seq<char>,
) -> nat
    decreases m,
{
    if m == 0 {
        0
    } else {
        suggestion_score(depth, count, lists, stop, (m - 1) as nat, key) + window_score(
            depth,
            count,
            (m - 1) as nat,
            lists[m - 1],
            window_len(lists[m - 1], stop),
            key,
        )
    }
}

/// `key` was seen within the count in one of the first `m` windows, or in
/// the first `n` places of the next one.
pub open spec fn seen_before(
    count: nat,
    lists: Seq<Seq<Seq<char>>>,
    stop: Seq<char>,
    m: int,
    n: int,
    key: Seq<char>,
) -> bool {
    exists|s: int, i: int|
        0 <= s <= m && s < lists.len() && 0 <= i < count && (s < m ==> i < window_len(
            lists[s],
            stop,
        )) && (s == m ==> i < n) && i < lists[s].len() && #[trigger] lists[s][i] == key
}

proof fn lemma_window_len(list: Seq<Seq<char>>, stop: Seq<char>, i: int)
    requires
        0 <= i <= list.len(),
        forall|j: int| 0 <= j < i ==> list[j] != stop,
        i == list.len() || list[i] == stop,
    ensures
        window_len(list, stop) == i,
    decreases i,
{
    if i > 0 {
        let rest = list.drop_first();
        assert forall|j: int| 0 <= j < i - 1 implies rest[j] != stop by {
            assert(rest[j] == list[j + 1]);
        }
        if i < list.len() {
            assert(rest[i - 1] == list[i]);
        }
        lemma_window_len(rest, stop, i - 1);
    }
}

proof fn lemma_window_len_bound(list: Seq<Seq<char>>, stop: Seq<char>)
    ensures
        window_len(list, stop) <= list.len(),
    decreases list.len(),
{
    if list.len() > 0 && list[0] != stop {
        lemma_window_len_bound(list.drop_first(), stop);
    }
}

proof fn lemma_window_score_grows(
    depth: nat,
    count: nat,
    depth_idx: nat,
    list: Seq<Seq<char>>,
    n1: nat,
    n2: nat,
    key: Seq<char>,
)
    requires
        n1 <= n2,
    ensures
        window_score(depth, count, depth_idx, list, n1, key) <= window_score(
            depth,
            count,
            depth_idx,
            list,
            n2,
            key,
        ),
    decreases n2,
{
    if n1 < n2 {
        lemma_window_score_grows(depth, count, depth_idx, list, n1, (n2 - 1) as nat, key);
    }
}

proof fn lemma_suggestion_score_grows(
    depth: nat,
    count: nat,
    lists: Seq<Seq<Seq<char>>>,
    stop: Seq<char>,
    m1: nat,
    m2: nat,
    key: Seq<char>,
)
    requires
        m1 <= m2,
    ensures
        suggestion_score(depth, count, lists, stop, m1, key) <= suggestion_score(
            depth,
            count,
            lists,
            stop,
            m2,
            key,
        ),
    decreases m2,
{
    if m1 < m2 {
        lemma_suggestion_score_grows(depth, count, lists, stop, m1, (m2 - 1) as nat, key);
    }
}

proof fn lemma_score_of_bounded(entries: Seq<(Seq<char>, u64)>, key: Seq<char>)
    ensures
        score_of(entries, key) <= u64::MAX,
    decreases entries.len(),
{
    if entries.len() > 0 && entries.last().0 != key {
        lemma_score_of_bounded(entries.drop_last(), key);
    }
}

/// Where the window of `list` ends: the place of the first `stop`, or the
/// length of the list.
fn window_end(list: &Vec<String>, stop: &str) -> (r: usize)
    ensures
        r == window_len(texts(list@), stop@),
        r <= list@.len(),
{
    let ghost t = texts(list@);
    let mut i: usize = 0;
    while i < list.len()
        invariant
            i <= list@.len(),
            t == texts(list@),
            forall|j: int| 0 <= j < i ==> t[j] != stop@,
        decreases list.len() - i,
    {
        if str_eq(list[i].as_str(), stop) {
            proof {
                lemma_window_len(t, stop@, i as int);
            }
            return i;
        }
        i = i + 1;
    }
    proof {
        lemma_window_len(t, stop@, i as int);
    }
    i
}

/// The weights of the sightings fit in 64 bits: a window that holds a
/// directory scores one at distance 0, weighted `2^(count - 1)`, so `count`
/// is at most 64 once any window is not empty.
pub open spec fn weights_fit(count: nat, lists: Seq<Seq<Seq<char>>>, stop: Seq<char>) -> bool {
    forall|d: int| 0 <= d < lists.len() && #[trigger] window_len(lists[d], stop) > 0 ==> count <= 64
}

/// The smart suggestions for the directory `match_path`, best first.
///
/// `successors[d]` lists the directories visited after the `d`-th latest
/// visit of `match_path`, in the order of the visits. Each one up to the next
/// visit of `match_path` scores by its place, as `SmartRanker::add_path`
/// counts it; the best `suggestions_values_count` are returned as entries with
/// no id and no date, marked as smart. `None` when a score passes `u64::MAX`.
pub fn smart_suggestions(
    match_path: &str,
    search_depth: usize,
    suggestions_values_count: usize,
    successors: &Vec<Vec<String>>,
    shortcuts: &[Shortcut],
) -> (r: Option<Vec<Path>>)
    requires
        successors@.len() <= search_depth,
        match_path@.len() > 0 ==> weights_fit(
            suggestions_values_count as nat,
            text_lists(successors@),
            match_path@,
        ),
    ensures
        match_path@.len() == 0 ==> (r matches Some(v) && v@.len() == 0),
        match_path@.len() > 0 ==> (r is None <==> exists|k: Seq<char>|
            #[trigger] suggestion_score(
                search_depth as nat,
                suggestions_values_count as nat,
                text_lists(successors@),
                match_path@,
                successors@.len(),
                k,
            ) > u64::MAX),
        match_path@.len() > 0 ==> (r matches Some(v) ==> exists|
            entries: Seq<(Seq<char>, u64)>,
            idx: Seq<int>,
        |
            #![trigger is_top_ranking(entries, path_texts(v@), suggestions_values_count as nat, idx)]
            {
                &&& distinct_keys(entries)
                &&& forall|k: Seq<char>|
                    #![trigger score_of(entries, k)]
                    score_of(entries, k) == suggestion_score(
                        search_depth as nat,
                        suggestions_values_count as nat,
                        text_lists(successors@),
                        match_path@,
                        successors@.len(),
                        k,
                    )
                &&& forall|k: Seq<char>|
                    #![trigger has_key(entries, k)]
                    has_key(entries, k) <==> seen_before(
                        suggestions_values_count as nat,
                        text_lists(successors@),
                        match_path@,
                        successors@.len() as int,
                        0,
                        k,
                    )
                &&& is_top_ranking(entries, path_texts(v@), suggestions_values_count as nat, idx)
            }),
        r matches Some(v) ==> path_texts(v@).no_duplicates(),
        r matches Some(v) ==> forall|i: int|
            0 <= i < v@.len() ==> {
                &&& (#[trigger] v@[i]).id == 0
                &&& v@[i].date == 0
                &&& v@[i].smart_path
                &&& v@[i].shortcut == assigned_shortcut(None, shortcuts@, utf8(v@[i].path@))
            },
{
    if match_path.is_empty() {
        return Some(Vec::new());
    }
    let ghost depth = search_depth as nat;
    let ghost count = suggestions_values_count as nat;
    let ghost lists = text_lists(successors@);
    let ghost stop = match_path@;
    let mut ranker = SmartRanker::new(search_depth, suggestions_values_count);
    let mut d: usize = 0;
    while d < successors.len()
        invariant
            d <= successors@.len(),
            successors@.len() <= search_depth,
            weights_fit(count, lists, stop),
            lists == text_lists(successors@),
            stop == match_path@,
            stop.len() > 0,
            depth == search_depth as nat,
            count == suggestions_values_count as nat,
            ranker.well_formed(),
            ranker@.depth == depth,
            ranker@.count == count,
            forall|k: Seq<char>|
                #![trigger score_of(ranker@.entries, k)]
                score_of(ranker@.entries, k) == suggestion_score(depth, count, lists, stop, d as nat, k),
            forall|k: Seq<char>|
                #![trigger has_key(ranker@.entries, k)]
                has_key(ranker@.entries, k) <==> seen_before(count, lists, stop, d as int, 0, k),
        decreases successors@.len() - d,
    {
        let list = &successors[d];
        let end = window_end(list, match_path);
        let ghost w = lists[d as int];
        assert(w == texts(list@));
        let mut i: usize = 0;
        while i < end
            invariant
                d < successors@.len(),
                successors@.len() <= search_depth,
                weights_fit(count, lists, stop),
                lists == text_lists(successors@),
                stop == match_path@,
                stop.len() > 0,
                depth == search_depth as nat,
                count == suggestions_values_count as nat,
                list == successors@[d as int],
                w == lists[d as int],
                w == texts(list@),
                end == window_len(w, stop),
                end <= list@.len(),
                i <= end,
                ranker.well_formed(),
                ranker@.depth == depth,
                ranker@.count == count,
                forall|k: Seq<char>|
                    #![trigger score_of(ranker@.entries, k)]
                    score_of(ranker@.entries, k) == suggestion_score(depth, count, lists, stop, d as nat, k)
                        + window_score(depth, count, d as nat, w, i as nat, k),
                forall|k: Seq<char>|
                    #![trigger has_key(ranker@.entries, k)]
                    has_key(ranker@.entries, k) <==> seen_before(count, lists, stop, d as int, i as int, k),
            decreases end - i,
        {
            let ghost old_entries = ranker@.entries;
            let name = list[i].clone();
            assert(name@ == w[i as int]);
            assert(suggestions_values_count <= 64) by {
                assert(window_len(lists[d as int], stop) > 0);
            }
            if i < suggestions_values_count {
                let reverse_idx: u32 = (suggestions_values_count - 1 - i) as u32;
                let base = weight(reverse_idx);
                let bonus = search_depth - d - 1;
                let existing = score_for(&ranker.seen_paths, &name);
                if base as u128 + bonus as u128 + existing as u128 > u64::MAX as u128 {
                    proof {
                        let k = name@;
                        let total = suggestion_score(depth, count, lists, stop, successors@.len(), k);
                        lemma_window_score_grows(depth, count, d as nat, w, (i + 1) as nat, end as nat, k);
                        lemma_suggestion_score_grows(depth, count, lists, stop, (d + 1) as nat, successors@.len(), k);
                        assert(suggestion_score(depth, count, lists, stop, (d + 1) as nat, k)
                            == suggestion_score(depth, count, lists, stop, d as nat, k)
                                + window_score(depth, count, d as nat, lists[d as int], end as nat, k));
                        assert(total > u64::MAX);
                    }
                    return None;
                }
                ranker.add_path(d, name, i);
            }
            proof {
                let new_entries = ranker@.entries;
                assert forall|k: Seq<char>|
                    #![trigger score_of(new_entries, k)]
                    score_of(new_entries, k) == suggestion_score(depth, count, lists, stop, d as nat, k)
                        + window_score(depth, count, d as nat, w, (i + 1) as nat, k) by {
                }
                assert forall|k: Seq<char>|
                    #![trigger has_key(new_entries, k)]
                    has_key(new_entries, k) <==> seen_before(count, lists, stop, d as int, (i + 1) as int, k) by {
                    if seen_before(count, lists, stop, d as int, (i + 1) as int, k) {
                        let (s, j) = choose|s: int, j: int|
                            0 <= s <= d && s < lists.len() && 0 <= j < count && (s < d ==> j
                                < window_len(lists[s], stop)) && (s == d ==> j < i + 1) && j < lists[s].len()
                                && #[trigger] lists[s][j] == k;
                        if !(s == d && j == i) {
                            assert(seen_before(count, lists, stop, d as int, i as int, k));
                        }
                    }
                    if has_key(old_entries, k) {
                        let (s, j) = choose|s: int, j: int|
                            0 <= s <= d && s < lists.len() && 0 <= j < count && (s < d ==> j
                                < window_len(lists[s], stop)) && (s == d ==> j < i) && j < lists[s].len()
                                && #[trigger] lists[s][j] == k;
                        assert(seen_before(count, lists, stop, d as int, (i + 1) as int, k));
                    }
                    if i < count && k == w[i as int] {
                        assert(lists[d as int][i as int] == k);
                        assert(seen_before(count, lists, stop, d as int, (i + 1) as int, k));
                    }
                }
            }
            i = i + 1;
        }
        proof {
            assert forall|k: Seq<char>|
                #![trigger has_key(ranker@.entries, k)]
                has_key(ranker@.entries, k) <==> seen_before(count, lists, stop, (d + 1) as int, 0, k) by {
                if seen_before(count, lists, stop, (d + 1) as int, 0, k) {
                    let (s, j) = choose|s: int, j: int|
                        0 <= s <= d + 1 && s < lists.len() && 0 <= j < count && (s < d + 1 ==> j
                            < window_len(lists[s], stop)) && (s == d + 1 ==> j < 0) && j < lists[s].len()
                            && #[trigger] lists[s][j] == k;
                    assert(seen_before(count, lists, stop, d as int, end as int, k));
                }
                if seen_before(count, lists, stop, d as int, end as int, k) {
                    let (s, j) = choose|s: int, j: int|
                        0 <= s <= d && s < lists.len() && 0 <= j < count && (s < d ==> j
                            < window_len(lists[s], stop)) && (s == d ==> j < end) && j < lists[s].len()
                            && #[trigger] lists[s][j] == k;
                    assert(seen_before(count, lists, stop, (d + 1) as int, 0, k));
                }
            }
        }
        d = d + 1;
    }
    let rows = ranker.collect_rows();
    let ghost entries = ranker@.entries;
    let ghost idx = choose|idx: Seq<int>| #[trigger] is_top_ranking(entries, texts(rows@), count, idx);
    let mut v: Vec<Path> = Vec::new();
    let mut j: usize = 0;
    while j < rows.len()
        invariant
            j <= rows@.len(),
            v@.len() == j,
            forall|t: int| 0 <= t < j ==> (#[trigger] v@[t]).path@ == rows@[t]@,
            forall|t: int|
                0 <= t < j ==> {
                    &&& (#[trigger] v@[t]).id == 0
                    &&& v@[t].date == 0
                    &&& v@[t].smart_path
                    &&& v@[t].shortcut == assigned_shortcut(None, shortcuts@, utf8(v@[t].path@))
                },
        decreases rows@.len() - j,
    {
        let mut p = Path::new(0, rows[j].clone(), 0, shortcuts);
        p.smart_path = true;
        v.push(p);
        j = j + 1;
    }
    proof {
        assert(path_texts(v@) =~= texts(rows@));
        assert forall|k: Seq<char>| #[trigger] suggestion_score(depth, count, lists, stop, successors@.len(), k) <= u64::MAX by {
            lemma_score_of_bounded(entries, k);
        }
        assert(is_top_ranking(entries, path_texts(v@), count, idx));
    }
    Some(v)
}

} // verus!
