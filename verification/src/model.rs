//! The window of entries that a table shows: which entries were read, from
//! which place, with which search, and when they must be read again.
use vstd::prelude::*;
use crate::text::str_eq;

verus! {

/// The window as the entries it holds, the place of the first one, how many
/// there are, the search they were read with, and the search for the next
/// read.
pub ghost struct ModelView<T> {
    pub entries: Option<Seq<T>>,
    pub first: nat,
    pub length: nat,
    pub filter: Seq<char>,
    pub loaded_fuzzy: bool,
    pub search: Seq<char>,
    pub fuzzy: bool,
}

/// The entries held cover the `length` entries from place `first`, read with
/// the current search.
pub open spec fn covers<T>(m: ModelView<T>, first: nat, length: nat) -> bool {
    &&& m.entries is Some
    &&& first >= m.first
    &&& first + length <= m.first + m.length
    &&& m.filter == m.search
    &&& m.loaded_fuzzy == m.fuzzy
}

/// The state that `update` leaves, from `o`, when asked for `length` entries
/// from `first` and the list function answered `res` (`None` for an error).
pub open spec fn updated<T>(
    o: ModelView<T>,
    n: ModelView<T>,
    changed: bool,
    first: nat,
    length: nat,
    force: bool,
    res: Option<Seq<T>>,
) -> bool {
    match res {
        None => !changed && n == o,
        Some(v) => if v.len() != length && covers(o, first, v.len()) {
            !changed && n == o
        } else if v.len() > 0 {
            &&& changed
            &&& n == ModelView {
                entries: Some(v),
                first,
                length: v.len(),
                filter: o.search,
                loaded_fuzzy: o.fuzzy,
                ..o
            }
        } else if force {
            &&& changed
            &&& n == ModelView { entries: None, first: 0, length: 0, ..o }
        } else {
            !changed && n == o
        },
    }
}

/// A page as its entries.
pub open spec fn page_view<T>(page: Option<Vec<T>>) -> Option<Seq<T>> {
    match page {
        Some(v) => Some(v@),
        None => None,
    }
}

/// The place `offset` places from `first`, or the first place.
pub open spec fn moved(first: int, offset: int) -> nat {
    if first + offset < 0 {
        0
    } else {
        (first + offset) as nat
    }
}

/// The window over the entries that a list function gives, page by page.
pub struct DataViewModel<T, F> {
    pub entries: Option<Vec<T>>,
    pub list_fn: F,
    pub first: usize,
    pub length: u16,
    /// The search the entries were read with.
    pub filter: String,
    pub loaded_fuzzy: bool,
    /// The search for the next read.
    pub search: String,
    pub fuzzy_match: bool,
}

impl<T, F> View for DataViewModel<T, F> {
    type V = ModelView<T>;

    open spec fn view(&self) -> ModelView<T> {
        ModelView {
            entries: match self.entries {
                Some(v) => Some(v@),
                None => None,
            },
            first: self.first as nat,
            length: self.length as nat,
            filter: self.filter@,
            loaded_fuzzy: self.loaded_fuzzy,
            search: self.search@,
            fuzzy: self.fuzzy_match,
        }
    }
}

/// `f` can always be called, and answers a page of at most the entries
/// asked for.
pub open spec fn pages<T, F: Fn(usize, usize, &str, bool) -> Option<Vec<T>>>(f: F) -> bool {
    &&& forall|first: usize, len: usize, text: &str, fuzzy: bool|
        #[trigger] f.requires((first, len, text, fuzzy))
    &&& forall|first: usize, len: usize, text: &str, fuzzy: bool, res: Option<Vec<T>>|
        #[trigger] f.ensures((first, len, text, fuzzy), res) ==> (res matches Some(v) ==> v@.len()
            <= len)
}

impl<T: Clone, F: Fn(usize, usize, &str, bool) -> Option<Vec<T>>> DataViewModel<T, F> {
    /// The list function may answer `res` when asked for `len` entries from
    /// `first` with the search `text`.
    pub open spec fn lists(
        &self,
        first: nat,
        len: nat,
        text: Seq<char>,
        fuzzy: bool,
        res: Option<Seq<T>>,
    ) -> bool {
        exists|a: &str, r: Option<Vec<T>>|
            a@ == text && #[trigger] self.list_fn.ensures((first as usize, len as usize, a, fuzzy), r)
                && res == page_view(r)
    }

    /// What `update` leaves, from this window, when asked for `length`
    /// entries from `first`: the window narrowed when it covers them, else
    /// the outcome of what the list function answered.
    pub open spec fn refreshed(
        &self,
        after: ModelView<T>,
        changed: bool,
        first: nat,
        length: nat,
        force: bool,
    ) -> bool {
        if covers(self@, first, length) {
            !changed && after == ModelView {
                entries: Some(
                    self@.entries->0.subrange(
                        first - self@.first,
                        first - self@.first + length,
                    ),
                ),
                first,
                length,
                ..self@
            }
        } else {
            exists|res: Option<Seq<T>>|
                #[trigger] self.lists(first, length, self@.search, self@.fuzzy, res) && updated(
                    self@,
                    after,
                    changed,
                    first,
                    length,
                    force,
                    res,
                )
        }
    }

    /// The list function answers pages, and the window holds as many entries
    /// as it says, none when it holds nothing.
    pub open spec fn well_formed(&self) -> bool {
        &&& pages(self.list_fn)
        &&& match self.entries {
            Some(v) => v@.len() == self.length,
            None => self.length == 0,
        }
    }

    /// An empty window over `list_fn`, searching for nothing yet.
    pub fn new(list_fn: F, fuzzy_match: bool) -> (r: Self)
        requires
            pages(list_fn),
        ensures
            r.well_formed(),
            r@ == (ModelView::<T> {
                entries: None,
                first: 0,
                length: 0,
                filter: Seq::empty(),
                loaded_fuzzy: fuzzy_match,
                search: Seq::empty(),
                fuzzy: fuzzy_match,
            }),
    {
        let r = DataViewModel {
            entries: None,
            list_fn,
            first: 0,
            length: 0,
            filter: String::new(),
            loaded_fuzzy: fuzzy_match,
            search: String::new(),
            fuzzy_match,
        };
        assert(r@.filter =~= Seq::<char>::empty());
        assert(r@.search =~= Seq::<char>::empty());
        r
    }

    /// The search that the next read uses.
    pub fn set_filter(&mut self, text: &str)
        requires
            old(self).well_formed(),
        ensures
            final(self).well_formed(),
            final(self)@ == (ModelView { search: text@, ..old(self)@ }),
    {
        self.search = text.to_owned();
    }

    /// The matching mode that the next read uses.
    pub fn set_fuzzy_match(&mut self, fuzzy_match: bool)
        requires
            old(self).well_formed(),
        ensures
            final(self).well_formed(),
            final(self)@ == (ModelView { fuzzy: fuzzy_match, ..old(self)@ }),
    {
        self.fuzzy_match = fuzzy_match;
    }

    /// Whether the entries held cover the `length` entries from `first`,
    /// read with the current search.
    pub fn is_a_subset_of(&self, first: usize, length: u16) -> (r: bool)
        requires
            self.well_formed(),
        ensures
            r == covers(self@, first as nat, length as nat),
    {
        self.entries.is_some() && first >= self.first && first - self.first <= self.length as usize
            && first - self.first + length as usize <= self.length as usize && str_eq(
            self.filter.as_str(),
            self.search.as_str(),
        ) && self.loaded_fuzzy == self.fuzzy_match
    }

    /// Narrows the window to `length` entries from `first` when it covers
    /// them. Returns whether it did.
    fn update_into_subset(&mut self, first: usize, length: u16) -> (r: bool)
        requires
            old(self).well_formed(),
        ensures
            final(self).well_formed(),
            r == covers(old(self)@, first as nat, length as nat),
            r ==> final(self)@ == (ModelView {
                entries: Some(
                    old(self)@.entries->0.subrange(
                        first - old(self)@.first,
                        first - old(self)@.first + length,
                    ),
                ),
                first: first as nat,
                length: length as nat,
                ..old(self)@
            }),
            !r ==> *final(self) == *old(self),
            final(self).list_fn == old(self).list_fn,
    {
        if !self.is_a_subset_of(first, length) {
            return false;
        }
        let held = self.entries.take();
        if let Some(mut v) = held {
            let ghost held_view = v@;
            let mut tail = v.split_off(first - self.first);
            tail.truncate(length as usize);
            proof {
                let off = first - old(self)@.first;
                assert(tail@ =~= held_view.subrange(off, off + length));
            }
            self.entries = Some(tail);
        }
        self.first = first;
        self.length = length;
        proof {
            assert(self@.filter == old(self)@.filter);
        }
        true
    }

    /// Shows `length` entries from place `first`: narrows the window when it
    /// covers them, else reads them with the current search. A read that
    /// gives fewer entries than asked for, all of them already held, changes
    /// nothing (a scroll past the end); one that gives none empties the
    /// window only when `force` is set. Returns whether the entries changed.
    pub fn update(&mut self, first: usize, length: u16, force: bool) -> (changed: bool)
        requires
            old(self).well_formed(),
        ensures
            final(self).well_formed(),
            old(self).refreshed(final(self)@, changed, first as nat, length as nat, force),
    {
        if self.update_into_subset(first, length) {
            return false;
        }
        let ghost o = self@;
        let answer = (self.list_fn)(first, length as usize, self.search.as_str(), self.fuzzy_match);
        let ghost res = page_view(answer);
        proof {
            assert(self.lists(first as nat, length as nat, o.search, o.fuzzy, res));
        }
        match answer {
            Some(new_entries) => {
                let new_length = new_entries.len();
                if new_length != length as usize {
                    if self.is_a_subset_of(first, new_length as u16) {
                        return false;
                    }
                }
                if new_length > 0 {
                    self.entries = Some(new_entries);
                    self.first = first;
                    self.length = new_length as u16;
                    self.filter = self.search.clone();
                    self.loaded_fuzzy = self.fuzzy_match;
                    proof {
                        assert(self@ == ModelView {
                            entries: res,
                            first: first as nat,
                            length: res->0.len(),
                            filter: o.search,
                            loaded_fuzzy: o.fuzzy,
                            ..o
                        });
                    }
                    true
                } else if force {
                    self.entries = None;
                    self.first = 0;
                    self.length = 0;
                    true
                } else {
                    false
                }
            },
            None => false,
        }
    }

    /// Moves the window by `offset` places (not before the first entry) and
    /// shows `length` entries from there, without emptying it when nothing
    /// is found.
    pub fn update_to_offset(&mut self, offset: i64, length: u16) -> (changed: bool)
        requires
            old(self).well_formed(),
            old(self)@.first <= i64::MAX,
            old(self)@.first + offset <= i64::MAX,
            old(self)@.first + offset <= usize::MAX,
        ensures
            final(self).well_formed(),
            old(self).refreshed(
                final(self)@,
                changed,
                moved(old(self)@.first as int, offset as int),
                length as nat,
                false,
            ),
    {
        let shifted: i64 = self.first as i64 + offset;
        let first: usize = if shifted < 0 {
            0
        } else {
            shifted as usize
        };
        assert(first == moved(old(self)@.first as int, offset as int));
        self.update(first, length, false)
    }

    /// Reads the window again, from the same place, with as many entries as
    /// it holds and the search they were read with; empties it when nothing
    /// is found, keeps it on an error.
    pub fn reload(&mut self)
        requires
            old(self).well_formed(),
        ensures
            final(self).well_formed(),
            exists|res: Option<Seq<T>>|
                #[trigger] old(self).lists(
                    old(self)@.first,
                    old(self)@.length,
                    old(self)@.filter,
                    old(self)@.loaded_fuzzy,
                    res,
                ) && final(self)@ == match res {
                    None => old(self)@,
                    Some(v) => if v.len() > 0 {
                        ModelView { entries: Some(v), length: v.len(), ..old(self)@ }
                    } else {
                        ModelView { entries: None, length: 0, ..old(self)@ }
                    },
                },
    {
        let ghost o = self@;
        let answer = (self.list_fn)(
            self.first,
            self.length as usize,
            self.filter.as_str(),
            self.loaded_fuzzy,
        );
        let ghost res = page_view(answer);
        proof {
            assert(self.lists(o.first, o.length, o.filter, o.loaded_fuzzy, res));
        }
        match answer {
            Some(new_entries) => {
                let new_length = new_entries.len();
                if new_length > 0 {
                    self.entries = Some(new_entries);
                    self.length = new_length as u16;
                } else {
                    self.entries = None;
                    self.length = 0;
                }
            },
            None => {},
        }
    }
}


/// After a read that filled the window, asking for the same entries again
/// is answered from the window, without reading.
pub proof fn law_full_read_is_kept<T>(
    before: ModelView<T>,
    after: ModelView<T>,
    first: nat,
    length: nat,
    force: bool,
    page: Seq<T>,
)
    requires
        length > 0,
        page.len() == length,
        updated(before, after, true, first, length, force, Some(page)),
    ensures
        covers(after, first, length),
        after.entries == Some(page),
{
}

} // verus!
