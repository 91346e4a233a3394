//! The indicator beside the search field: it reads `no entry` when the list
//! of its kind of objects is empty.
use vstd::prelude::*;
use crate::text::str_eq;

verus! {

/// Which objects the indicator follows and whether their list is empty.
#[derive(Debug)]
pub struct ListIndicatorState {
    pub objects_type: String,
    pub is_empty: bool,
}

impl ListIndicatorState {
    /// An indicator for `objects_type`, with a list not known to be empty.
    pub fn new(objects_type: String) -> (r: ListIndicatorState)
        ensures
            r.objects_type == objects_type,
            !r.is_empty,
    {
        Self { objects_type, is_empty: false }
    }

    /// Takes in a report on the list of `objects_type`: the indicator follows
    /// it only when it is about its own kind of objects.
    pub fn apply_data_state(&mut self, objects_type: &str, is_empty: bool)
        ensures
            final(self).objects_type == old(self).objects_type,
            final(self).is_empty == if objects_type@ == old(self).objects_type@ {
                is_empty
            } else {
                old(self).is_empty
            },
    {
        if str_eq(self.objects_type.as_str(), objects_type) {
            self.is_empty = is_empty;
        }
    }
}

} // verus!
