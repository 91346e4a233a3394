//! What the import and export files hold: visited directories with their
//! date, and shortcuts.
use vstd::prelude::*;
use crate::store::{Path, Shortcut};
use crate::text::{law_decimal_round_trip, parse_decimal, parsed_decimal, signed_decimal, to_signed_decimal};

verus! {

/// A visited directory as the files hold it: the date, in seconds since the
/// epoch, as text.
#[derive(Debug, Clone, PartialEq, Eq)]
pub struct ExportedPath {
    pub date: String,
    pub path: String,
}

/// A shortcut as the files hold it.
#[derive(Debug, Clone, PartialEq, Eq)]
pub struct ExportedShortcut {
    pub name: String,
    pub path: String,
    pub description: Option<String>,
}

/// The date that an entry's text gives, when it is a number of seconds that
/// fits 64 bits.
pub open spec fn entry_date(date: Seq<char>) -> Option<u64> {
    match parsed_decimal(date) {
        Some(n) => if n <= u64::MAX {
            Some(n as u64)
        } else {
            None
        },
        None => None,
    }
}

/// The entries whose date reads as a number, in their order, each as its
/// path and date.
pub open spec fn dated(entries: Seq<ExportedPath>) -> Seq<(Seq<char>, u64)>
    decreases entries.len(),
{
    if entries.len() == 0 {
        Seq::empty()
    } else {
        let rest = dated(entries.drop_last());
        match entry_date(entries.last().date@) {
            Some(d) => rest.push((entries.last().path@, d)),
            None => rest,
        }
    }
}

/// The directories to import, each with its date: the entries whose date is
/// a number of seconds, in their order; the others are left out.
pub fn dated_paths(entries: &Vec<ExportedPath>) -> (r: Vec<(String, u64)>)
    ensures
        r@.map_values(|e: (String, u64)| (e.0@, e.1)) == dated(entries@),
{
    let mut r: Vec<(String, u64)> = Vec::new();
    let mut i: usize = 0;
    while i < entries.len()
        invariant
            i <= entries@.len(),
            r@.map_values(|e: (String, u64)| (e.0@, e.1)) == dated(entries@.subrange(0, i as int)),
        decreases entries@.len() - i,
    {
        let ghost prefix = entries@.subrange(0, i + 1int);
        assert(prefix.drop_last() =~= entries@.subrange(0, i as int));
        assert(prefix.last() == entries@[i as int]);
        let entry = &entries[i];
        match parse_decimal(entry.date.as_str(), u64::MAX) {
            Some(seconds) => {
                let ghost before = r@;
                r.push((entry.path.clone(), seconds));
                assert(r@.map_values(|e: (String, u64)| (e.0@, e.1)) =~= before.map_values(
                    |e: (String, u64)| (e.0@, e.1),
                ).push((entries@[i as int].path@, seconds)));
            },
            None => {},
        }
        i = i + 1;
    }
    assert(entries@.subrange(0, entries@.len() as int) =~= entries@);
    r
}

/// The entries to export for the visited directories: each date written in
/// decimal, each path as it is.
pub fn exported_paths(paths: &Vec<Path>) -> (r: Vec<ExportedPath>)
    ensures
        r@.len() == paths@.len(),
        forall|i: int|
            0 <= i < paths@.len() ==> (#[trigger] r@[i]).date@ == signed_decimal(
                paths@[i].date as int,
            ) && r@[i].path@ == paths@[i].path@,
{
    let mut r: Vec<ExportedPath> = Vec::new();
    let mut i: usize = 0;
    while i < paths.len()
        invariant
            i <= paths@.len(),
            r@.len() == i,
            forall|j: int|
                0 <= j < i ==> (#[trigger] r@[j]).date@ == signed_decimal(paths@[j].date as int)
                    && r@[j].path@ == paths@[j].path@,
        decreases paths@.len() - i,
    {
        let p = &paths[i];
        r.push(ExportedPath { date: to_signed_decimal(p.date), path: p.path.clone() });
        i = i + 1;
    }
    r
}

/// The entries to export for the shortcuts: their name, path and
/// description.
pub fn exported_shortcuts(shortcuts: &Vec<Shortcut>) -> (r: Vec<ExportedShortcut>)
    ensures
        r@.len() == shortcuts@.len(),
        forall|i: int|
            0 <= i < shortcuts@.len() ==> (#[trigger] r@[i]).name == shortcuts@[i].name
                && r@[i].path == shortcuts@[i].path && r@[i].description
                == shortcuts@[i].description,
{
    let mut r: Vec<ExportedShortcut> = Vec::new();
    let mut i: usize = 0;
    while i < shortcuts.len()
        invariant
            i <= shortcuts@.len(),
            r@.len() == i,
            forall|j: int|
                0 <= j < i ==> (#[trigger] r@[j]).name == shortcuts@[j].name && r@[j].path
                    == shortcuts@[j].path && r@[j].description == shortcuts@[j].description,
        decreases shortcuts@.len() - i,
    {
        let s = shortcuts[i].clone();
        r.push(ExportedShortcut { name: s.name, path: s.path, description: s.description });
        i = i + 1;
    }
    r
}


/// A date that export writes, import reads back, when it is not negative.
pub proof fn law_export_import_date(date: i64)
    requires
        date >= 0,
    ensures
        entry_date(signed_decimal(date as int)) == Some(date as u64),
{
    law_decimal_round_trip(date as nat);
}

/// Importing what export wrote for directories whose dates are not
/// negative gives back each directory with its date, in order.
pub proof fn law_export_then_import(paths: Seq<Path>, entries: Seq<ExportedPath>)
    requires
        entries.len() == paths.len(),
        forall|i: int|
            0 <= i < paths.len() ==> (#[trigger] entries[i]).date@ == signed_decimal(
                paths[i].date as int,
            ) && entries[i].path@ == paths[i].path@,
        forall|i: int| 0 <= i < paths.len() ==> (#[trigger] paths[i]).date >= 0,
    ensures
        dated(entries) == paths.map_values(|p: Path| (p.path@, p.date as u64)),
    decreases paths.len(),
{
    if paths.len() > 0 {
        let n = paths.len() - 1;
        assert(paths[n].date >= 0);
        assert(entries[n].date@ == signed_decimal(paths[n].date as int));
        law_export_then_import(paths.drop_last(), entries.drop_last());
        law_export_import_date(paths[n].date);
        assert(entries.last() == entries[n]);
        assert(paths.map_values(|p: Path| (p.path@, p.date as u64)) =~= paths.drop_last().map_values(
            |p: Path| (p.path@, p.date as u64),
        ).push((paths[n].path@, paths[n].date as u64)));
    } else {
        assert(paths.map_values(|p: Path| (p.path@, p.date as u64)) =~= Seq::<(Seq<char>, u64)>::empty());
    }
}

} // verus!
