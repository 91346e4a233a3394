use cdir::model::DataViewModel;
use cdir::store::Path;

fn history() -> Vec<Path> {
    // Visited in the order /5, /4, /3, /2, /1: the latest comes first.
    ["/1", "/2", "/3", "/4", "/5"]
        .iter()
        .enumerate()
        .map(|(i, p)| Path::new(i as i64 + 1, p.to_string(), 0, &[]))
        .collect()
}

#[test]
fn test_scroll() {
    let paths = history();
    let list = move |pos: usize, len: usize, _text: &str, _fuzzy: bool| -> Option<Vec<Path>> {
        let end = std::cmp::min(pos + len, paths.len());
        let start = std::cmp::min(pos, end);
        Some(paths[start..end].to_vec())
    };
    let mut model = DataViewModel::new(list, false);
    assert!(model.entries.is_none());

    model.update(0, 2, false);
    assert_eq!(model.first, 0);
    assert_eq!(model.entries.as_ref().unwrap().len(), 2);
    assert_eq!(model.entries.as_ref().unwrap()[0].path, "/1");
    assert_eq!(model.entries.as_ref().unwrap()[1].path, "/2");

    model.update(1, 2, false);
    assert_eq!(model.first, 1);
    assert_eq!(model.entries.as_ref().unwrap().len(), 2);
    assert_eq!(model.entries.as_ref().unwrap()[0].path, "/2");
    assert_eq!(model.entries.as_ref().unwrap()[1].path, "/3");

    model.update(2, 2, false);
    assert_eq!(model.first, 2);
    assert_eq!(model.entries.as_ref().unwrap().len(), 2);
    assert_eq!(model.entries.as_ref().unwrap()[0].path, "/3");
    assert_eq!(model.entries.as_ref().unwrap()[1].path, "/4");

    model.update(3, 2, false);
    assert_eq!(model.first, 3);
    assert_eq!(model.entries.as_ref().unwrap().len(), 2);
    assert_eq!(model.entries.as_ref().unwrap()[0].path, "/4");
    assert_eq!(model.entries.as_ref().unwrap()[1].path, "/5");

    // The model won't update as it would only remain ["/5"] which is a subset of the current view
    model.update(4, 2, false);
    assert_eq!(model.first, 3);
    assert_eq!(model.entries.as_ref().unwrap().len(), 2);
    assert_eq!(model.entries.as_ref().unwrap()[0].path, "/4");
    assert_eq!(model.entries.as_ref().unwrap()[1].path, "/5");

    // The model won't update as it would only remain []
    model.update(5, 2, false);
    assert_eq!(model.entries.as_ref().unwrap().len(), 2);
    assert_eq!(model.entries.as_ref().unwrap()[0].path, "/4");
    assert_eq!(model.entries.as_ref().unwrap()[1].path, "/5");

    // Scroll back to 2
    model.update(2, 2, false);
    assert_eq!(model.first, 2);
    assert_eq!(model.entries.as_ref().unwrap().len(), 2);
    assert_eq!(model.entries.as_ref().unwrap()[0].path, "/3");
    assert_eq!(model.entries.as_ref().unwrap()[1].path, "/4");

    // The model will update as ["/5"] is not a subset of the current view
    model.update(4, 2, false);
    assert_eq!(model.first, 4);
    assert_eq!(model.entries.as_ref().unwrap().len(), 1);
    assert_eq!(model.entries.as_ref().unwrap()[0].path, "/5");

    // The model won't update as it would only remain []
    model.update(5, 2, false);
    assert_eq!(model.first, 4);
    assert_eq!(model.entries.as_ref().unwrap().len(), 1);
    assert_eq!(model.entries.as_ref().unwrap()[0].path, "/5");
}

fn counting_model() -> DataViewModel<u32, impl Fn(usize, usize, &str, bool) -> Option<Vec<u32>>> {
    let list = |pos: usize, len: usize, text: &str, fuzzy: bool| -> Option<Vec<u32>> {
        if text == "fail" {
            return None;
        }
        let base: u32 = if fuzzy { 1000 } else { 0 };
        let end = std::cmp::min(pos + len, 8);
        Some((pos.min(end)..end).map(|i| base + i as u32).collect())
    };
    DataViewModel::new(list, false)
}

#[test]
fn model_narrows_a_covered_window_without_reading() {
    let mut model = counting_model();
    assert!(model.update(0, 4, false));
    assert!(!model.update(0, 2, false));
    assert_eq!(model.entries.as_ref().unwrap(), &vec![0, 1]);
    assert_eq!(model.length, 2);
}

#[test]
fn model_full_read_is_kept() {
    let mut model = counting_model();
    assert!(model.update(2, 3, false));
    assert!(model.is_a_subset_of(2, 3));
    assert!(!model.update(2, 3, false));
    assert_eq!(model.entries.as_ref().unwrap(), &vec![2, 3, 4]);
}

#[test]
fn model_forced_empty_read_clears() {
    let mut model = counting_model();
    model.update(6, 2, false);
    assert_eq!(model.first, 6);
    model.set_filter("x");
    assert!(!model.update(20, 2, false));
    assert_eq!(model.first, 6);
    assert!(model.update(20, 2, true));
    assert!(model.entries.is_none());
    assert_eq!(model.first, 0);
    assert_eq!(model.length, 0);
}

#[test]
fn model_search_change_reads_again() {
    let mut model = counting_model();
    model.update(0, 2, false);
    model.set_fuzzy_match(true);
    assert!(!model.is_a_subset_of(0, 2));
    assert!(model.update(0, 2, false));
    assert_eq!(model.entries.as_ref().unwrap(), &vec![1000, 1001]);
}

#[test]
fn model_keeps_window_on_error_and_reloads() {
    let mut model = counting_model();
    model.update(1, 3, false);
    model.set_filter("fail");
    assert!(!model.update(0, 3, true));
    assert_eq!(model.entries.as_ref().unwrap(), &vec![1, 2, 3]);
    model.reload();
    assert_eq!(model.entries.as_ref().unwrap(), &vec![1, 2, 3]);
    assert_eq!(model.length, 3);
}

#[test]
fn model_offset_moves_window() {
    let mut model = counting_model();
    model.update(2, 2, false);
    assert!(model.update_to_offset(3, 2));
    assert_eq!(model.first, 5);
    assert!(model.update_to_offset(-10, 2));
    assert_eq!(model.first, 0);
    assert_eq!(model.entries.as_ref().unwrap(), &vec![0, 1]);
}

#[test]
fn narrowing_to_a_later_start_keeps_the_held_entries() {
    let paths = history();
    let calls = std::rc::Rc::new(std::cell::Cell::new(0usize));
    let counter = calls.clone();
    let list = move |pos: usize, len: usize, _text: &str, _fuzzy: bool| -> Option<Vec<Path>> {
        counter.set(counter.get() + 1);
        let end = std::cmp::min(pos + len, paths.len());
        let start = std::cmp::min(pos, end);
        Some(paths[start..end].to_vec())
    };
    let mut model = DataViewModel::new(list, false);
    assert!(model.update(0, 5, false));
    assert_eq!(calls.get(), 1);
    assert!(!model.update(1, 2, false));
    assert_eq!(calls.get(), 1);
    assert_eq!(model.first, 1);
    assert_eq!(model.length, 2);
    let names: Vec<&str> = model.entries.as_ref().unwrap().iter().map(|p| p.path.as_str()).collect();
    assert_eq!(names, vec!["/2", "/3"]);
}
