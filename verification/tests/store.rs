use cdir::display::{line_text, path_cell};
use cdir::store::{
    list_path_fuzzy, list_shortcuts_fuzzy, path_with_shortcut_text, score_path_for_fuzzy_search,
    shortcut_search_text, smart_page, Path, Shortcut,
};

fn shortcut(id: i64, name: &str, path: &str, description: Option<&str>) -> Shortcut {
    Shortcut {
        id,
        name: name.to_string(),
        path: path.to_string(),
        description: description.map(|d| d.to_string()),
    }
}

#[test]
fn subpath_rules() {
    assert!(Path::is_subpath("/home/user", "/home/user"));
    assert!(Path::is_subpath("/home/user", "/home/user/docs"));
    assert!(!Path::is_subpath("/home/user", "/home/username"));
    assert!(!Path::is_subpath("/home/user/docs", "/home/user"));
}

#[test]
fn path_takes_the_longest_covering_shortcut() {
    let shortcuts = vec![
        shortcut(1, "docs", "/home/user/docs", None),
        shortcut(2, "work", "/home/user/docs/work", None),
        shortcut(3, "other", "/srv", None),
    ];
    let p = Path::new(7, "/home/user/docs/work/x".to_string(), 42, &shortcuts);
    assert_eq!(p.id, 7);
    assert_eq!(p.date, 42);
    assert!(!p.smart_path);
    assert_eq!(p.shortcut.as_ref().unwrap().name, "work");
    let p = Path::new(8, "/home/user/docs/a".to_string(), 0, &shortcuts);
    assert_eq!(p.shortcut.as_ref().unwrap().name, "docs");
    let p = Path::new(9, "/tmp".to_string(), 0, &shortcuts);
    assert!(p.shortcut.is_none());
}

#[test]
fn assign_keeps_a_longer_shortcut() {
    let long = vec![shortcut(2, "work", "/home/user/docs/work", None)];
    let short = vec![shortcut(1, "docs", "/home/user/docs", None)];
    let mut p = Path::new(1, "/home/user/docs/work/x".to_string(), 0, &long);
    p.assign_shortcut(&short);
    assert_eq!(p.shortcut.as_ref().unwrap().name, "work");
}

#[test]
fn equal_length_shortcuts_keep_the_first() {
    let shortcuts = vec![
        shortcut(1, "first", "/home/user", None),
        shortcut(2, "second", "/home/user", None),
    ];
    let p = Path::new(1, "/home/user/x".to_string(), 0, &shortcuts);
    assert_eq!(p.shortcut.as_ref().unwrap().name, "first");
}

fn smart(paths: &[&str]) -> Vec<Path> {
    paths.iter().map(|p| {
        let mut path = Path::new(0, p.to_string(), 0, &[]);
        path.smart_path = true;
        path
    }).collect()
}

#[test]
fn smart_page_puts_the_best_suggestion_last() {
    let rows = smart(&["/best", "/second", "/third"]);
    let (kept, pos, len) = smart_page(rows, 0, 10);
    let names: Vec<&str> = kept.iter().map(|p| p.path.as_str()).collect();
    assert_eq!(names, vec!["/third", "/second", "/best"]);
    assert_eq!((pos, len), (0, 7));
}

#[test]
fn smart_page_skips_into_the_suggestions() {
    let rows = smart(&["/best", "/second", "/third"]);
    let (kept, pos, len) = smart_page(rows, 2, 10);
    assert_eq!(kept.len(), 1);
    assert_eq!(kept[0].path, "/best");
    assert_eq!((pos, len), (0, 9));
}

#[test]
fn smart_page_past_the_suggestions() {
    let rows = smart(&["/best", "/second"]);
    let (kept, pos, len) = smart_page(rows, 5, 4);
    assert!(kept.is_empty());
    assert_eq!((pos, len), (3, 4));
    let (kept, pos, len) = smart_page(Vec::new(), 5, 4);
    assert!(kept.is_empty());
    assert_eq!((pos, len), (5, 4));
}

#[test]
fn smart_page_caps_the_suggestions_at_the_page_length() {
    let rows = smart(&["/best", "/second", "/third"]);
    let (kept, pos, len) = smart_page(rows, 0, 2);
    let names: Vec<&str> = kept.iter().map(|p| p.path.as_str()).collect();
    assert_eq!(names, vec!["/third", "/second"]);
    assert_eq!((pos, len), (0, 0));
}

#[test]
fn search_texts() {
    let s = shortcut(1, "docs", "/home/user/docs", Some("my documents"));
    assert_eq!(shortcut_search_text(&s), "docs /home/user/docs my documents");
    assert_eq!(path_with_shortcut_text("/home/user/docs/x", &s), "/home/user/docs/x docs my documents");
    let s = shortcut(1, "docs", "/home/user/docs", None);
    assert_eq!(shortcut_search_text(&s), "docs /home/user/docs");
}

fn history() -> Vec<Path> {
    ["/srv/project", "/srv/other", "/home/user/proj", "/tmp"]
        .iter()
        .enumerate()
        .map(|(i, p)| Path::new(i as i64, p.to_string(), 0, &[]))
        .collect()
}

#[test]
fn fuzzy_paths_keep_only_matches() {
    let rows = history();
    let found = list_path_fuzzy(&rows, 0, 10, "proj", &[], false);
    let mut names: Vec<&str> = found.iter().map(|p| p.path.as_str()).collect();
    names.sort();
    assert_eq!(names, vec!["/home/user/proj", "/srv/project"]);
    assert!(list_path_fuzzy(&rows, 0, 10, "zzzq", &[], false).is_empty());
}

#[test]
fn fuzzy_paths_page() {
    let rows = history();
    let all = list_path_fuzzy(&rows, 0, 10, "proj", &[], false);
    let first = list_path_fuzzy(&rows, 0, 1, "proj", &[], false);
    let second = list_path_fuzzy(&rows, 1, 1, "proj", &[], false);
    assert_eq!(first.len(), 1);
    assert_eq!(second.len(), 1);
    assert_eq!(first[0].path, all[0].path);
    assert_eq!(second[0].path, all[1].path);
    assert!(list_path_fuzzy(&rows, 2, 1, "proj", &[], false).is_empty());
}

#[test]
fn fuzzy_paths_through_shortcut_names() {
    let rows = history();
    let shortcuts = vec![shortcut(1, "garden", "/srv", Some("flowers"))];
    assert!(list_path_fuzzy(&rows, 0, 10, "garden", &shortcuts, false).is_empty());
    let found = list_path_fuzzy(&rows, 0, 10, "garden", &shortcuts, true);
    let mut names: Vec<&str> = found.iter().map(|p| p.path.as_str()).collect();
    names.sort();
    assert_eq!(names, vec!["/srv/other", "/srv/project"]);
    let mut matcher_row = rows[3].clone();
    matcher_row.path = "/tmp".to_string();
    assert!(list_path_fuzzy(&[matcher_row], 0, 10, "garden", &shortcuts, true).is_empty());
}

#[test]
fn fuzzy_score_is_given_for_a_match() {
    let rows = history();
    let found = list_path_fuzzy(&rows, 0, 10, "tmp", &[], false);
    assert_eq!(found.len(), 1);
    assert_eq!(found[0].path, "/tmp");
    let _ = score_path_for_fuzzy_search;
}

#[test]
fn fuzzy_shortcuts() {
    let rows = vec![
        shortcut(1, "docs", "/home/user/docs", Some("documents")),
        shortcut(2, "music", "/home/user/music", None),
    ];
    let found = list_shortcuts_fuzzy(&rows, 0, 10, "music");
    assert_eq!(found.len(), 1);
    assert_eq!(found[0].name, "music");
    let found = list_shortcuts_fuzzy(&rows, 0, 10, "documents");
    assert_eq!(found.len(), 1);
    assert_eq!(found[0].name, "docs");
    assert!(list_shortcuts_fuzzy(&rows, 1, 10, "documents").is_empty());
}

#[test]
fn path_cells() {
    let shortcuts = vec![shortcut(1, "docs", "/home/user/docs", None)];
    let through = path_cell(&shortcuts, "/home/user/docs/x", 80, false, true, Some("/home/user"));
    assert_eq!(line_text(&through), "[docs]/x");
    let plain = path_cell(&shortcuts, "/home/user/docs/x", 80, false, false, Some("/home/user"));
    assert_eq!(line_text(&plain), "~/docs/x");
    let exact = path_cell(&shortcuts, "/home/user/docs", 80, false, true, None);
    assert_eq!(line_text(&exact), "/home/user/docs");
    let exact = path_cell(&shortcuts, "/home/user/docs", 80, true, true, None);
    assert_eq!(line_text(&exact), "[docs]");
}
