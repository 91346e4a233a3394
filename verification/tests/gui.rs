use cdir::display::{line_text, reduce_path, shorten_path, Segment};
use cdir::store::{Path, Shortcut};

fn shortcut(id: i64, name: &str, path: &str) -> Shortcut {
    Shortcut { id, name: name.to_string(), path: path.to_string(), description: None }
}

fn text(line: &[Segment]) -> String {
    line_text(line)
}

fn docs() -> Vec<Shortcut> {
    vec![shortcut(1, "docs", "/home/user/docs")]
}

fn docs_and_work() -> Vec<Shortcut> {
    vec![shortcut(1, "docs", "/home/user/docs"), shortcut(2, "work", "/home/user/docs/work")]
}

const HOME: &str = "/home/testuser";

#[test]
fn gui_test_shorten_path_basic() {
    let shortcuts = docs();
    let result = shorten_path(&shortcuts, "/home/user/docs/project", 80, true);
    assert!(result.is_some());
    assert_eq!(text(&result.unwrap()), "[docs]/project");
}

#[test]
fn gui_test_shorten_path_no_match() {
    let shortcuts = docs();
    let result = shorten_path(&shortcuts, "/home/user/other/project", 80, true);
    assert!(result.is_none());
}

#[test]
fn gui_test_shorten_path_exact_match() {
    let shortcuts = docs_and_work();
    let path = Path::new(1, "/home/user/docs/work".to_string(), 0, &shortcuts);
    let result = shorten_path(&shortcuts, &path.path, 80, true);
    assert!(result.is_some());
    assert_eq!(text(&result.unwrap()), "[work]");
}

#[test]
fn gui_test_shorten_path_longest_match() {
    let shortcuts = docs_and_work();
    let result = shorten_path(&shortcuts, "/home/user/docs/work/project", 80, true);
    assert!(result.is_some());
    assert_eq!(text(&result.unwrap()), "[work]/project");
}

#[test]
fn gui_test_shorten_path_limited_size() {
    let shortcuts = docs();
    let path = "/home/user/docs/project";
    let expected = [
        (14, "[docs]/project"),
        (13, "[docs]/*oject"),
        (9, "[docs]/*t"),
        (8, "[docs]/*"),
        (7, "[docs]*"),
        (6, "*"),
    ];
    for (size, want) in expected {
        let result = shorten_path(&shortcuts, path, size, true);
        assert!(result.is_some());
        assert_eq!(text(&result.unwrap()), want);
    }
}

#[test]
fn gui_test_reduce_path_home_replacement() {
    let path = format!("{}/project", HOME);
    let line = reduce_path(&path, 80, Some(HOME));
    assert_eq!(text(&line), "~/project");
}

#[test]
fn gui_test_reduce_path_exact_home() {
    let line = reduce_path(HOME, 80, Some(HOME));
    assert_eq!(text(&line), "~");
}

#[test]
fn gui_test_reduce_path_no_home_match() {
    let line = reduce_path("/other/path/project", 80, Some(HOME));
    assert_eq!(text(&line), "/other/path/project");
}

#[test]
fn gui_test_reduce_path_with_home_limited_size() {
    let path = format!("{}/project", HOME);
    assert_eq!(text(&reduce_path(&path, 9, Some(HOME))), "~/project");
    assert_eq!(text(&reduce_path(&path, 8, Some(HOME))), "~/*oject");
    assert_eq!(text(&reduce_path(&path, 4, Some(HOME))), "~/*t");
    assert_eq!(text(&reduce_path(&path, 3, Some(HOME))), "~/*");
    assert_eq!(text(&reduce_path(&path, 2, Some(HOME))), "~*");
    assert_eq!(text(&reduce_path(&path, 1, Some(HOME))), "*");
}

#[test]
fn gui_test_reduce_path_with_home_exact_limited_size() {
    assert_eq!(text(&reduce_path(HOME, 2, Some(HOME))), "~");
    assert_eq!(text(&reduce_path(HOME, 1, Some(HOME))), "~");
}

#[test]
fn gui_test_reduce_path_without_home_limited_size() {
    let path = "/other/path/project";
    assert_eq!(text(&reduce_path(path, 19, Some(HOME))), "/other/path/project");
    assert_eq!(text(&reduce_path(path, 18, Some(HOME))), "*ther/path/project");
}

#[test]
fn gui_tests_test_shorten_path_basic() {
    let shortcuts = docs();
    let result = shorten_path(&shortcuts, "/home/user/docs/project", 80, false);
    assert!(result.is_some());
    assert_eq!(text(&result.unwrap()), "[docs]/project");
}

#[test]
fn gui_tests_test_shorten_path_no_match() {
    let shortcuts = docs();
    let result = shorten_path(&shortcuts, "/home/user/other/project", 80, false);
    assert!(result.is_none());
}

#[test]
fn gui_tests_test_shorten_path_exact_match() {
    let shortcuts = docs_and_work();
    let path = Path::new(1, "/home/user/docs/work".to_string(), 0, &shortcuts);
    let result = shorten_path(&shortcuts, &path.path, 80, true);
    assert!(result.is_some());
    assert_eq!(text(&result.unwrap()), "[work]");
}

#[test]
fn gui_tests_test_shorten_path_longest_match() {
    let shortcuts = docs_and_work();
    let result = shorten_path(&shortcuts, "/home/user/docs/work/project", 80, false);
    assert!(result.is_some());
    assert_eq!(text(&result.unwrap()), "[work]/project");
}

#[test]
fn gui_tests_test_shorten_path_limited_size() {
    let shortcuts = docs();
    let path = "/home/user/docs/project";
    let expected = [
        (14, "[docs]/project"),
        (13, "[docs]/*oject"),
        (9, "[docs]/*t"),
        (8, "[docs]/*"),
        (7, "[docs]*"),
        (6, "*"),
    ];
    for (size, want) in expected {
        let result = shorten_path(&shortcuts, path, size, false);
        assert!(result.is_some());
        assert_eq!(text(&result.unwrap()), want);
    }
}

#[test]
fn gui_tests_test_reduce_path_home_replacement() {
    let path = format!("{}/project", HOME);
    let line = reduce_path(&path, 80, Some(HOME));
    assert_eq!(text(&line), "~/project");
}

#[test]
fn gui_tests_test_reduce_path_exact_home() {
    let line = reduce_path(HOME, 80, Some(HOME));
    assert_eq!(text(&line), "~");
}

#[test]
fn gui_tests_test_reduce_path_no_home_match() {
    let line = reduce_path("/other/path/project", 80, Some(HOME));
    assert_eq!(text(&line), "/other/path/project");
}

#[test]
fn gui_tests_test_reduce_path_with_home_limited_size() {
    let path = format!("{}/project", HOME);
    assert_eq!(text(&reduce_path(&path, 9, Some(HOME))), "~/project");
    assert_eq!(text(&reduce_path(&path, 8, Some(HOME))), "~/*oject");
    assert_eq!(text(&reduce_path(&path, 4, Some(HOME))), "~/*t");
    assert_eq!(text(&reduce_path(&path, 3, Some(HOME))), "~/*");
    assert_eq!(text(&reduce_path(&path, 2, Some(HOME))), "~*");
    assert_eq!(text(&reduce_path(&path, 1, Some(HOME))), "*");
}

#[test]
fn gui_tests_test_reduce_path_with_home_exact_limited_size() {
    assert_eq!(text(&reduce_path(HOME, 2, Some(HOME))), "~");
    assert_eq!(text(&reduce_path(HOME, 1, Some(HOME))), "~");
}

#[test]
fn gui_tests_test_reduce_path_without_home_limited_size() {
    let path = "/other/path/project";
    assert_eq!(text(&reduce_path(path, 19, Some(HOME))), "/other/path/project");
    assert_eq!(text(&reduce_path(path, 18, Some(HOME))), "*ther/path/project");
}
