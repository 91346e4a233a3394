use cdir::ranking::{smart_suggestions, SmartRanker};
use cdir::store::Shortcut;

#[test]
fn ranker_scores_by_distance_then_depth() {
    let mut r = SmartRanker::new(2, 3);
    // distance 0: 2^2 << 2 = 16, plus depth bonus 2 - 0 - 1 = 1
    r.add_path(0, "/a".to_string(), 0);
    // distance 2: 2^0 << 2 = 4, plus 1
    r.add_path(0, "/b".to_string(), 2);
    // a distance of the count or more is ignored
    r.add_path(0, "/c".to_string(), 3);
    assert_eq!(r.collect_rows(), vec!["/a".to_string(), "/b".to_string()]);
    // /b gains 16 + 0 at distance 0 of the second occurrence: 21 > 17
    r.add_path(1, "/b".to_string(), 0);
    assert_eq!(r.collect_rows(), vec!["/b".to_string(), "/a".to_string()]);
}

#[test]
fn ranker_keeps_the_count() {
    let mut r = SmartRanker::new(1, 2);
    r.add_path(0, "/x".to_string(), 0);
    r.add_path(0, "/y".to_string(), 1);
    r.add_path(0, "/y".to_string(), 1);
    r.add_path(0, "/y".to_string(), 1);
    let rows = r.collect_rows();
    assert_eq!(rows.len(), 2);
    assert_eq!(rows[0], "/y");
}

fn lists(v: &[&[&str]]) -> Vec<Vec<String>> {
    v.iter().map(|l| l.iter().map(|s| s.to_string()).collect()).collect()
}

#[test]
fn suggestions_follow_the_current_directory() {
    let shortcuts = vec![Shortcut {
        id: 1,
        name: "c".to_string(),
        path: "/c".to_string(),
        description: None,
    }];
    // First visit of /a (latest): /b then /c, then /a again; second: /c.
    let successors = lists(&[&["/b", "/c", "/a", "/d"], &["/c"]]);
    let rows = smart_suggestions("/a", 2, 3, &successors, &shortcuts).unwrap();
    let names: Vec<&str> = rows.iter().map(|p| p.path.as_str()).collect();
    // /c: 8 + 1 then 16 + 0 = 25; /b: 16 + 1 = 17; /d comes after /a again.
    assert_eq!(names, vec!["/c", "/b"]);
    assert!(rows.iter().all(|p| p.smart_path && p.id == 0 && p.date == 0));
    assert_eq!(rows[0].shortcut.as_ref().unwrap().name, "c");
    assert!(rows[1].shortcut.is_none());
}

#[test]
fn no_suggestions_without_a_directory() {
    let successors = lists(&[&["/b"]]);
    assert_eq!(smart_suggestions("", 2, 3, &successors, &[]).unwrap().len(), 0);
    assert_eq!(smart_suggestions("/a", 2, 3, &lists(&[]), &[]).unwrap().len(), 0);
}

#[test]
fn suggestion_scores_that_overflow_give_none() {
    // 64 places: the nearest weighs 2^63 << 2, which wraps to zero, the next
    // 2^62 << 2 = 0 too; those at 2^61 << 2 = 2^63 add up past u64::MAX.
    let list: Vec<String> = (0..64).map(|_| "/x".to_string()).collect();
    let successors = vec![list.clone(), list];
    assert!(smart_suggestions("/a", 2, 64, &successors, &[]).is_none());
    let single = vec![vec!["/x".to_string()]];
    assert!(smart_suggestions("/a", 1, 64, &single, &[]).is_some());
}

#[test]
fn ranker_scores_two_sightings() {
    let mut r = SmartRanker::new(5, 3);
    // (2^2 << 2) + (5 - 0 - 1) = 20
    r.add_path(0, "/a".to_string(), 0);
    assert_eq!(r.collect_rows(), vec!["/a".to_string()]);
    // 20 + (2^1 << 2) + (5 - 1 - 1) = 31, still one entry
    r.add_path(1, "/a".to_string(), 1);
    assert_eq!(r.collect_rows(), vec!["/a".to_string()]);
    r.add_path(2, "/b".to_string(), 0);
    // /b: 16 + 2 = 18 < 31
    assert_eq!(r.collect_rows(), vec!["/a".to_string(), "/b".to_string()]);
}

#[test]
fn suggestions_with_a_large_count_when_nothing_scores() {
    // No window holds a directory: the count is not limited.
    assert_eq!(smart_suggestions("/a", 2, 1000, &lists(&[]), &[]).unwrap().len(), 0);
    assert_eq!(smart_suggestions("/a", 2, 1000, &lists(&[&["/a", "/b"]]), &[]).unwrap().len(), 0);
    assert_eq!(smart_suggestions("", 2, 1000, &lists(&[&["/b"]]), &[]).unwrap().len(), 0);
}

#[test]
fn suggestions_are_distinct() {
    let successors = lists(&[&["/b", "/c", "/b"], &["/b", "/b"]]);
    let rows = smart_suggestions("/a", 2, 3, &successors, &[]).unwrap();
    let names: Vec<&str> = rows.iter().map(|p| p.path.as_str()).collect();
    assert_eq!(names, vec!["/b", "/c"]);
}
