use cdir::expimp::{dated_paths, exported_paths, exported_shortcuts, ExportedPath};
use cdir::store::{Path, Shortcut};

#[test]
fn import_keeps_entries_with_a_date() {
    let entries = vec![
        ExportedPath { date: "1000".to_string(), path: "/path/one".to_string() },
        ExportedPath { date: "soon".to_string(), path: "/bad".to_string() },
        ExportedPath { date: "2000".to_string(), path: "/path/two".to_string() },
        ExportedPath { date: "-5".to_string(), path: "/negative".to_string() },
    ];
    assert_eq!(
        dated_paths(&entries),
        vec![("/path/one".to_string(), 1000), ("/path/two".to_string(), 2000)]
    );
}

#[test]
fn export_then_import_paths() {
    let paths = vec![
        Path::new(1, "/path/one".to_string(), 1000, &[]),
        Path::new(2, "/path/two".to_string(), 2000, &[]),
    ];
    let exported = exported_paths(&paths);
    assert_eq!(exported[0], ExportedPath { date: "1000".to_string(), path: "/path/one".to_string() });
    assert_eq!(
        dated_paths(&exported),
        vec![("/path/one".to_string(), 1000), ("/path/two".to_string(), 2000)]
    );
}

#[test]
fn export_writes_negative_dates() {
    let paths = vec![Path::new(1, "/old".to_string(), -3, &[])];
    assert_eq!(exported_paths(&paths)[0].date, "-3");
    assert!(dated_paths(&exported_paths(&paths)).is_empty());
}

#[test]
fn export_shortcuts() {
    let shortcuts = vec![Shortcut {
        id: 4,
        name: "home".to_string(),
        path: "/home/user".to_string(),
        description: Some("Home directory".to_string()),
    }];
    let exported = exported_shortcuts(&shortcuts);
    assert_eq!(exported.len(), 1);
    assert_eq!(exported[0].name, "home");
    assert_eq!(exported[0].path, "/home/user");
    assert_eq!(exported[0].description, Some("Home directory".to_string()));
}
