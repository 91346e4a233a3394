use cdir::query::{
    build_list_path_exact_sql_statement, list_path_history_exact_sql, list_shortcuts_exact_sql,
};
use cdir::store::Shortcut;

fn shortcut(name: &str, path: &str, description: Option<&str>) -> Shortcut {
    Shortcut {
        id: 0,
        name: name.to_string(),
        path: path.to_string(),
        description: description.map(|d| d.to_string()),
    }
}

#[test]
fn path_sql_without_filter() {
    let (sql, params) = build_list_path_exact_sql_statement(20, 10, "", &[], true);
    assert_eq!(sql, "SELECT id, path, date FROM paths ORDER BY date desc, id desc LIMIT (?1) OFFSET (?2)");
    assert_eq!(params, vec!["10".to_string(), "20".to_string()]);
}

#[test]
fn path_sql_with_filter_only() {
    let shortcuts = vec![shortcut("Docs", "/home/docs", None)];
    let (sql, params) = build_list_path_exact_sql_statement(0, 5, "doc", &shortcuts, false);
    assert_eq!(
        sql,
        "SELECT id, path, date FROM paths WHERE path LIKE '%' || (?1) || '%' ORDER BY date desc, id desc LIMIT (?2) OFFSET (?3)"
    );
    assert_eq!(params, vec!["doc".to_string(), "5".to_string(), "0".to_string()]);
}

#[test]
fn path_sql_with_shortcuts_case_ignored() {
    let shortcuts = vec![
        shortcut("Docs", "/home/docs", None),
        shortcut("music", "/home/music", Some("my DOCuments of songs")),
        shortcut("work", "/srv/work", Some("job")),
    ];
    let (sql, params) = build_list_path_exact_sql_statement(3, 7, "DoC", &shortcuts, true);
    assert_eq!(
        sql,
        "SELECT id, path, date FROM paths WHERE (path LIKE '%' || (?1) || '%' OR path == (?2) OR path LIKE (?2) || '/' || '%' OR path == (?3) OR path LIKE (?3) || '/' || '%') ORDER BY date desc, id desc LIMIT (?4) OFFSET (?5)"
    );
    assert_eq!(
        params,
        vec![
            "DoC".to_string(),
            "/home/docs".to_string(),
            "/home/music".to_string(),
            "7".to_string(),
            "3".to_string()
        ]
    );
}

#[test]
fn path_sql_with_shortcuts_none_matching() {
    let shortcuts = vec![shortcut("work", "/srv/work", None)];
    let (sql, params) = build_list_path_exact_sql_statement(0, 100, "zz", &shortcuts, true);
    assert_eq!(
        sql,
        "SELECT id, path, date FROM paths WHERE (path LIKE '%' || (?1) || '%') ORDER BY date desc, id desc LIMIT (?2) OFFSET (?3)"
    );
    assert_eq!(params, vec!["zz".to_string(), "100".to_string(), "0".to_string()]);
}

#[test]
fn history_sql() {
    let (sql, params) = list_path_history_exact_sql(1, 2, "");
    assert_eq!(sql, "SELECT id, path, date FROM paths_history ORDER BY date desc, id desc LIMIT (?1) OFFSET (?2)");
    assert_eq!(params, vec!["2".to_string(), "1".to_string()]);
    let (sql, params) = list_path_history_exact_sql(1, 2, "x");
    assert_eq!(
        sql,
        "SELECT id, path, date FROM paths_history WHERE path LIKE '%' || (?1) || '%' ORDER BY date desc, id desc LIMIT (?2) OFFSET (?3)"
    );
    assert_eq!(params, vec!["x".to_string(), "2".to_string(), "1".to_string()]);
}

#[test]
fn shortcuts_sql() {
    let (sql, params) = list_shortcuts_exact_sql(0, 12, "");
    assert_eq!(sql, "SELECT id, name, path, description FROM shortcuts ORDER BY name asc, id desc LIMIT (?1) OFFSET (?2)");
    assert_eq!(params, vec!["12".to_string(), "0".to_string()]);
    let (sql, params) = list_shortcuts_exact_sql(4, 12, "abc");
    assert_eq!(
        sql,
        "SELECT id, name, path, description FROM shortcuts WHERE path like '%' || (?1) || '%' OR name like '%' || (?1) || '%' OR description like '%' || (?1) || '%' ORDER BY name asc, id desc LIMIT (?2) OFFSET (?3)"
    );
    assert_eq!(params, vec!["abc".to_string(), "12".to_string(), "4".to_string()]);
}
