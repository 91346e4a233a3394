use cdir::setup::{fill_template, needs_source_line, shell_file_text, source_line};
use cdir::text::replace_all;

#[test]
fn templates_are_filled_in() {
    let t = "db: __DATA_PATH__/cdir.db\nlog: __CONFIG_PATH__/log4rs.yaml\nthemes: __CONFIG_PATH__/themes\n";
    assert_eq!(
        fill_template(t, "/home/u/.config/cdir", "/home/u/.local/share/cdir"),
        "db: /home/u/.local/share/cdir/cdir.db\nlog: /home/u/.config/cdir/log4rs.yaml\nthemes: /home/u/.config/cdir/themes\n"
    );
}

#[test]
fn replace_all_agrees_with_str_replace() {
    for (s, p, b) in [("aaaa", "aa", "b"), ("abcabc", "bc", ""), ("xyz", "q", "r"), ("", "a", "b"), ("ééa", "é", "e")] {
        assert_eq!(replace_all(s, p, b), s.replace(p, b));
    }
}

#[test]
fn shell_file_exports_a_config_that_is_not_the_default() {
    assert_eq!(
        shell_file_text("/opt/cdir/bin", None),
        "# cdir shell configuration\n# Do not edit this file manually.\nexport PATH=\"$PATH:/opt/cdir/bin\"\nsource cdir_funcs.sh\n"
    );
    assert_eq!(
        shell_file_text("/opt/cdir/bin", Some("/tmp/c.yaml")),
        "# cdir shell configuration\n# Do not edit this file manually.\nexport PATH=\"$PATH:/opt/cdir/bin\"\nexport CDIR_CONFIG=/tmp/c.yaml\nsource cdir_funcs.sh\n"
    );
}

#[test]
fn source_line_is_added_once_and_only_to_existing_files() {
    let line = source_line("/home/u/.cdirsh");
    assert_eq!(line, "source /home/u/.cdirsh\n");
    assert!(needs_source_line(Some("alias ll='ls -l'\n"), &line));
    let after = format!("alias ll='ls -l'\n{}", line);
    assert!(!needs_source_line(Some(&after), &line));
    assert!(!needs_source_line(None, &line));
}
