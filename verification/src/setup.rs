//! The files that set up a new installation: the configuration and log
//! files filled in from their templates, and the shell file that puts the
//! program on the `PATH` and that the shell start-up files source.
use vstd::prelude::*;
use crate::text::{contains, contains_text, replace_all, replaced};

verus! {

/// A template with its placeholders filled in: `__CONFIG_PATH__` by the
/// configuration directory, then `__DATA_PATH__` by the data directory.
pub open spec fn filled(template: Seq<char>, config_dir: Seq<char>, data_dir: Seq<char>) -> Seq<
    char,
> {
    replaced(replaced(template, "__CONFIG_PATH__"@, config_dir), "__DATA_PATH__"@, data_dir)
}

/// Fills in the placeholders of a template.
pub fn fill_template(template: &str, config_dir: &str, data_dir: &str) -> (r: String)
    ensures
        r@ == filled(template@, config_dir@, data_dir@),
{
    proof {
        reveal_strlit("__CONFIG_PATH__");
        reveal_strlit("__DATA_PATH__");
    }
    let once = replace_all(template, "__CONFIG_PATH__", config_dir);
    replace_all(once.as_str(), "__DATA_PATH__", data_dir)
}

/// The shell file: a header, the directory of the program added to the
/// `PATH`, the configuration file exported when it is not the default one,
/// and the shell functions sourced.
pub open spec fn shell_file(bin_dir: Seq<char>, config_file: Option<Seq<char>>) -> Seq<char> {
    "# cdir shell configuration\n# Do not edit this file manually.\n"@ + "export PATH=\"$PATH:"@
        + bin_dir + "\"\n"@ + match config_file {
        Some(c) => "export CDIR_CONFIG="@ + c + "\n"@,
        None => Seq::empty(),
    } + "source cdir_funcs.sh\n"@
}

/// The text of the shell file, for the program in `bin_dir` and the
/// configuration file to export, if it is not the default one.
pub fn shell_file_text(bin_dir: &str, config_file: Option<&str>) -> (r: String)
    ensures
        r@ == shell_file(
            bin_dir@,
            match config_file {
                Some(c) => Some(c@),
                None => None,
            },
        ),
{
    let mut s = "# cdir shell configuration\n# Do not edit this file manually.\n".to_owned();
    s.append("export PATH=\"$PATH:");
    s.append(bin_dir);
    s.append("\"\n");
    let ghost head = s@;
    if let Some(c) = config_file {
        s.append("export CDIR_CONFIG=");
        s.append(c);
        s.append("\n");
    }
    let ghost middle = s@;
    s.append("source cdir_funcs.sh\n");
    proof {
        let exported = match config_file {
            Some(c) => "export CDIR_CONFIG="@ + c@ + "\n"@,
            None => Seq::<char>::empty(),
        };
        assert(middle =~= head + exported);
        assert(s@ =~= shell_file(
            bin_dir@,
            match config_file {
                Some(c) => Some(c@),
                None => None,
            },
        ));
    }
    s
}

/// The line that sources the shell file at `path`.
pub open spec fn source_line_of(path: Seq<char>) -> Seq<char> {
    "source "@ + path + "\n"@
}

/// The line that sources the shell file at `path`.
pub fn source_line(path: &str) -> (r: String)
    ensures
        r@ == source_line_of(path@),
{
    let mut s = "source ".to_owned();
    s.append(path);
    s.append("\n");
    s
}

/// Whether a shell start-up file gets `line` appended: it exists (its text
/// is `rc_content`) and does not hold the line yet.
pub fn needs_source_line(rc_content: Option<&str>, line: &str) -> (r: bool)
    ensures
        r == match rc_content {
            Some(c) => !contains_text(c@, line@),
            None => false,
        },
{
    match rc_content {
        Some(c) => !contains(c, line),
        None => false,
    }
}

/// Once a start-up file holds the line, it needs it no more: appending the
/// line is done at most once.
pub proof fn law_source_line_added_once(content: Seq<char>, line: Seq<char>)
    ensures
        contains_text(content + line, line),
{
    assert((content + line).subrange(content.len() as int, (content.len() + line.len()) as int) =~= line);
    assert(crate::text::occurs_at(content + line, line, content.len() as int));
}

} // verus!
