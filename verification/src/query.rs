//! The SQL statements, and their parameters, that list one page of the
//! visited directories, of the history of visits, or of the shortcuts,
//! optionally filtered by a text.
use vstd::prelude::*;
use crate::ranking::texts;
use crate::store::Shortcut;
use crate::text::{contains, contains_text, decimal, lowercase, push_decimal, to_decimal, to_lowercase};
use vstd::string::*;

verus! {

/// The end of a statement that orders entries latest first and reads the
/// page whose size and offset are parameters `limit_idx` and `offset_idx`.
pub open spec fn latest_first_page(limit_idx: nat, offset_idx: nat) -> Seq<char> {
    " ORDER BY date desc, id desc LIMIT (?"@ + decimal(limit_idx) + ") OFFSET (?"@ + decimal(
        offset_idx,
    ) + ")"@
}

/// The name or the description of `s`, in lowercase, contains `needle`.
pub open spec fn shortcut_mentions(s: Shortcut, needle: Seq<char>) -> bool {
    contains_text(lowercase(s.name@), needle) || match s.description {
        Some(d) => contains_text(lowercase(d@), needle),
        None => false,
    }
}

/// The paths of the shortcuts that mention `needle`, in their order.
pub open spec fn mentioning_paths(shortcuts: Seq<Shortcut>, needle: Seq<char>) -> Seq<Seq<char>>
    decreases shortcuts.len(),
{
    if shortcuts.len() == 0 {
        Seq::empty()
    } else {
        let rest = mentioning_paths(shortcuts.drop_last(), needle);
        if shortcut_mentions(shortcuts.last(), needle) {
            rest.push(shortcuts.last().path@)
        } else {
            rest
        }
    }
}

/// The condition that a path is the shortcut path held by parameter `idx`
/// or lies below it.
pub open spec fn shortcut_alternative(idx: nat) -> Seq<char> {
    " OR path == (?"@ + decimal(idx) + ")"@ + " OR path LIKE (?"@ + decimal(idx)
        + ") || '/' || '%'"@
}

/// The conditions for the shortcut paths held by parameters 2 to `count + 1`.
pub open spec fn shortcut_alternatives(count: nat) -> Seq<char>
    decreases count,
{
    if count == 0 {
        Seq::empty()
    } else {
        shortcut_alternatives((count - 1) as nat) + shortcut_alternative(count + 1)
    }
}

/// The statement that lists visited directories, latest first: all of them
/// when `like` is empty; else those whose path contains `like`, and, when
/// shortcuts are included, those at or below one of `paths`.
pub open spec fn path_exact_sql(like: Seq<char>, paths: Seq<Seq<char>>, with_shortcuts: bool) -> Seq<
    char,
> {
    let base = "SELECT id, path, date FROM paths"@;
    if like.len() == 0 {
        base + " ORDER BY date desc, id desc LIMIT (?1) OFFSET (?2)"@
    } else if with_shortcuts {
        base + " WHERE (path LIKE '%' || (?1) || '%'"@ + shortcut_alternatives(paths.len()) + ")"@
            + latest_first_page(paths.len() + 2, paths.len() + 3)
    } else {
        base + " WHERE path LIKE '%' || (?1) || '%'"@ + latest_first_page(2, 3)
    }
}

/// The parameters of `path_exact_sql`, in order.
pub open spec fn path_exact_params(
    like: Seq<char>,
    paths: Seq<Seq<char>>,
    with_shortcuts: bool,
    pos: nat,
    len: nat,
) -> Seq<Seq<char>> {
    if like.len() == 0 {
        seq![decimal(len), decimal(pos)]
    } else if with_shortcuts {
        seq![like] + paths + seq![decimal(len), decimal(pos)]
    } else {
        seq![like, decimal(len), decimal(pos)]
    }
}

/// The statement that lists the history of visits, latest first, all of
/// them or those whose path contains the text of parameter 1.
pub open spec fn history_exact_sql(like: Seq<char>) -> Seq<char> {
    let base = "SELECT id, path, date FROM paths_history"@;
    if like.len() == 0 {
        base + " ORDER BY date desc, id desc LIMIT (?1) OFFSET (?2)"@
    } else {
        base + " WHERE path LIKE '%' || (?1) || '%'"@ + latest_first_page(2, 3)
    }
}

/// The statement that lists the shortcuts by name, all of them or those
/// whose path, name or description contains the text of parameter 1.
pub open spec fn shortcuts_exact_sql(like: Seq<char>) -> Seq<char> {
    let base = "SELECT id, name, path, description FROM shortcuts"@;
    if like.len() == 0 {
        base + " ORDER BY name asc, id desc LIMIT (?1) OFFSET (?2)"@
    } else {
        base
            + " WHERE path like '%' || (?1) || '%' OR name like '%' || (?1) || '%' OR description like '%' || (?1) || '%'"@
            + " ORDER BY name asc, id desc LIMIT (?2) OFFSET (?3)"@
    }
}

/// The parameters of `history_exact_sql` and `shortcuts_exact_sql`.
pub open spec fn filtered_params(like: Seq<char>, pos: nat, len: nat) -> Seq<Seq<char>> {
    if like.len() == 0 {
        seq![decimal(len), decimal(pos)]
    } else {
        seq![like, decimal(len), decimal(pos)]
    }
}

/// Whether the name or the description of `shortcut`, in lowercase,
/// contains `needle`.
fn mentions(shortcut: &Shortcut, needle: &str) -> (r: bool)
    ensures
        r == shortcut_mentions(*shortcut, needle@),
{
    let name = to_lowercase(shortcut.name.as_str());
    if contains(name.as_str(), needle) {
        return true;
    }
    match &shortcut.description {
        Some(d) => {
            let d = to_lowercase(d.as_str());
            contains(d.as_str(), needle)
        },
        None => false,
    }
}

/// Appends the end of a statement that orders latest first and reads the
/// page of parameters `limit_idx` and `offset_idx`.
fn push_latest_first_page(sql: &mut String, limit_idx: usize, offset_idx: usize)
    ensures
        final(sql)@ == old(sql)@ + latest_first_page(limit_idx as nat, offset_idx as nat),
{
    sql.append(" ORDER BY date desc, id desc LIMIT (?");
    push_decimal(sql, limit_idx);
    sql.append(") OFFSET (?");
    push_decimal(sql, offset_idx);
    sql.append(")");
    assert(final(sql)@ =~= old(sql)@ + latest_first_page(limit_idx as nat, offset_idx as nat));
}

/// The statement and parameters that list the page of visited directories
/// at `pos` of at most `len` entries, latest first, filtered by `like_text`
/// when it is not empty: directories whose path contains it, and, when
/// `include_shortcuts` is set, directories at or below a shortcut whose name
/// or description contains it, case ignored.
pub fn build_list_path_exact_sql_statement(
    pos: usize,
    len: usize,
    like_text: &str,
    shortcuts: &[Shortcut],
    include_shortcuts: bool,
) -> (r: (String, Vec<String>))
    requires
        shortcuts@.len() + 3 <= usize::MAX,
    ensures
        ({
            let paths = mentioning_paths(shortcuts@, lowercase(like_text@));
            &&& r.0@ == path_exact_sql(like_text@, paths, include_shortcuts)
            &&& texts(r.1@) == path_exact_params(
                like_text@,
                paths,
                include_shortcuts,
                pos as nat,
                len as nat,
            )
        }),
{
    let mut params: Vec<String> = Vec::new();
    let mut sql = "SELECT id, path, date FROM paths".to_owned();
    if !like_text.is_empty() {
        let like_lower = to_lowercase(like_text);
        if include_shortcuts {
            sql.append(" WHERE (path LIKE '%' || (?1) || '%'");
            params.push(like_text.to_owned());
            let ghost needle = like_lower@;
            let ghost head = sql@;
            let mut found: usize = 0;
            let mut i: usize = 0;
            while i < shortcuts.len()
                invariant
                    i <= shortcuts@.len(),
                    shortcuts@.len() + 3 <= usize::MAX,
                    found <= i,
                    needle == like_lower@,
                    mentioning_paths(shortcuts@.subrange(0, i as int), needle).len() == found,
                    sql@ == head + shortcut_alternatives(found as nat),
                    texts(params@) == seq![like_text@] + mentioning_paths(
                        shortcuts@.subrange(0, i as int),
                        needle,
                    ),
                decreases shortcuts@.len() - i,
            {
                let ghost prefix = shortcuts@.subrange(0, i + 1int);
                assert(prefix.drop_last() =~= shortcuts@.subrange(0, i as int));
                assert(prefix.last() == shortcuts@[i as int]);
                let shortcut = &shortcuts[i];
                if mentions(shortcut, like_lower.as_str()) {
                    let param_idx = found + 2;
                    sql.append(" OR path == (?");
                    push_decimal(&mut sql, param_idx);
                    sql.append(")");
                    sql.append(" OR path LIKE (?");
                    push_decimal(&mut sql, param_idx);
                    sql.append(") || '/' || '%'");
                    let path = shortcut.path.clone();
                    assert(path@ == shortcuts@[i as int].path@);
                    let ghost old_params = params@;
                    params.push(path);
                    proof {
                        assert(texts(params@) =~= texts(old_params).push(shortcuts@[i as int].path@));
                        assert(mentioning_paths(prefix, needle) == mentioning_paths(
                            shortcuts@.subrange(0, i as int),
                            needle,
                        ).push(shortcuts@[i as int].path@));
                        assert(sql@ =~= head + shortcut_alternatives((found + 1) as nat));
                        assert(texts(params@) =~= seq![like_text@] + mentioning_paths(
                            prefix,
                            needle,
                        ));
                    }
                    found = found + 1;
                }
                i = i + 1;
            }
            proof {
                assert(shortcuts@.subrange(0, shortcuts@.len() as int) =~= shortcuts@);
            }
            sql.append(")");
            push_latest_first_page(&mut sql, found + 2, found + 3);
        } else {
            sql.append(" WHERE path LIKE '%' || (?1) || '%'");
            params.push(like_text.to_owned());
            push_latest_first_page(&mut sql, 2, 3);
        }
    } else {
        sql.append(" ORDER BY date desc, id desc LIMIT (?1) OFFSET (?2)");
    }
    params.push(to_decimal(len));
    params.push(to_decimal(pos));
    proof {
        let paths = mentioning_paths(shortcuts@, lowercase(like_text@));
        assert(sql@ =~= path_exact_sql(like_text@, paths, include_shortcuts));
        assert(texts(params@) =~= path_exact_params(
            like_text@,
            paths,
            include_shortcuts,
            pos as nat,
            len as nat,
        ));
    }
    (sql, params)
}

/// The statement and parameters that list the page of the history of visits
/// at `pos` of at most `len` entries, latest first, filtered by `like_text`
/// when it is not empty.
pub fn list_path_history_exact_sql(pos: usize, len: usize, like_text: &str) -> (r: (
    String,
    Vec<String>,
))
    ensures
        r.0@ == history_exact_sql(like_text@),
        texts(r.1@) == filtered_params(like_text@, pos as nat, len as nat),
{
    let mut params: Vec<String> = Vec::new();
    let mut sql = "SELECT id, path, date FROM paths_history".to_owned();
    if !like_text.is_empty() {
        sql.append(" WHERE path LIKE '%' || (?1) || '%'");
        params.push(like_text.to_owned());
        push_latest_first_page(&mut sql, 2, 3);
    } else {
        sql.append(" ORDER BY date desc, id desc LIMIT (?1) OFFSET (?2)");
    }
    params.push(to_decimal(len));
    params.push(to_decimal(pos));
    assert(sql@ =~= history_exact_sql(like_text@));
    assert(texts(params@) =~= filtered_params(like_text@, pos as nat, len as nat));
    (sql, params)
}

/// The statement and parameters that list the page of shortcuts at `pos` of
/// at most `len` entries, by name, filtered by `like_text` when it is not
/// empty.
pub fn list_shortcuts_exact_sql(pos: usize, len: usize, like_text: &str) -> (r: (
    String,
    Vec<String>,
))
    ensures
        r.0@ == shortcuts_exact_sql(like_text@),
        texts(r.1@) == filtered_params(like_text@, pos as nat, len as nat),
{
    let mut params: Vec<String> = Vec::new();
    let mut sql = "SELECT id, name, path, description FROM shortcuts".to_owned();
    if !like_text.is_empty() {
        sql.append(
            " WHERE path like '%' || (?1) || '%' OR name like '%' || (?1) || '%' OR description like '%' || (?1) || '%'",
        );
        sql.append(" ORDER BY name asc, id desc LIMIT (?2) OFFSET (?3)");
        params.push(like_text.to_owned());
    } else {
        sql.append(" ORDER BY name asc, id desc LIMIT (?1) OFFSET (?2)");
    }
    params.push(to_decimal(len));
    params.push(to_decimal(pos));
    assert(sql@ =~= shortcuts_exact_sql(like_text@));
    assert(texts(params@) =~= filtered_params(like_text@, pos as nat, len as nat));
    (sql, params)
}

/// The name of `s`, or its description when it has one, contains `needle`
/// once lowercased.
pub open spec fn name_or_description_has(s: Shortcut, needle: Seq<char>) -> bool {
    ||| contains_text(lowercase(s.name@), needle)
    ||| (s.description matches Some(d) && contains_text(lowercase(d@), needle))
}

proof fn lemma_mentioning_paths(shortcuts: Seq<Shortcut>, needle: Seq<char>)
    ensures
        forall|i: int|
            0 <= i < shortcuts.len() && #[trigger] name_or_description_has(shortcuts[i], needle)
                ==> mentioning_paths(shortcuts, needle).contains(shortcuts[i].path@),
        forall|p: Seq<char>|
            #[trigger] mentioning_paths(shortcuts, needle).contains(p) ==> exists|i: int|
                0 <= i < shortcuts.len() && #[trigger] name_or_description_has(shortcuts[i], needle)
                    && shortcuts[i].path@ == p,
    decreases shortcuts.len(),
{
    if shortcuts.len() > 0 {
        let init = shortcuts.drop_last();
        let last = shortcuts.last();
        lemma_mentioning_paths(init, needle);
        let rest = mentioning_paths(init, needle);
        let all = mentioning_paths(shortcuts, needle);
        assert forall|i: int|
            0 <= i < shortcuts.len() && #[trigger] name_or_description_has(shortcuts[i], needle)
                implies all.contains(shortcuts[i].path@) by {
            if i < shortcuts.len() - 1 {
                assert(init[i] == shortcuts[i]);
                assert(name_or_description_has(init[i], needle));
                let k = choose|k: int| 0 <= k < rest.len() && rest[k] == init[i].path@;
                if shortcut_mentions(last, needle) {
                    assert(all[k] == rest[k]);
                }
            } else {
                assert(shortcuts[i] == last);
                assert(all[all.len() - 1] == last.path@);
            }
        }
        assert forall|p: Seq<char>| #[trigger] all.contains(p) implies exists|i: int|
            0 <= i < shortcuts.len() && #[trigger] name_or_description_has(shortcuts[i], needle)
                && shortcuts[i].path@ == p by {
            let k = choose|k: int| 0 <= k < all.len() && all[k] == p;
            if shortcut_mentions(last, needle) && k == all.len() - 1 {
                assert(name_or_description_has(shortcuts[shortcuts.len() - 1], needle));
            } else {
                assert(rest[k] == p);
                assert(rest.contains(p));
                let i = choose|i: int|
                    0 <= i < init.len() && #[trigger] name_or_description_has(init[i], needle)
                        && init[i].path@ == p;
                assert(shortcuts[i] == init[i]);
            }
        }
    }
}

/// A search that includes shortcuts hands the statement, as parameters, the
/// path of every shortcut whose name, or description when it has one,
/// contains the search text once both are lowercased; the paths it hands
/// over (`mentioning_paths`, between the text and the page numbers) are
/// all of such shortcuts.
pub proof fn law_search_takes_matching_shortcuts(
    like: Seq<char>,
    shortcuts: Seq<Shortcut>,
    pos: nat,
    len: nat,
)
    requires
        like.len() > 0,
    ensures
        forall|i: int|
            0 <= i < shortcuts.len() && #[trigger] name_or_description_has(
                shortcuts[i],
                lowercase(like),
            ) ==> path_exact_params(like, mentioning_paths(shortcuts, lowercase(like)), true, pos, len).contains(
                shortcuts[i].path@,
            ),
        forall|p: Seq<char>|
            #[trigger] mentioning_paths(shortcuts, lowercase(like)).contains(p) ==> exists|i: int|
                0 <= i < shortcuts.len() && #[trigger] name_or_description_has(
                    shortcuts[i],
                    lowercase(like),
                ) && shortcuts[i].path@ == p,
{
    lemma_mentioning_paths(shortcuts, lowercase(like));
    assert(path_exact_params(like, mentioning_paths(shortcuts, lowercase(like)), true, pos, len)
        == seq![like] + mentioning_paths(shortcuts, lowercase(like)) + seq![decimal(len), decimal(pos)]);
    assert forall|i: int|
        0 <= i < shortcuts.len() && #[trigger] name_or_description_has(shortcuts[i], lowercase(like))
            implies path_exact_params(like, mentioning_paths(shortcuts, lowercase(like)), true, pos, len).contains(
            shortcuts[i].path@,
        ) by {
        let paths = mentioning_paths(shortcuts, lowercase(like));
        let k = choose|k: int| 0 <= k < paths.len() && paths[k] == shortcuts[i].path@;
        assert(path_exact_params(like, paths, true, pos, len)[k + 1] == paths[k]);
    }
}

} // verus!
