//! How paths are shown in a column of limited width: the home directory
//! becomes `~`, the longest matching shortcut becomes `[name]`, and a path
//! that does not fit keeps its end behind a leading `*`.
use vstd::prelude::*;
use vstd::string::*;
use vstd::utf8::is_char_boundary;
use crate::store::{covers, shortcut_len, spec_is_subpath, Path, Shortcut};
use crate::text::{
    is_byte_prefix, lemma_prefix_is_char_boundary, lemma_utf8_ascii_char, lemma_utf8_concat,
    same_bytes, starts_with_bytes, suffix_from, utf8,
};

verus! {

/// How a piece of a displayed path is styled.
#[derive(Debug, Clone, Copy, PartialEq, Eq, Structural)]
pub enum SegmentStyle {
    /// The style of the whole line.
    Plain,
    /// The shortcut name style.
    ShortcutName,
    /// The style of the `~` that stands for the home directory.
    HomeTilde,
}

/// A piece of text with its style.
#[derive(Debug)]
pub struct Segment {
    pub text: String,
    pub style: SegmentStyle,
}

/// A segment as bytes and style.
pub open spec fn seg_view(s: Segment) -> (Seq<u8>, SegmentStyle) {
    (utf8(s.text@), s.style)
}

/// A line of segments as bytes and styles.
pub open spec fn line_view(line: Seq<Segment>) -> Seq<(Seq<u8>, SegmentStyle)> {
    line.map_values(|s: Segment| seg_view(s))
}

/// The bytes of a line once its segments are written one after the other.
pub open spec fn line_bytes(v: Seq<(Seq<u8>, SegmentStyle)>) -> Seq<u8>
    decreases v.len(),
{
    if v.len() == 0 {
        Seq::empty()
    } else {
        line_bytes(v.drop_last()) + v.last().0
    }
}

/// The characters of a line once its segments are written one after the other.
pub open spec fn line_chars(line: Seq<Segment>) -> Seq<char>
    decreases line.len(),
{
    if line.len() == 0 {
        Seq::empty()
    } else {
        line_chars(line.drop_last()) + line.last().text@
    }
}

pub open spec fn star() -> Seq<u8> {
    seq![42u8]
}

pub open spec fn tilde() -> Seq<u8> {
    seq![126u8]
}

pub open spec fn slash() -> Seq<u8> {
    seq![47u8]
}

pub open spec fn open_bracket() -> Seq<u8> {
    seq![91u8]
}

pub open spec fn close_bracket() -> Seq<u8> {
    seq![93u8]
}

/// The last `n` bytes of `s`.
pub open spec fn last_bytes(s: Seq<u8>, n: int) -> Seq<u8> {
    s.subrange(s.len() - n, s.len() as int)
}

/// `path` cut to `size` bytes: unchanged when it fits, else `*` followed by
/// its last `size - 1` bytes.
pub open spec fn spec_reduce_string(path: Seq<u8>, size: int) -> Seq<(Seq<u8>, SegmentStyle)> {
    if path.len() <= size {
        seq![(path, SegmentStyle::Plain)]
    } else {
        seq![(star() + last_bytes(path, size - 1), SegmentStyle::Plain)]
    }
}

/// Where `reduce_string` cuts `path`, when it cuts it.
pub open spec fn reduce_string_cut(path: Seq<u8>, size: int) -> int {
    path.len() - (size - 1)
}

/// `reduce_string` can cut `path` there without splitting a character.
pub open spec fn reduce_string_defined(path: Seq<u8>, size: int) -> bool {
    path.len() > size ==> is_char_boundary(path, reduce_string_cut(path, size))
}

/// A path in or below `home` (and not `home` itself) shown from `~` in `size` bytes.
pub open spec fn spec_do_reduce_path(path: Seq<u8>, home: Seq<u8>, size: int) -> Seq<
    (Seq<u8>, SegmentStyle),
> {
    if path == home {
        seq![(tilde(), SegmentStyle::HomeTilde)]
    } else if size == 1 {
        seq![(star(), SegmentStyle::Plain)]
    } else if size == 2 {
        seq![(tilde(), SegmentStyle::HomeTilde), (star(), SegmentStyle::Plain)]
    } else if size == 3 {
        seq![(tilde(), SegmentStyle::HomeTilde), (slash() + star(), SegmentStyle::Plain)]
    } else {
        let suffix = path.subrange(home.len() + 1int, path.len() as int);
        let remaining = size - 2;
        if suffix.len() > remaining {
            seq![
                (tilde(), SegmentStyle::HomeTilde),
                (slash(), SegmentStyle::Plain),
                (star() + last_bytes(suffix, remaining - 1), SegmentStyle::Plain),
            ]
        } else {
            seq![
                (tilde(), SegmentStyle::HomeTilde),
                (path.subrange(home.len() as int, path.len() as int), SegmentStyle::Plain),
            ]
        }
    }
}

/// Where `do_reduce_path` cuts `path`, when it cuts it.
pub open spec fn reduce_home_cut(path: Seq<u8>, home: Seq<u8>, size: int) -> int {
    path.len() - (size - 2) + 1
}

/// `do_reduce_path` can cut `path` there without splitting a character.
pub open spec fn reduce_home_defined(path: Seq<u8>, home: Seq<u8>, size: int) -> bool {
    (path != home && size >= 4 && path.len() - (home.len() + 1) > size - 2) ==> is_char_boundary(
        path,
        reduce_home_cut(path, home, size),
    )
}

/// `path` is `home` or lies below it.
pub open spec fn is_home_path(path: Seq<u8>, home: Seq<u8>) -> bool {
    path == home || is_byte_prefix(home + slash(), path)
}

/// What `reduce_path` shows for `path` in `size` bytes, with `home` the home
/// directory when it is known.
pub open spec fn spec_reduce_path(path: Seq<u8>, size: int, home: Option<Seq<u8>>) -> Seq<
    (Seq<u8>, SegmentStyle),
> {
    if size == 0 {
        Seq::empty()
    } else {
        match home {
            Some(h) => if is_home_path(path, h) {
                spec_do_reduce_path(path, h, size)
            } else {
                spec_reduce_string(path, size)
            },
            None => spec_reduce_string(path, size),
        }
    }
}

/// The inputs on which `reduce_path` cuts no character in two.
pub open spec fn reduce_path_defined(path: Seq<u8>, size: int, home: Option<Seq<u8>>) -> bool {
    size == 0 || match home {
        Some(h) => if is_home_path(path, h) {
            reduce_home_defined(path, h, size)
        } else {
            reduce_string_defined(path, size)
        },
        None => reduce_string_defined(path, size),
    }
}

/// The bytes of the home directory, when it is known.
pub open spec fn home_bytes(home: Option<&str>) -> Option<Seq<u8>> {
    match home {
        Some(h) => Some(utf8(h@)),
        None => None,
    }
}

/// A string made of an ASCII literal.
fn literal(s: &str) -> (r: String)
    ensures
        r@ == s@,
{
    String::from_str(s)
}

fn segment(text: String, style: SegmentStyle) -> (r: Segment)
    ensures
        r.text == text,
        r.style == style,
{
    Segment { text, style }
}

fn star_segment() -> (r: Segment)
    ensures
        seg_view(r) == (star(), SegmentStyle::Plain),
{
    let text = literal("*");
    proof {
        reveal_strlit("*");
        assert(text@ =~= seq!['*']);
        lemma_utf8_ascii_char('*');
        assert(('*' as u8) == 42u8);
    }
    segment(text, SegmentStyle::Plain)
}

fn tilde_segment() -> (r: Segment)
    ensures
        seg_view(r) == (tilde(), SegmentStyle::HomeTilde),
{
    let text = literal("~");
    proof {
        reveal_strlit("~");
        assert(text@ =~= seq!['~']);
        lemma_utf8_ascii_char('~');
        assert(('~' as u8) == 126u8);
    }
    segment(text, SegmentStyle::HomeTilde)
}

fn slash_segment() -> (r: Segment)
    ensures
        seg_view(r) == (slash(), SegmentStyle::Plain),
{
    let text = literal("/");
    proof {
        reveal_strlit("/");
        assert(text@ =~= seq!['/']);
        lemma_utf8_ascii_char('/');
        assert(('/' as u8) == 47u8);
    }
    segment(text, SegmentStyle::Plain)
}

/// `*` followed by the bytes of `s` from position `from` on.
fn starred_suffix(s: &str, from: usize) -> (r: Segment)
    requires
        from <= utf8(s@).len(),
        is_char_boundary(utf8(s@), from as int),
    ensures
        seg_view(r) == (
            star() + utf8(s@).subrange(from as int, utf8(s@).len() as int),
            SegmentStyle::Plain,
        ),
{
    let mut text = literal("*");
    let tail = suffix_from(s, from);
    proof {
        reveal_strlit("*");
        assert(text@ =~= seq!['*']);
        lemma_utf8_ascii_char('*');
        assert(('*' as u8) == 42u8);
    }
    let ghost before = text@;
    text.append(tail.as_str());
    proof {
        lemma_utf8_concat(before, tail@);
    }
    segment(text, SegmentStyle::Plain)
}

/// Shows `path` in `size` bytes: whole when it fits, else `*` and its end.
pub fn reduce_string(path: &str, size: usize) -> (r: Vec<Segment>)
    requires
        size >= 1 || utf8(path@).len() <= size,
        reduce_string_defined(utf8(path@), size as int),
    ensures
        line_view(r@) == spec_reduce_string(utf8(path@), size as int),
{
    let mut line: Vec<Segment> = Vec::new();
    if path.as_bytes().len() <= size {
        line.push(segment(path.to_owned(), SegmentStyle::Plain));
    } else {
        let remaining_size = size - 1;
        line.push(starred_suffix(path, path.as_bytes().len() - remaining_size));
    }
    assert(line_view(line@) =~= spec_reduce_string(utf8(path@), size as int));
    line
}


/// Whether the bytes `p` start with those of `dir` followed by a separator.
fn is_below(p: &[u8], dir: &[u8]) -> (r: bool)
    ensures
        r == is_byte_prefix(dir@ + slash(), p@),
{
    let r = starts_with_bytes(p, dir) && p.len() > dir.len() && p[dir.len()] == 47u8;
    proof {
        let d = dir@ + slash();
        if r {
            assert(p@.subrange(0, d.len() as int) =~= d);
        } else if is_byte_prefix(d, p@) {
            assert(p@.subrange(0, dir@.len() as int) =~= p@.subrange(0, d.len() as int).subrange(
                0,
                dir@.len() as int,
            ));
            assert(p@.subrange(0, dir@.len() as int) =~= dir@);
            assert(p@[dir@.len() as int] == p@.subrange(0, d.len() as int)[dir@.len() as int]);
        }
    }
    r
}

/// The bytes of `dir` followed by a separator are those of `dir + "/"`.
proof fn lemma_dir_slash(dir: Seq<char>)
    ensures
        utf8(dir + seq!['/']) == utf8(dir) + slash(),
{
    lemma_utf8_concat(dir, seq!['/']);
    lemma_utf8_ascii_char('/');
    assert(('/' as u8) == 47u8);
}

/// Shows a path that is `home` or lies below it, from `~`, in `size` bytes.
fn do_reduce_path(path: &str, home: &str, size: usize) -> (r: Vec<Segment>)
    requires
        size >= 1,
        is_home_path(utf8(path@), utf8(home@)),
        reduce_home_defined(utf8(path@), utf8(home@), size as int),
    ensures
        line_view(r@) == spec_do_reduce_path(utf8(path@), utf8(home@), size as int),
{
    let ghost p = utf8(path@);
    let ghost h = utf8(home@);
    let mut line: Vec<Segment> = Vec::new();
    let pb = path.as_bytes();
    let hb = home.as_bytes();
    if same_bytes(pb, hb) {
        line.push(tilde_segment());
        assert(line_view(line@) =~= spec_do_reduce_path(p, h, size as int));
        return line;
    }
    proof {
        assert(is_byte_prefix(h + slash(), p));
    }
    if size == 1 {
        line.push(star_segment());
    } else if size == 2 {
        line.push(tilde_segment());
        line.push(star_segment());
    } else if size == 3 {
        line.push(tilde_segment());
        let mut text = literal("/*");
        proof {
            reveal_strlit("/*");
            assert(text@ =~= seq!['/'] + seq!['*']);
            lemma_utf8_concat(seq!['/'], seq!['*']);
            lemma_utf8_ascii_char('/');
            lemma_utf8_ascii_char('*');
            assert(('/' as u8) == 47u8);
            assert(('*' as u8) == 42u8);
            assert(slash() + star() =~= seq![47u8, 42u8]);
        }
        line.push(segment(text, SegmentStyle::Plain));
    } else {
        let hl = hb.len();
        let pl = pb.len();
        assert(hl < pl);
        let start = hl + 1;
        let suffix_len = pl - start;
        let remaining_size = size - 2;
        if suffix_len > remaining_size {
            let cut = start + (suffix_len - remaining_size + 1);
            line.push(tilde_segment());
            line.push(slash_segment());
            line.push(starred_suffix(path, cut));
            proof {
                let suffix = p.subrange(h.len() + 1int, p.len() as int);
                assert(last_bytes(suffix, remaining_size - 1) =~= p.subrange(
                    cut as int,
                    p.len() as int,
                ));
            }
        } else {
            proof {
                assert(is_byte_prefix(h, p)) by {
                    assert(p.subrange(0, h.len() as int) =~= p.subrange(
                        0,
                        h.len() + 1int,
                    ).subrange(0, h.len() as int));
                    assert((h + slash()).subrange(0, h.len() as int) =~= h);
                }
                lemma_prefix_is_char_boundary(path@, home@);
            }
            line.push(tilde_segment());
            line.push(segment(suffix_from(path, hb.len()), SegmentStyle::Plain));
        }
    }
    assert(line_view(line@) =~= spec_do_reduce_path(p, h, size as int));
    line
}

/// Shows `path` in `size` bytes. A path that is the home directory, or lies
/// below it, starts with `~`; a path that does not fit keeps its end behind
/// a `*`.
pub fn reduce_path(path: &str, size: u16, home: Option<&str>) -> (r: Vec<Segment>)
    requires
        reduce_path_defined(utf8(path@), size as int, home_bytes(home)),
    ensures
        line_view(r@) == spec_reduce_path(utf8(path@), size as int, home_bytes(home)),
{
    if size == 0 {
        let line: Vec<Segment> = Vec::new();
        assert(line_view(line@) =~= Seq::empty());
        return line;
    }
    match home {
        Some(h) => {
            let pb = path.as_bytes();
            let hb = h.as_bytes();
            if is_below(pb, hb) || same_bytes(pb, hb) {
                do_reduce_path(path, h, size as usize)
            } else {
                reduce_string(path, size as usize)
            }
        },
        None => reduce_string(path, size as usize),
    }
}


/// `[name]` in the shortcut name style.
pub open spec fn bracketed(name: Seq<u8>) -> Seq<(Seq<u8>, SegmentStyle)> {
    seq![
        (open_bracket(), SegmentStyle::ShortcutName),
        (name, SegmentStyle::ShortcutName),
        (close_bracket(), SegmentStyle::ShortcutName),
    ]
}

/// A path covered by the shortcut whose path is `base` and name `name`, shown
/// as `[name]` and the rest of the path, in `size` bytes.
pub open spec fn spec_do_shorten_path(path: Seq<u8>, base: Seq<u8>, name: Seq<u8>, size: int) -> Seq<
    (Seq<u8>, SegmentStyle),
> {
    if name.len() + 3 == size {
        bracketed(name).push((star(), SegmentStyle::Plain))
    } else if name.len() + 3 > size {
        seq![(star(), SegmentStyle::Plain)]
    } else if path == base {
        bracketed(name)
    } else {
        let remaining = size - (name.len() + 3);
        let suffix = path.subrange(base.len() + 1int, path.len() as int);
        if suffix.len() > remaining {
            bracketed(name) + seq![
                (slash(), SegmentStyle::Plain),
                (star() + last_bytes(suffix, remaining - 1), SegmentStyle::Plain),
            ]
        } else {
            bracketed(name) + seq![(slash(), SegmentStyle::Plain), (suffix, SegmentStyle::Plain)]
        }
    }
}

/// `do_shorten_path` cuts no character in two.
pub open spec fn shorten_defined(path: Seq<u8>, base: Seq<u8>, name: Seq<u8>, size: int) -> bool {
    let remaining = size - (name.len() + 3);
    (remaining > 0 && path != base && path.len() - (base.len() + 1) > remaining)
        ==> is_char_boundary(path, path.len() - remaining + 1)
}

/// The shortcut at `i` may stand for `path`: it covers it, its path is not
/// empty, and it is not `path` itself unless exact matches are allowed.
pub open spec fn eligible(shortcuts: Seq<Shortcut>, i: int, path: Seq<u8>, allow_exact: bool) -> bool {
    &&& covers(shortcuts, i, path)
    &&& shortcut_len(shortcuts[i]) > 0
    &&& (allow_exact || utf8(shortcuts[i].path@) != path)
}

/// No eligible shortcut before `k` is as long as `k`.
pub open spec fn leads(shortcuts: Seq<Shortcut>, k: int, path: Seq<u8>, allow_exact: bool) -> bool {
    forall|j: int|
        0 <= j < k && #[trigger] eligible(shortcuts, j, path, allow_exact) ==> shortcut_len(
            shortcuts[j],
        ) < shortcut_len(shortcuts[k])
}

/// `k` is the first of the longest eligible shortcuts.
pub open spec fn is_best_eligible(shortcuts: Seq<Shortcut>, k: int, path: Seq<u8>, allow_exact: bool) -> bool {
    &&& 0 <= k < shortcuts.len()
    &&& eligible(shortcuts, k, path, allow_exact)
    &&& leads(shortcuts, k, path, allow_exact)
    &&& forall|j: int|
        0 <= j < shortcuts.len() && #[trigger] eligible(shortcuts, j, path, allow_exact)
            ==> shortcut_len(shortcuts[j]) <= shortcut_len(shortcuts[k])
}

/// `path` shown through shortcut `s` in `size` bytes.
pub open spec fn shorten_with(path: Seq<u8>, s: Shortcut, size: int) -> Seq<(Seq<u8>, SegmentStyle)> {
    spec_do_shorten_path(path, utf8(s.path@), utf8(s.name@), size)
}

/// What `shorten_path` returns: `path` shown through the first of the longest
/// eligible shortcuts, or nothing when none is eligible or `size` is zero.
pub open spec fn spec_shorten_path(
    shortcuts: Seq<Shortcut>,
    path: Seq<u8>,
    size: int,
    allow_exact: bool,
) -> Option<Seq<(Seq<u8>, SegmentStyle)>> {
    if size != 0 && exists|k: int| is_best_eligible(shortcuts, k, path, allow_exact) {
        let k = choose|k: int| is_best_eligible(shortcuts, k, path, allow_exact);
        Some(shorten_with(path, shortcuts[k], size))
    } else {
        None
    }
}

/// Every shortcut that `shorten_path` tries on the way can show `path`
/// without cutting a character in two.
pub open spec fn shorten_path_defined(
    shortcuts: Seq<Shortcut>,
    path: Seq<u8>,
    size: int,
    allow_exact: bool,
) -> bool {
    size == 0 || forall|i: int|
        0 <= i < shortcuts.len() && #[trigger] eligible(shortcuts, i, path, allow_exact) && leads(
            shortcuts,
            i,
            path,
            allow_exact,
        ) ==> shorten_defined(path, utf8(shortcuts[i].path@), utf8(shortcuts[i].name@), size)
}

fn ascii_segment(s: &str, style: SegmentStyle) -> (r: Segment)
    requires
        s@.len() == 1,
        (s@[0] as u32) <= 0x7f,
    ensures
        seg_view(r) == (seq![s@[0] as u8], style),
{
    let text = literal(s);
    proof {
        assert(text@ =~= seq![s@[0]]);
        lemma_utf8_ascii_char(s@[0]);
    }
    segment(text, style)
}

fn push_bracketed(line: &mut Vec<Segment>, name: &str)
    ensures
        line_view(final(line)@) == line_view(old(line)@) + bracketed(utf8(name@)),
{
    proof {
        reveal_strlit("[");
        reveal_strlit("]");
        assert(('[' as u8) == 91u8);
        assert((']' as u8) == 93u8);
    }
    line.push(ascii_segment("[", SegmentStyle::ShortcutName));
    line.push(segment(name.to_owned(), SegmentStyle::ShortcutName));
    line.push(ascii_segment("]", SegmentStyle::ShortcutName));
    assert(line_view(line@) =~= line_view(old(line)@) + bracketed(utf8(name@)));
}

/// Shows a path covered by `shortcut` as `[name]` and the rest of the path,
/// in `size` bytes.
fn do_shorten_path(path: &str, shortcut: &Shortcut, size: u16) -> (r: Vec<Segment>)
    requires
        spec_is_subpath(utf8(shortcut.path@), utf8(path@)),
        shorten_defined(utf8(path@), utf8(shortcut.path@), utf8(shortcut.name@), size as int),
    ensures
        line_view(r@) == shorten_with(utf8(path@), *shortcut, size as int),
{
    let ghost p = utf8(path@);
    let ghost b = utf8(shortcut.path@);
    let ghost n = utf8(shortcut.name@);
    let name_len = shortcut.name.as_str().as_bytes().len();
    let size = size as usize;
    let mut line: Vec<Segment> = Vec::new();
    if name_len < usize::MAX - 3 && name_len + 3 == size {
        push_bracketed(&mut line, shortcut.name.as_str());
        line.push(star_segment());
        assert(line_view(line@) =~= shorten_with(p, *shortcut, size as int));
        return line;
    } else if name_len >= usize::MAX - 3 || name_len + 3 > size {
        line.push(star_segment());
        assert(line_view(line@) =~= shorten_with(p, *shortcut, size as int));
        return line;
    }
    push_bracketed(&mut line, shortcut.name.as_str());
    let pb = path.as_bytes();
    let bb = shortcut.path.as_str().as_bytes();
    if same_bytes(pb, bb) {
        assert(line_view(line@) =~= shorten_with(p, *shortcut, size as int));
        return line;
    }
    line.push(slash_segment());
    proof {
        if p.len() == b.len() {
            assert(p =~= p.subrange(0, b.len() as int));
        }
        assert(p[b.len() as int] == 47u8);
        assert(p.subrange(0, b.len() + 1int) =~= b + slash());
    }
    let remaining_size = size - (name_len + 3);
    let bl = bb.len();
    let pl = pb.len();
    assert(bl < pl);
    let start = bl + 1;
    let suffix_len = pl - start;
    if suffix_len > remaining_size {
        let cut = start + (suffix_len - remaining_size + 1);
        line.push(starred_suffix(path, cut));
        proof {
            let suffix = p.subrange(b.len() + 1int, p.len() as int);
            assert(last_bytes(suffix, remaining_size - 1) =~= p.subrange(cut as int, p.len() as int));
        }
    } else {
        proof {
            lemma_dir_slash(shortcut.path@);
            lemma_prefix_is_char_boundary(path@, shortcut.path@ + seq!['/']);
        }
        line.push(segment(suffix_from(path, start), SegmentStyle::Plain));
    }
    assert(line_view(line@) =~= shorten_with(p, *shortcut, size as int));
    line
}

/// Shows `path` through the first of the longest shortcuts that cover it, as
/// `[name]` and the rest of the path, in `size` bytes. A shortcut whose path
/// is `path` itself counts only when `allow_shortcut_exact_match` is set.
/// Nothing is returned when no shortcut applies or `size` is zero.
pub fn shorten_path(
    shortcuts: &[Shortcut],
    path: &str,
    size: u16,
    allow_shortcut_exact_match: bool,
) -> (r: Option<Vec<Segment>>)
    requires
        shorten_path_defined(shortcuts@, utf8(path@), size as int, allow_shortcut_exact_match),
    ensures
        match r {
            Some(line) => spec_shorten_path(
                shortcuts@,
                utf8(path@),
                size as int,
                allow_shortcut_exact_match,
            ) == Some(line_view(line@)),
            None => spec_shorten_path(
                shortcuts@,
                utf8(path@),
                size as int,
                allow_shortcut_exact_match,
            ) is None,
        },
{
    let ghost s = shortcuts@;
    let ghost p = utf8(path@);
    let ghost allow = allow_shortcut_exact_match;
    if size == 0 {
        return None;
    }
    let mut shortened_line: Option<Vec<Segment>> = None;
    let mut best_len: usize = 0;
    let ghost mut best: Option<int> = None;
    let mut i: usize = 0;
    while i < shortcuts.len()
        invariant
            i <= shortcuts.len(),
            s == shortcuts@,
            p == utf8(path@),
            allow == allow_shortcut_exact_match,
            size > 0,
            shorten_path_defined(s, p, size as int, allow),
            match best {
                None => {
                    &&& shortened_line is None
                    &&& best_len == 0
                    &&& forall|j: int| 0 <= j < i ==> !#[trigger] eligible(s, j, p, allow)
                },
                Some(k) => {
                    &&& 0 <= k < i
                    &&& eligible(s, k, p, allow)
                    &&& leads(s, k, p, allow)
                    &&& best_len == shortcut_len(s[k])
                    &&& shortened_line matches Some(l) && line_view(l@) == shorten_with(
                        p,
                        s[k],
                        size as int,
                    )
                    &&& forall|j: int|
                        0 <= j < i && #[trigger] eligible(s, j, p, allow) ==> shortcut_len(s[j])
                            <= shortcut_len(s[k])
                },
            },
        decreases shortcuts.len() - i,
    {
        let candidate = &shortcuts[i];
        let cb = candidate.path.as_str().as_bytes();
        let exact = same_bytes(path.as_bytes(), cb);
        let is_eligible = (allow_shortcut_exact_match || !exact) && Path::is_subpath(
            candidate.path.as_str(),
            path,
        ) && cb.len() > 0;
        assert(is_eligible == eligible(s, i as int, p, allow));
        if is_eligible && cb.len() > best_len {
            proof {
                assert(leads(s, i as int, p, allow));
            }
            shortened_line = Some(do_shorten_path(path, candidate, size));
            best_len = cb.len();
            proof {
                best = Some(i as int);
            }
        }
        i = i + 1;
    }
    proof {
        match best {
            None => {
                if exists|k: int| is_best_eligible(s, k, p, allow) {
                    let k = choose|k: int| is_best_eligible(s, k, p, allow);
                    assert(eligible(s, k, p, allow));
                }
            },
            Some(k) => {
                assert(is_best_eligible(s, k, p, allow));
                let k2 = choose|k2: int| is_best_eligible(s, k2, p, allow);
                assert(is_best_eligible(s, k2, p, allow));
                assert(eligible(s, k2, p, allow));
                assert(eligible(s, k, p, allow));
                assert(k == k2) by {
                    if k < k2 {
                        assert(shortcut_len(s[k]) < shortcut_len(s[k2]));
                    } else if k2 < k {
                        assert(shortcut_len(s[k2]) < shortcut_len(s[k]));
                    }
                }
            },
        }
    }
    shortened_line
}


/// The bytes of a line are the encoding of its characters.
pub proof fn lemma_line_bytes_chars(line: Seq<Segment>)
    ensures
        line_bytes(line_view(line)) == utf8(line_chars(line)),
    decreases line.len(),
{
    if line.len() == 0 {
        assert(utf8(Seq::<char>::empty()) =~= Seq::<u8>::empty());
    } else {
        lemma_line_bytes_chars(line.drop_last());
        assert(line_view(line).drop_last() =~= line_view(line.drop_last()));
        lemma_utf8_concat(line_chars(line.drop_last()), line.last().text@);
    }
}

/// The text of a line, its segments written one after the other.
pub fn line_text(line: &[Segment]) -> (r: String)
    ensures
        r@ == line_chars(line@),
        utf8(r@) == line_bytes(line_view(line@)),
{
    let mut text = String::new();
    let mut i: usize = 0;
    while i < line.len()
        invariant
            i <= line.len(),
            text@ == line_chars(line@.subrange(0, i as int)),
        decreases line.len() - i,
    {
        let ghost before = text@;
        text.append(line[i].text.as_str());
        proof {
            let next = line@.subrange(0, i + 1int);
            assert(next.drop_last() =~= line@.subrange(0, i as int));
            assert(next.last() == line@[i as int]);
        }
        i = i + 1;
    }
    proof {
        assert(line@.subrange(0, line@.len() as int) =~= line@);
        lemma_line_bytes_chars(line@);
    }
    text
}

/// The bytes of two, three or four segments written one after the other.
proof fn lemma_line_bytes_small(v: Seq<(Seq<u8>, SegmentStyle)>)
    ensures
        v.len() == 1 ==> line_bytes(v) == v[0].0,
        v.len() == 2 ==> line_bytes(v) == v[0].0 + v[1].0,
        v.len() == 3 ==> line_bytes(v) == v[0].0 + v[1].0 + v[2].0,
        v.len() == 4 ==> line_bytes(v) == v[0].0 + v[1].0 + v[2].0 + v[3].0,
        v.len() == 5 ==> line_bytes(v) == v[0].0 + v[1].0 + v[2].0 + v[3].0 + v[4].0,
{
    reveal_with_fuel(line_bytes, 6);
    if v.len() == 1 {
        assert(v.drop_last() =~= Seq::<(Seq<u8>, SegmentStyle)>::empty());
        assert(line_bytes(v) =~= v[0].0);
    } else if v.len() == 2 {
        assert(v.drop_last().drop_last() =~= Seq::<(Seq<u8>, SegmentStyle)>::empty());
        assert(line_bytes(v) =~= v[0].0 + v[1].0);
    } else if v.len() == 3 {
        assert(v.drop_last().drop_last().drop_last() =~= Seq::<(Seq<u8>, SegmentStyle)>::empty());
        assert(line_bytes(v) =~= v[0].0 + v[1].0 + v[2].0);
    } else if v.len() == 4 {
        assert(v.drop_last().drop_last().drop_last().drop_last() =~= Seq::<
            (Seq<u8>, SegmentStyle),
        >::empty());
        assert(line_bytes(v) =~= v[0].0 + v[1].0 + v[2].0 + v[3].0);
    } else if v.len() == 5 {
        assert(v.drop_last().drop_last().drop_last().drop_last().drop_last() =~= Seq::<
            (Seq<u8>, SegmentStyle),
        >::empty());
        assert(line_bytes(v) =~= v[0].0 + v[1].0 + v[2].0 + v[3].0 + v[4].0);
    }
}

/// A path reduced for a column of `size` bytes never takes more than `size` bytes.
pub proof fn law_reduce_path_fits(path: Seq<u8>, size: int, home: Option<Seq<u8>>)
    requires
        0 <= size,
    ensures
        line_bytes(spec_reduce_path(path, size, home)).len() <= size,
{
    let v = spec_reduce_path(path, size, home);
    lemma_line_bytes_small(v);
    if size == 0 {
        assert(line_bytes(v) =~= Seq::<u8>::empty());
    } else {
        match home {
            Some(h) => {
                if is_home_path(path, h) && path != h && size >= 4 {
                    assert(path.len() >= h.len() + 1);
                }
            },
            None => {},
        }
    }
}

/// A path shown through a shortcut never takes more than `size` bytes.
pub proof fn law_shorten_path_fits(
    shortcuts: Seq<Shortcut>,
    path: Seq<u8>,
    size: int,
    allow_exact: bool,
)
    requires
        0 <= size,
    ensures
        spec_shorten_path(shortcuts, path, size, allow_exact) matches Some(v) ==> line_bytes(
            v,
        ).len() <= size,
{
    if let Some(v) = spec_shorten_path(shortcuts, path, size, allow_exact) {
        let k = choose|k: int| is_best_eligible(shortcuts, k, path, allow_exact);
        assert(covers(shortcuts, k, path));
        lemma_line_bytes_small(v);
        let b = utf8(shortcuts[k].path@);
        assert(path.len() >= b.len());
    }
}

} // verus!

verus! {

/// The path cell of a table row: through the most specific shortcut when
/// the table shows paths through shortcuts and one applies, else the path
/// with the home directory written `~`, cut to `size` cells.
pub open spec fn spec_path_cell(
    shortcuts: Seq<Shortcut>,
    path: Seq<u8>,
    size: int,
    allow_shortcut_exact_match: bool,
    display_with_shortcuts: bool,
    home: Option<Seq<u8>>,
) -> Seq<(Seq<u8>, SegmentStyle)> {
    let through = if display_with_shortcuts {
        spec_shorten_path(shortcuts, path, size, allow_shortcut_exact_match)
    } else {
        None
    };
    match through {
        Some(line) => line,
        None => spec_reduce_path(path, size, home),
    }
}

/// The path cell of a table row.
pub fn path_cell(
    shortcuts: &[Shortcut],
    path: &str,
    size: u16,
    allow_shortcut_exact_match: bool,
    display_with_shortcuts: bool,
    home: Option<&str>,
) -> (r: Vec<Segment>)
    requires
        display_with_shortcuts ==> shorten_path_defined(
            shortcuts@,
            utf8(path@),
            size as int,
            allow_shortcut_exact_match,
        ),
        (!display_with_shortcuts || spec_shorten_path(
            shortcuts@,
            utf8(path@),
            size as int,
            allow_shortcut_exact_match,
        ) is None) ==> reduce_path_defined(utf8(path@), size as int, home_bytes(home)),
    ensures
        line_view(r@) == spec_path_cell(
            shortcuts@,
            utf8(path@),
            size as int,
            allow_shortcut_exact_match,
            display_with_shortcuts,
            home_bytes(home),
        ),
{
    if display_with_shortcuts {
        if let Some(line) = shorten_path(shortcuts, path, size, allow_shortcut_exact_match) {
            return line;
        }
    }
    reduce_path(path, size, home)
}

} // verus!

verus! {

/// Whether `reduce_string` can show `path` in `size` bytes without cutting a
/// character in two.
fn string_cuts_cleanly(path: &str, size: usize) -> (r: bool)
    requires
        size >= 1,
    ensures
        r == reduce_string_defined(utf8(path@), size as int),
{
    let n = path.as_bytes().len();
    if n > size {
        path.is_char_boundary(n - (size - 1))
    } else {
        true
    }
}

/// Whether `reduce_path` can show `path` in `size` cells without cutting a
/// character in two (when it cannot, the cut would fall inside one).
pub fn reduce_path_cuts_cleanly(path: &str, size: u16, home: Option<&str>) -> (r: bool)
    ensures
        r == reduce_path_defined(utf8(path@), size as int, home_bytes(home)),
{
    if size == 0 {
        return true;
    }
    match home {
        Some(h) => {
            let pb = path.as_bytes();
            let hb = h.as_bytes();
            let exact = same_bytes(pb, hb);
            if is_below(pb, hb) || exact {
                let n = pb.len();
                if !exact && size >= 4 && n - (hb.len() + 1) > (size - 2) as usize {
                    path.is_char_boundary(n - (size as usize - 2) + 1)
                } else {
                    true
                }
            } else {
                string_cuts_cleanly(path, size as usize)
            }
        },
        None => string_cuts_cleanly(path, size as usize),
    }
}

/// Whether `shorten_path` can show `path` through each shortcut it tries
/// without cutting a character in two.
pub fn shorten_path_cuts_cleanly(
    shortcuts: &[Shortcut],
    path: &str,
    size: u16,
    allow_shortcut_exact_match: bool,
) -> (r: bool)
    ensures
        r == shorten_path_defined(shortcuts@, utf8(path@), size as int, allow_shortcut_exact_match),
{
    let ghost s = shortcuts@;
    let ghost p = utf8(path@);
    let ghost allow = allow_shortcut_exact_match;
    if size == 0 {
        return true;
    }
    let pb = path.as_bytes();
    let n = pb.len();
    let mut ok = true;
    let mut best_len: usize = 0;
    let mut i: usize = 0;
    while i < shortcuts.len()
        invariant
            i <= shortcuts.len(),
            s == shortcuts@,
            p == utf8(path@),
            pb@ == p,
            n == p.len(),
            allow == allow_shortcut_exact_match,
            size > 0,
            forall|j: int| 0 <= j < i && #[trigger] eligible(s, j, p, allow) ==> shortcut_len(s[j]) <= best_len,
            best_len > 0 ==> exists|j: int| 0 <= j < i && #[trigger] eligible(s, j, p, allow) && shortcut_len(s[j]) == best_len,
            ok == forall|j: int|
                0 <= j < i && #[trigger] eligible(s, j, p, allow) && leads(s, j, p, allow)
                    ==> shorten_defined(p, utf8(s[j].path@), utf8(s[j].name@), size as int),
        decreases shortcuts.len() - i,
    {
        let candidate = &shortcuts[i];
        let cb = candidate.path.as_str().as_bytes();
        let exact = same_bytes(pb, cb);
        let is_eligible = (allow_shortcut_exact_match || !exact) && Path::is_subpath(
            candidate.path.as_str(),
            path,
        ) && cb.len() > 0;
        assert(is_eligible == eligible(s, i as int, p, allow));
        let leading = is_eligible && cb.len() > best_len;
        proof {
            if is_eligible {
                if leads(s, i as int, p, allow) && best_len > 0 {
                    let j = choose|j: int| 0 <= j < i && #[trigger] eligible(s, j, p, allow) && shortcut_len(s[j]) == best_len;
                    assert(shortcut_len(s[j]) < shortcut_len(s[i as int]));
                }
                if cb.len() > best_len {
                    assert(leads(s, i as int, p, allow));
                }
            }
        }
        if leading {
            let name_len = candidate.name.as_str().as_bytes().len();
            let this_ok = if name_len < (size as usize) && (size as usize) - name_len > 3 {
                let remaining = (size as usize) - (name_len + 3);
                proof {
                    if !exact {
                        assert(is_byte_prefix(cb@, p));
                        if cb@.len() == n {
                            assert(p =~= p.subrange(0, cb@.len() as int));
                        }
                    }
                }
                if !exact && n - (cb.len() + 1) > remaining {
                    path.is_char_boundary(n - remaining + 1)
                } else {
                    true
                }
            } else {
                true
            };
            assert(this_ok == shorten_defined(p, utf8(s[i as int].path@), utf8(s[i as int].name@), size as int));
            ok = ok && this_ok;
            best_len = cb.len();
        }
        i = i + 1;
    }
    ok
}

} // verus!
