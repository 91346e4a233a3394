//! A displayed line as text with ANSI escape sequences, for a terminal that
//! is not drawn by the interface: the styles of its pieces, the escape
//! sequences of each change of style (written by `crossterm`), and the
//! resets between them.
use vstd::prelude::*;
use crossterm::style::{Attribute, Color, ContentStyle, SetStyle};
use crossterm::Command;

verus! {

/// A colour of a theme.
#[derive(Debug, Clone, Copy, PartialEq, Eq, Structural)]
pub enum ThemeColor {
    Reset,
    Black,
    Red,
    Green,
    Yellow,
    Blue,
    Magenta,
    Cyan,
    Gray,
    DarkGray,
    LightRed,
    LightGreen,
    LightYellow,
    LightBlue,
    LightMagenta,
    LightCyan,
    White,
    Indexed(u8),
    Rgb(u8, u8, u8),
}

/// Text modifiers, each on or off.
#[derive(Debug, Clone, Copy, PartialEq, Eq, Structural)]
pub struct Modifiers {
    pub bold: bool,
    pub dim: bool,
    pub italic: bool,
    pub underlined: bool,
    pub slow_blink: bool,
    pub rapid_blink: bool,
    pub reversed: bool,
    pub hidden: bool,
    pub crossed_out: bool,
}

/// The style of a piece of a line: its colours, if set, the modifiers it
/// adds and those it removes.
#[derive(Debug, Clone, Copy, PartialEq, Eq, Structural)]
pub struct CellStyle {
    pub fg: Option<ThemeColor>,
    pub bg: Option<ThemeColor>,
    pub add_modifier: Modifiers,
    pub sub_modifier: Modifiers,
}

/// `b` if it is set, else `a`.
pub open spec fn either<A>(a: Option<A>, b: Option<A>) -> Option<A> {
    match b {
        Some(_) => b,
        None => a,
    }
}

/// The modifiers of `a` without those of `gone`, with those of `more`.
pub open spec fn modifiers_patched(a: Modifiers, gone: Modifiers, more: Modifiers) -> Modifiers {
    Modifiers {
        bold: (a.bold && !gone.bold) || more.bold,
        dim: (a.dim && !gone.dim) || more.dim,
        italic: (a.italic && !gone.italic) || more.italic,
        underlined: (a.underlined && !gone.underlined) || more.underlined,
        slow_blink: (a.slow_blink && !gone.slow_blink) || more.slow_blink,
        rapid_blink: (a.rapid_blink && !gone.rapid_blink) || more.rapid_blink,
        reversed: (a.reversed && !gone.reversed) || more.reversed,
        hidden: (a.hidden && !gone.hidden) || more.hidden,
        crossed_out: (a.crossed_out && !gone.crossed_out) || more.crossed_out,
    }
}

/// `b` laid over `a`, as `ratatui`'s `Style::patch` does: the colours that
/// `b` sets win, the modifiers that `b` removes go and those it adds come.
pub open spec fn patched_style(a: CellStyle, b: CellStyle) -> CellStyle {
    CellStyle {
        fg: either(a.fg, b.fg),
        bg: either(a.bg, b.bg),
        add_modifier: modifiers_patched(a.add_modifier, b.sub_modifier, b.add_modifier),
        sub_modifier: modifiers_patched(a.sub_modifier, b.add_modifier, b.sub_modifier),
    }
}

fn modifiers_patch(a: Modifiers, gone: Modifiers, more: Modifiers) -> (r: Modifiers)
    ensures
        r == modifiers_patched(a, gone, more),
{
    Modifiers {
        bold: (a.bold && !gone.bold) || more.bold,
        dim: (a.dim && !gone.dim) || more.dim,
        italic: (a.italic && !gone.italic) || more.italic,
        underlined: (a.underlined && !gone.underlined) || more.underlined,
        slow_blink: (a.slow_blink && !gone.slow_blink) || more.slow_blink,
        rapid_blink: (a.rapid_blink && !gone.rapid_blink) || more.rapid_blink,
        reversed: (a.reversed && !gone.reversed) || more.reversed,
        hidden: (a.hidden && !gone.hidden) || more.hidden,
        crossed_out: (a.crossed_out && !gone.crossed_out) || more.crossed_out,
    }
}

/// `b` laid over `a` (`Style::patch`).
pub fn patch_style(a: &CellStyle, b: &CellStyle) -> (r: CellStyle)
    ensures
        r == patched_style(*a, *b),
{
    CellStyle {
        fg: match b.fg {
            Some(c) => Some(c),
            None => a.fg,
        },
        bg: match b.bg {
            Some(c) => Some(c),
            None => a.bg,
        },
        add_modifier: modifiers_patch(a.add_modifier, b.sub_modifier, b.add_modifier),
        sub_modifier: modifiers_patch(a.sub_modifier, b.add_modifier, b.sub_modifier),
    }
}

/// A terminal colour: the default one, one of the 256 of the palette, or
/// red, green and blue.
#[derive(Debug, Clone, Copy, PartialEq, Eq, Structural)]
pub enum TermColor {
    Reset,
    Indexed(u8),
    Rgb(u8, u8, u8),
}

/// The terminal colour of a theme colour: the named colours are the first
/// sixteen of the palette, a light colour the bright one and a plain colour
/// the dark one (gray is bright black, as dark gray is).
pub open spec fn term_color_of(c: ThemeColor) -> TermColor {
    match c {
        ThemeColor::Reset => TermColor::Reset,
        ThemeColor::Black => TermColor::Indexed(0),
        ThemeColor::Red => TermColor::Indexed(1),
        ThemeColor::Green => TermColor::Indexed(2),
        ThemeColor::Yellow => TermColor::Indexed(3),
        ThemeColor::Blue => TermColor::Indexed(4),
        ThemeColor::Magenta => TermColor::Indexed(5),
        ThemeColor::Cyan => TermColor::Indexed(6),
        ThemeColor::Gray => TermColor::Indexed(8),
        ThemeColor::DarkGray => TermColor::Indexed(8),
        ThemeColor::LightRed => TermColor::Indexed(9),
        ThemeColor::LightGreen => TermColor::Indexed(10),
        ThemeColor::LightYellow => TermColor::Indexed(11),
        ThemeColor::LightBlue => TermColor::Indexed(12),
        ThemeColor::LightMagenta => TermColor::Indexed(13),
        ThemeColor::LightCyan => TermColor::Indexed(14),
        ThemeColor::White => TermColor::Indexed(15),
        ThemeColor::Indexed(i) => TermColor::Indexed(i),
        ThemeColor::Rgb(r, g, b) => TermColor::Rgb(r, g, b),
    }
}

/// The terminal colour of a theme colour.
pub fn term_color(c: ThemeColor) -> (r: TermColor)
    ensures
        r == term_color_of(c),
{
    match c {
        ThemeColor::Reset => TermColor::Reset,
        ThemeColor::Black => TermColor::Indexed(0),
        ThemeColor::Red => TermColor::Indexed(1),
        ThemeColor::Green => TermColor::Indexed(2),
        ThemeColor::Yellow => TermColor::Indexed(3),
        ThemeColor::Blue => TermColor::Indexed(4),
        ThemeColor::Magenta => TermColor::Indexed(5),
        ThemeColor::Cyan => TermColor::Indexed(6),
        ThemeColor::Gray => TermColor::Indexed(8),
        ThemeColor::DarkGray => TermColor::Indexed(8),
        ThemeColor::LightRed => TermColor::Indexed(9),
        ThemeColor::LightGreen => TermColor::Indexed(10),
        ThemeColor::LightYellow => TermColor::Indexed(11),
        ThemeColor::LightBlue => TermColor::Indexed(12),
        ThemeColor::LightMagenta => TermColor::Indexed(13),
        ThemeColor::LightCyan => TermColor::Indexed(14),
        ThemeColor::White => TermColor::Indexed(15),
        ThemeColor::Indexed(i) => TermColor::Indexed(i),
        ThemeColor::Rgb(r, g, b) => TermColor::Rgb(r, g, b),
    }
}

/// The terminal attributes of a style, as their places in `crossterm`'s list
/// of attributes (bold 1, dim 2, italic 3, underlined 4, slow blink 9, rapid
/// blink 10, reverse 11, hidden 12, crossed out 13, normal intensity 16, no
/// italic 17, no underline 18, no blink 19, no reverse 20, no hidden 21, not
/// crossed out 22): one for each modifier added, and one that undoes each
/// modifier removed (bold and dim both by normal intensity, the blinks only
/// when both are removed).
pub open spec fn attributes_of(s: CellStyle) -> Seq<usize> {
    added_attributes(s.add_modifier) + removed_attributes(s.sub_modifier)
}

/// The attributes of the modifiers added.
pub open spec fn added_attributes(a: Modifiers) -> Seq<usize> {
    flag(a.bold, 1) + flag(a.dim, 2) + flag(a.italic, 3) + flag(a.underlined, 4) + flag(
        a.slow_blink,
        9,
    ) + flag(a.rapid_blink, 10) + flag(a.reversed, 11) + flag(a.hidden, 12) + flag(
        a.crossed_out,
        13,
    )
}

/// The attributes that undo the modifiers removed.
pub open spec fn removed_attributes(r: Modifiers) -> Seq<usize> {
    flag(r.bold, 16) + flag(r.dim, 16) + flag(r.italic, 17) + flag(r.underlined, 18) + flag(
        r.slow_blink && r.rapid_blink,
        19,
    ) + flag(r.reversed, 20) + flag(r.hidden, 21) + flag(r.crossed_out, 22)
}

/// `[p]` when `on`, else nothing.
pub open spec fn flag(on: bool, p: usize) -> Seq<usize> {
    if on {
        seq![p]
    } else {
        Seq::empty()
    }
}

/// The style as the terminal takes it: its colours and attributes.
pub struct TermStyle {
    pub fg: Option<TermColor>,
    pub bg: Option<TermColor>,
    pub attributes: Vec<usize>,
}

/// A terminal style as values.
pub ghost struct TermStyleModel {
    pub fg: Option<TermColor>,
    pub bg: Option<TermColor>,
    pub attributes: Seq<usize>,
}

impl View for TermStyle {
    type V = TermStyleModel;

    open spec fn view(&self) -> TermStyleModel {
        TermStyleModel { fg: self.fg, bg: self.bg, attributes: self.attributes@ }
    }
}

/// Every attribute is one of the 28 places of `crossterm`'s list.
pub open spec fn attributes_fit(t: TermStyleModel) -> bool {
    forall|j: int| 0 <= j < t.attributes.len() ==> t.attributes[j] < 28
}

/// The terminal colour of an optional theme colour.
pub open spec fn term_color_opt(c: Option<ThemeColor>) -> Option<TermColor> {
    match c {
        Some(x) => Some(term_color_of(x)),
        None => None,
    }
}

/// The terminal style of a style.
pub open spec fn term_style_of(s: CellStyle) -> TermStyleModel {
    TermStyleModel {
        fg: term_color_opt(s.fg),
        bg: term_color_opt(s.bg),
        attributes: attributes_of(s),
    }
}

fn push_if(v: &mut Vec<usize>, on: bool, p: usize)
    requires
        p < 28,
        forall|i: int| 0 <= i < old(v)@.len() ==> old(v)@[i] < 28,
    ensures
        final(v)@ == old(v)@ + flag(on, p),
        forall|i: int| 0 <= i < final(v)@.len() ==> final(v)@[i] < 28,
{
    if on {
        v.push(p);
    }
    proof {
        assert(final(v)@ =~= old(v)@ + flag(on, p));
    }
}

fn start_with(on: bool, p: usize) -> (r: Vec<usize>)
    requires
        p < 28,
    ensures
        r@ == flag(on, p),
        forall|i: int| 0 <= i < r@.len() ==> r@[i] < 28,
{
    let mut v: Vec<usize> = Vec::new();
    if on {
        v.push(p);
    }
    assert(v@ =~= flag(on, p));
    v
}

fn added_vec(a: Modifiers) -> (r: Vec<usize>)
    ensures
        r@ == added_attributes(a),
        forall|i: int| 0 <= i < r@.len() ==> r@[i] < 28,
{
    let mut v = start_with(a.bold, 1);
    push_if(&mut v, a.dim, 2);
    push_if(&mut v, a.italic, 3);
    push_if(&mut v, a.underlined, 4);
    push_if(&mut v, a.slow_blink, 9);
    push_if(&mut v, a.rapid_blink, 10);
    push_if(&mut v, a.reversed, 11);
    push_if(&mut v, a.hidden, 12);
    push_if(&mut v, a.crossed_out, 13);
    v
}

fn removed_vec(r: Modifiers) -> (v: Vec<usize>)
    ensures
        v@ == removed_attributes(r),
        forall|i: int| 0 <= i < v@.len() ==> v@[i] < 28,
{
    let mut v = start_with(r.bold, 16);
    push_if(&mut v, r.dim, 16);
    push_if(&mut v, r.italic, 17);
    push_if(&mut v, r.underlined, 18);
    push_if(&mut v, r.slow_blink && r.rapid_blink, 19);
    push_if(&mut v, r.reversed, 20);
    push_if(&mut v, r.hidden, 21);
    push_if(&mut v, r.crossed_out, 22);
    v
}

/// The terminal style of a style.
pub fn term_style(s: &CellStyle) -> (r: TermStyle)
    ensures
        r@ == term_style_of(*s),
        attributes_fit(r@),
{
    let mut v = added_vec(s.add_modifier);
    let mut w = removed_vec(s.sub_modifier);
    v.append(&mut w);
    let fg = match s.fg {
        Some(c) => Some(term_color(c)),
        None => None,
    };
    let bg = match s.bg {
        Some(c) => Some(term_color(c)),
        None => None,
    };
    TermStyle { fg, bg, attributes: v }
}

/// Calls `crossterm`'s `SetStyle(..).write_ansi` on the `ContentStyle` with
/// these colours (a palette index as `Color::AnsiValue`, which `crossterm`
/// writes as it writes the named colour of that index, and red, green and
/// blue as `Color::Rgb`) and the attributes at these places of
/// `Attribute::iterator()` (of which there are 28). Nothing is stated of
/// the text: `crossterm` leaves the colours out when the environment sets
/// `NO_COLOR`.
#[verifier::external_body]
fn style_sequence(style: &TermStyle) -> (r: String)
    requires
        attributes_fit(style@),
{
    let color = |c: &TermColor| match *c {
        TermColor::Reset => Color::Reset,
        TermColor::Indexed(i) => Color::AnsiValue(i),
        TermColor::Rgb(r, g, b) => Color::Rgb { r, g, b },
    };
    let mut ct = ContentStyle::new();
    ct.foreground_color = style.fg.as_ref().map(color);
    ct.background_color = style.bg.as_ref().map(color);
    for p in style.attributes.iter() {
        ct.attributes.set(Attribute::iterator().nth(*p).unwrap());
    }
    let mut s = String::new();
    let _ = SetStyle(ct).write_ansi(&mut s);
    s
}

/// A piece of a line: its text and its style.
pub struct StyledText {
    pub text: String,
    pub style: CellStyle,
}

/// The styles of the pieces.
pub open spec fn piece_styles(pieces: Seq<StyledText>) -> Seq<CellStyle> {
    pieces.map_values(|p: StyledText| p.style)
}

/// The texts of the pieces.
pub open spec fn piece_texts(pieces: Seq<StyledText>) -> Seq<Seq<char>> {
    pieces.map_values(|p: StyledText| p.text@)
}

/// Piece `i` starts a new style: it is the first, or its style laid over
/// the line's differs from that of the piece before.
pub open spec fn starts_style(line: CellStyle, styles: Seq<CellStyle>, i: int) -> bool {
    i == 0 || patched_style(line, styles[i]) != patched_style(line, styles[i - 1])
}

/// The terminal style that each piece switches to, where it starts a new
/// style.
pub fn line_term_styles(line: &CellStyle, pieces: &Vec<StyledText>) -> (r: Vec<Option<TermStyle>>)
    ensures
        r@.len() == pieces@.len(),
        forall|i: int|
            0 <= i < r@.len() ==> ((#[trigger] r@[i]) is Some <==> starts_style(
                *line,
                piece_styles(pieces@),
                i,
            )),
        forall|i: int|
            0 <= i < r@.len() ==> (#[trigger] r@[i] matches Some(t) ==> t@ == term_style_of(
                patched_style(*line, pieces@[i].style),
            )),
        forall|i: int| 0 <= i < r@.len() ==> (#[trigger] r@[i] matches Some(t) ==> attributes_fit(t@)),
{
    let ghost styles = piece_styles(pieces@);
    let mut r: Vec<Option<TermStyle>> = Vec::new();
    let mut i: usize = 0;
    while i < pieces.len()
        invariant
            i <= pieces@.len(),
            r@.len() == i,
            styles == piece_styles(pieces@),
            forall|k: int| 0 <= k < i ==> ((#[trigger] r@[k]) is Some <==> starts_style(*line, styles, k)),
            forall|k: int|
                0 <= k < i ==> (#[trigger] r@[k] matches Some(t) ==> t@ == term_style_of(
                    patched_style(*line, pieces@[k].style),
                )),
            forall|k: int| 0 <= k < i ==> (#[trigger] r@[k] matches Some(t) ==> attributes_fit(t@)),
        decreases pieces@.len() - i,
    {
        let here = patch_style(line, &pieces[i].style);
        let starts = if i == 0 {
            true
        } else {
            let before = patch_style(line, &pieces[i - 1].style);
            here != before
        };
        proof {
            assert(styles[i as int] == pieces@[i as int].style);
            if i > 0 {
                assert(styles[i - 1] == pieces@[i - 1].style);
            }
        }
        if starts {
            r.push(Some(term_style(&here)));
        } else {
            r.push(None);
        }
        i = i + 1;
    }
    r
}

/// The text that resets the terminal's colours and attributes:
/// `crossterm` writes both `ResetColor` and `SetAttribute(Attribute::Reset)`
/// as `ESC [ 0 m`.
pub open spec fn reset_text() -> Seq<char> {
    "\u{1b}[0m"@
}

/// The first `n` pieces: each that starts a style gets its escape text
/// (`sequences[i]`), after the resets of the style before when it is not the
/// first, then its text.
pub open spec fn ansi_pieces(texts: Seq<Seq<char>>, sequences: Seq<Option<Seq<char>>>, n: nat) -> Seq<char>
    decreases n,
{
    if n == 0 {
        Seq::empty()
    } else {
        let i = n - 1;
        ansi_pieces(texts, sequences, i as nat) + match sequences[i] {
            Some(q) => (if i > 0 {
                reset_text() + reset_text()
            } else {
                Seq::empty()
            }) + q,
            None => Seq::empty(),
        } + texts[i]
    }
}

/// The line: its pieces, then the resets that end it.
pub open spec fn ansi_line_text(texts: Seq<Seq<char>>, sequences: Seq<Option<Seq<char>>>) -> Seq<char> {
    ansi_pieces(texts, sequences, texts.len()) + reset_text() + reset_text()
}

/// The views of optional strings.
pub open spec fn opt_texts(v: Seq<Option<String>>) -> Seq<Option<Seq<char>>> {
    v.map_values(|o: Option<String>| match o {
        Some(s) => Some(s@),
        None => None,
    })
}

/// The line with the escape texts of the pieces that start a style.
pub fn ansi_line(pieces: &Vec<StyledText>, sequences: &Vec<Option<String>>) -> (r: String)
    requires
        sequences@.len() == pieces@.len(),
    ensures
        r@ == ansi_line_text(piece_texts(pieces@), opt_texts(sequences@)),
{
    let ghost texts = piece_texts(pieces@);
    let ghost seqs = opt_texts(sequences@);
    let mut out = String::new();
    let mut i: usize = 0;
    proof {
        reveal_strlit("\u{1b}[0m");
    }
    while i < pieces.len()
        invariant
            i <= pieces@.len(),
            sequences@.len() == pieces@.len(),
            texts == piece_texts(pieces@),
            seqs == opt_texts(sequences@),
            out@ == ansi_pieces(texts, seqs, i as nat),
        decreases pieces@.len() - i,
    {
        let ghost before = out@;
        match &sequences[i] {
            Some(q) => {
                if i > 0 {
                    out.append("\u{1b}[0m");
                    out.append("\u{1b}[0m");
                }
                out.append(q.as_str());
            },
            None => {},
        }
        out.append(pieces[i].text.as_str());
        proof {
            assert(seqs[i as int] == match sequences@[i as int] {
                Some(s) => Some(s@),
                None => None::<Seq<char>>,
            });
            assert(texts[i as int] == pieces@[i as int].text@);
            let piece = match seqs[i as int] {
                Some(q) => (if i > 0 {
                    reset_text() + reset_text()
                } else {
                    Seq::empty()
                }) + q,
                None => Seq::empty(),
            };
            assert(out@ =~= before + piece + texts[i as int]);
        }
        i = i + 1;
    }
    out.append("\u{1b}[0m");
    out.append("\u{1b}[0m");
    out
}

/// The line as text with ANSI escape sequences: each piece that starts a
/// new style (its style laid over the line's) gets `crossterm`'s escape text
/// for that style, after resets when it is not the first; the line ends with
/// resets. The escape texts themselves are `crossterm`'s (see
/// `style_sequence`), of the styles that `line_term_styles` gives.
pub fn line_ansi(line: &CellStyle, pieces: &Vec<StyledText>) -> (r: String)
    ensures
        exists|sequences: Seq<Option<Seq<char>>>|
            {
                &&& sequences.len() == pieces@.len()
                &&& forall|i: int|
                    0 <= i < sequences.len() ==> ((#[trigger] sequences[i]) is Some <==> starts_style(
                        *line,
                        piece_styles(pieces@),
                        i,
                    ))
                &&& r@ == ansi_line_text(piece_texts(pieces@), sequences)
            },
{
    let styles = line_term_styles(line, pieces);
    let mut sequences: Vec<Option<String>> = Vec::new();
    let mut i: usize = 0;
    while i < styles.len()
        invariant
            i <= styles@.len(),
            styles@.len() == pieces@.len(),
            sequences@.len() == i,
            forall|k: int|
                0 <= k < styles@.len() ==> ((#[trigger] styles@[k]) is Some <==> starts_style(
                    *line,
                    piece_styles(pieces@),
                    k,
                )),
            forall|k: int|
                0 <= k < styles@.len() ==> (#[trigger] styles@[k] matches Some(t) ==> attributes_fit(t@)),
            forall|k: int| 0 <= k < i ==> ((#[trigger] sequences@[k]) is Some <==> styles@[k] is Some),
        decreases styles@.len() - i,
    {
        let next = match &styles[i] {
            Some(t) => {
                proof {
                    assert(styles@[i as int] matches Some(t2) ==> attributes_fit(t2@));
                }
                Some(style_sequence(t))
            },
            None => None,
        };
        sequences.push(next);
        i = i + 1;
    }
    let r = ansi_line(pieces, &sequences);
    proof {
        let q = opt_texts(sequences@);
        assert forall|k: int| 0 <= k < q.len() implies ((#[trigger] q[k]) is Some <==> starts_style(
            *line,
            piece_styles(pieces@),
            k,
        )) by {
            assert(sequences@[k] is Some <==> styles@[k] is Some);
        }
    }
    r
}

} // verus!
