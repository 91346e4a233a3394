use cdir::ansi::{
    ansi_line, line_ansi, line_term_styles, patch_style, term_color, term_style, CellStyle, Modifiers,
    StyledText, TermColor, ThemeColor,
};

fn none() -> Modifiers {
    Modifiers {
        bold: false,
        dim: false,
        italic: false,
        underlined: false,
        slow_blink: false,
        rapid_blink: false,
        reversed: false,
        hidden: false,
        crossed_out: false,
    }
}

fn plain() -> CellStyle {
    CellStyle { fg: None, bg: None, add_modifier: none(), sub_modifier: none() }
}

fn bold() -> CellStyle {
    CellStyle { add_modifier: Modifiers { bold: true, ..none() }, ..plain() }
}

fn piece(text: &str, style: CellStyle) -> StyledText {
    StyledText { text: text.to_string(), style }
}

const RESET: &str = "\u{1b}[0m";

#[test]
fn patch_lays_the_second_style_over_the_first() {
    let a = CellStyle { fg: Some(ThemeColor::Red), bg: Some(ThemeColor::Blue), ..bold() };
    let b = CellStyle {
        fg: Some(ThemeColor::Green),
        sub_modifier: Modifiers { bold: true, ..none() },
        add_modifier: Modifiers { italic: true, ..none() },
        ..plain()
    };
    let p = patch_style(&a, &b);
    assert_eq!(p.fg, Some(ThemeColor::Green));
    assert_eq!(p.bg, Some(ThemeColor::Blue));
    assert!(!p.add_modifier.bold && p.add_modifier.italic && p.sub_modifier.bold);
}

#[test]
fn terminal_colours_and_attributes() {
    assert_eq!(term_color(ThemeColor::Red), TermColor::Indexed(1));
    assert_eq!(term_color(ThemeColor::LightRed), TermColor::Indexed(9));
    assert_eq!(term_color(ThemeColor::Gray), TermColor::Indexed(8));
    assert_eq!(term_color(ThemeColor::Rgb(1, 2, 3)), TermColor::Rgb(1, 2, 3));
    let s = CellStyle {
        add_modifier: Modifiers { bold: true, underlined: true, ..none() },
        sub_modifier: Modifiers { dim: true, slow_blink: true, ..none() },
        ..plain()
    };
    // A single blink removed is not undone; dim removed is normal intensity.
    assert_eq!(term_style(&s).attributes, vec![1, 4, 16]);
}

#[test]
fn only_changes_of_style_get_a_sequence() {
    let pieces = vec![piece("~", bold()), piece("/", plain()), piece("src", plain()), piece("*", bold())];
    let styles = line_term_styles(&plain(), &pieces);
    let starts: Vec<bool> = styles.iter().map(|s| s.is_some()).collect();
    assert_eq!(starts, vec![true, true, false, true]);
    // With the line bold, the plain pieces are bold too.
    let styles = line_term_styles(&bold(), &pieces);
    let starts: Vec<bool> = styles.iter().map(|s| s.is_some()).collect();
    assert_eq!(starts, vec![true, false, false, false]);
}

#[test]
fn ansi_line_puts_resets_between_styles() {
    let pieces = vec![piece("a", plain()), piece("b", plain()), piece("c", plain())];
    let out = ansi_line(&pieces, &vec![Some("<1>".to_string()), None, Some("<2>".to_string())]);
    assert_eq!(out, format!("<1>ab{RESET}{RESET}<2>c{RESET}{RESET}"));
}

#[test]
fn line_ansi_writes_crossterm_sequences() {
    let pieces = vec![piece("~", bold()), piece("/src", plain())];
    // Bold is written as ESC[1m; the plain style writes nothing.
    assert_eq!(line_ansi(&plain(), &pieces), format!("\u{1b}[1m~{RESET}{RESET}/src{RESET}{RESET}"));
    let red = CellStyle { fg: Some(ThemeColor::Red), ..plain() };
    let out = line_ansi(&plain(), &vec![piece("x", red)]);
    // crossterm leaves the colour out when NO_COLOR is set.
    assert!(
        out == format!("\u{1b}[38;5;1mx{RESET}{RESET}") || out == format!("x{RESET}{RESET}"),
        "{out:?}"
    );
}
