//! Colors and text attributes of the user interface, as the configuration
//! and the theme files give them.
use vstd::prelude::*;

verus! {

/// The color and attribute settings of the user interface. Colors are
/// strings such as `#1d5cba`; an unset entry falls back to another theme or
/// to the built-in default.
#[derive(Debug, PartialEq, Eq)]
pub struct Theme {
    pub title: Option<String>,
    pub title_bold: Option<bool>,
    pub title_italic: Option<bool>,
    pub background: Option<String>,
    pub left_background: Option<String>,
    pub border: Option<String>,
    pub text: Option<String>,
    pub text_bold: Option<bool>,
    pub text_italic: Option<bool>,
    pub text_em: Option<String>,
    pub text_em_bold: Option<bool>,
    pub text_em_italic: Option<bool>,
    pub date: Option<String>,
    pub date_bold: Option<bool>,
    pub date_italic: Option<bool>,
    pub path: Option<String>,
    pub path_bold: Option<bool>,
    pub path_italic: Option<bool>,
    pub highlight: Option<String>,
    pub shortcut_name: Option<String>,
    pub shortcut_name_bold: Option<bool>,
    pub shortcut_name_italic: Option<bool>,
    pub header_fg: Option<String>,
    pub header_bg: Option<String>,
    pub description: Option<String>,
    pub description_bold: Option<bool>,
    pub description_italic: Option<bool>,
    pub free_text_area_bg: Option<String>,
    pub home_tilde: Option<String>,
    pub home_tilde_bold: Option<bool>,
    pub home_tilde_italic: Option<bool>,
}

/// An optional string as its characters.
pub open spec fn opt_text(o: Option<String>) -> Option<Seq<char>> {
    match o {
        Some(s) => Some(s@),
        None => None,
    }
}

/// The first value that is set among `a`, `b` and `c`.
pub open spec fn first_set<A>(a: Option<A>, b: Option<A>, c: Option<A>) -> Option<A> {
    if a is Some {
        a
    } else if b is Some {
        b
    } else {
        c
    }
}

/// A theme with every entry as a value: strings as their characters.
pub ghost struct ThemeModel {
    pub title: Option<Seq<char>>,
    pub title_bold: Option<bool>,
    pub title_italic: Option<bool>,
    pub background: Option<Seq<char>>,
    pub left_background: Option<Seq<char>>,
    pub border: Option<Seq<char>>,
    pub text: Option<Seq<char>>,
    pub text_bold: Option<bool>,
    pub text_italic: Option<bool>,
    pub text_em: Option<Seq<char>>,
    pub text_em_bold: Option<bool>,
    pub text_em_italic: Option<bool>,
    pub date: Option<Seq<char>>,
    pub date_bold: Option<bool>,
    pub date_italic: Option<bool>,
    pub path: Option<Seq<char>>,
    pub path_bold: Option<bool>,
    pub path_italic: Option<bool>,
    pub highlight: Option<Seq<char>>,
    pub shortcut_name: Option<Seq<char>>,
    pub shortcut_name_bold: Option<bool>,
    pub shortcut_name_italic: Option<bool>,
    pub header_fg: Option<Seq<char>>,
    pub header_bg: Option<Seq<char>>,
    pub description: Option<Seq<char>>,
    pub description_bold: Option<bool>,
    pub description_italic: Option<bool>,
    pub free_text_area_bg: Option<Seq<char>>,
    pub home_tilde: Option<Seq<char>>,
    pub home_tilde_bold: Option<bool>,
    pub home_tilde_italic: Option<bool>,
}

impl View for Theme {
    type V = ThemeModel;

    open spec fn view(&self) -> ThemeModel {
        ThemeModel {
            title: opt_text(self.title),
            title_bold: self.title_bold,
            title_italic: self.title_italic,
            background: opt_text(self.background),
            left_background: opt_text(self.left_background),
            border: opt_text(self.border),
            text: opt_text(self.text),
            text_bold: self.text_bold,
            text_italic: self.text_italic,
            text_em: opt_text(self.text_em),
            text_em_bold: self.text_em_bold,
            text_em_italic: self.text_em_italic,
            date: opt_text(self.date),
            date_bold: self.date_bold,
            date_italic: self.date_italic,
            path: opt_text(self.path),
            path_bold: self.path_bold,
            path_italic: self.path_italic,
            highlight: opt_text(self.highlight),
            shortcut_name: opt_text(self.shortcut_name),
            shortcut_name_bold: self.shortcut_name_bold,
            shortcut_name_italic: self.shortcut_name_italic,
            header_fg: opt_text(self.header_fg),
            header_bg: opt_text(self.header_bg),
            description: opt_text(self.description),
            description_bold: self.description_bold,
            description_italic: self.description_italic,
            free_text_area_bg: opt_text(self.free_text_area_bg),
            home_tilde: opt_text(self.home_tilde),
            home_tilde_bold: self.home_tilde_bold,
            home_tilde_italic: self.home_tilde_italic,
        }
    }
}

/// The built-in default theme.
pub open spec fn default_theme() -> ThemeModel {
    ThemeModel {
        title: Some("#1d5cba"@),
        title_bold: None,
        title_italic: None,
        background: Some("#ffffff"@),
        left_background: None,
        border: Some("#cccccc"@),
        text: Some("#2a2a2a"@),
        text_bold: None,
        text_italic: None,
        text_em: Some("#009dc8"@),
        text_em_bold: None,
        text_em_italic: None,
        date: Some("#888888"@),
        date_bold: None,
        date_italic: None,
        path: Some("#2a2929"@),
        path_bold: None,
        path_italic: None,
        highlight: Some("#fbe9a4"@),
        shortcut_name: Some("#00aa00"@),
        shortcut_name_bold: None,
        shortcut_name_italic: None,
        header_fg: Some("#ffffff"@),
        header_bg: Some("#2741b7"@),
        description: Some("#808080"@),
        description_bold: None,
        description_italic: None,
        free_text_area_bg: Some("#f2f2f2"@),
        home_tilde: Some("#888888"@),
        home_tilde_bold: None,
        home_tilde_italic: None,
    }
}

/// Each entry taken from `a`, else from `b`, else from the default theme.
pub open spec fn merged(a: ThemeModel, b: ThemeModel) -> ThemeModel {
    let d = default_theme();
    ThemeModel {
        title: first_set(a.title, b.title, d.title),
        title_bold: first_set(a.title_bold, b.title_bold, d.title_bold),
        title_italic: first_set(a.title_italic, b.title_italic, d.title_italic),
        background: first_set(a.background, b.background, d.background),
        left_background: first_set(a.left_background, b.left_background, d.left_background),
        border: first_set(a.border, b.border, d.border),
        text: first_set(a.text, b.text, d.text),
        text_bold: first_set(a.text_bold, b.text_bold, d.text_bold),
        text_italic: first_set(a.text_italic, b.text_italic, d.text_italic),
        text_em: first_set(a.text_em, b.text_em, d.text_em),
        text_em_bold: first_set(a.text_em_bold, b.text_em_bold, d.text_em_bold),
        text_em_italic: first_set(a.text_em_italic, b.text_em_italic, d.text_em_italic),
        date: first_set(a.date, b.date, d.date),
        date_bold: first_set(a.date_bold, b.date_bold, d.date_bold),
        date_italic: first_set(a.date_italic, b.date_italic, d.date_italic),
        path: first_set(a.path, b.path, d.path),
        path_bold: first_set(a.path_bold, b.path_bold, d.path_bold),
        path_italic: first_set(a.path_italic, b.path_italic, d.path_italic),
        highlight: first_set(a.highlight, b.highlight, d.highlight),
        shortcut_name: first_set(a.shortcut_name, b.shortcut_name, d.shortcut_name),
        shortcut_name_bold: first_set(a.shortcut_name_bold, b.shortcut_name_bold, d.shortcut_name_bold),
        shortcut_name_italic: first_set(a.shortcut_name_italic, b.shortcut_name_italic, d.shortcut_name_italic),
        header_fg: first_set(a.header_fg, b.header_fg, d.header_fg),
        header_bg: first_set(a.header_bg, b.header_bg, d.header_bg),
        description: first_set(a.description, b.description, d.description),
        description_bold: first_set(a.description_bold, b.description_bold, d.description_bold),
        description_italic: first_set(a.description_italic, b.description_italic, d.description_italic),
        free_text_area_bg: first_set(a.free_text_area_bg, b.free_text_area_bg, d.free_text_area_bg),
        home_tilde: first_set(a.home_tilde, b.home_tilde, d.home_tilde),
        home_tilde_bold: first_set(a.home_tilde_bold, b.home_tilde_bold, d.home_tilde_bold),
        home_tilde_italic: first_set(a.home_tilde_italic, b.home_tilde_italic, d.home_tilde_italic),
    }
}

fn text(s: &str) -> (r: Option<String>)
    ensures
        opt_text(r) == Some(s@),
{
    Some(s.to_owned())
}

fn first_text(a: &Option<String>, b: &Option<String>, c: Option<String>) -> (r: Option<String>)
    ensures
        opt_text(r) == first_set(opt_text(*a), opt_text(*b), opt_text(c)),
{
    match a {
        Some(s) => Some(s.clone()),
        None => match b {
            Some(s) => Some(s.clone()),
            None => c,
        },
    }
}

fn first_flag(a: Option<bool>, b: Option<bool>, c: Option<bool>) -> (r: Option<bool>)
    ensures
        r == first_set(a, b, c),
{
    match a {
        Some(_) => a,
        None => match b {
            Some(_) => b,
            None => c,
        },
    }
}

impl Default for Theme {
    fn default() -> (r: Self)
        ensures
            r@ == default_theme(),
    {
        Theme {
            title: text("#1d5cba"),
            title_bold: None,
            title_italic: None,
            background: text("#ffffff"),
            left_background: None,
            border: text("#cccccc"),
            text: text("#2a2a2a"),
            text_bold: None,
            text_italic: None,
            text_em: text("#009dc8"),
            text_em_bold: None,
            text_em_italic: None,
            date: text("#888888"),
            date_bold: None,
            date_italic: None,
            path: text("#2a2929"),
            path_bold: None,
            path_italic: None,
            highlight: text("#fbe9a4"),
            shortcut_name: text("#00aa00"),
            shortcut_name_bold: None,
            shortcut_name_italic: None,
            header_fg: text("#ffffff"),
            header_bg: text("#2741b7"),
            description: text("#808080"),
            description_bold: None,
            description_italic: None,
            free_text_area_bg: text("#f2f2f2"),
            home_tilde: text("#888888"),
            home_tilde_bold: None,
            home_tilde_italic: None,
        }
    }
}

impl Theme {
    /// A new theme whose every entry comes from `self`, or from `theme` when
    /// `self` leaves it unset, or from the default theme when both do.
    pub fn merge(&self, theme: &Theme) -> (r: Theme)
        ensures
            r@ == merged(self@, theme@),
    {
        let d = Theme::default();
        Theme {
            title: first_text(&self.title, &theme.title, d.title),
            title_bold: first_flag(self.title_bold, theme.title_bold, d.title_bold),
            title_italic: first_flag(self.title_italic, theme.title_italic, d.title_italic),
            background: first_text(&self.background, &theme.background, d.background),
            left_background: first_text(&self.left_background, &theme.left_background, d.left_background),
            border: first_text(&self.border, &theme.border, d.border),
            text: first_text(&self.text, &theme.text, d.text),
            text_bold: first_flag(self.text_bold, theme.text_bold, d.text_bold),
            text_italic: first_flag(self.text_italic, theme.text_italic, d.text_italic),
            text_em: first_text(&self.text_em, &theme.text_em, d.text_em),
            text_em_bold: first_flag(self.text_em_bold, theme.text_em_bold, d.text_em_bold),
            text_em_italic: first_flag(self.text_em_italic, theme.text_em_italic, d.text_em_italic),
            date: first_text(&self.date, &theme.date, d.date),
            date_bold: first_flag(self.date_bold, theme.date_bold, d.date_bold),
            date_italic: first_flag(self.date_italic, theme.date_italic, d.date_italic),
            path: first_text(&self.path, &theme.path, d.path),
            path_bold: first_flag(self.path_bold, theme.path_bold, d.path_bold),
            path_italic: first_flag(self.path_italic, theme.path_italic, d.path_italic),
            highlight: first_text(&self.highlight, &theme.highlight, d.highlight),
            shortcut_name: first_text(&self.shortcut_name, &theme.shortcut_name, d.shortcut_name),
            shortcut_name_bold: first_flag(self.shortcut_name_bold, theme.shortcut_name_bold, d.shortcut_name_bold),
            shortcut_name_italic: first_flag(self.shortcut_name_italic, theme.shortcut_name_italic, d.shortcut_name_italic),
            header_fg: first_text(&self.header_fg, &theme.header_fg, d.header_fg),
            header_bg: first_text(&self.header_bg, &theme.header_bg, d.header_bg),
            description: first_text(&self.description, &theme.description, d.description),
            description_bold: first_flag(self.description_bold, theme.description_bold, d.description_bold),
            description_italic: first_flag(self.description_italic, theme.description_italic, d.description_italic),
            free_text_area_bg: first_text(&self.free_text_area_bg, &theme.free_text_area_bg, d.free_text_area_bg),
            home_tilde: first_text(&self.home_tilde, &theme.home_tilde, d.home_tilde),
            home_tilde_bold: first_flag(self.home_tilde_bold, theme.home_tilde_bold, d.home_tilde_bold),
            home_tilde_italic: first_flag(self.home_tilde_italic, theme.home_tilde_italic, d.home_tilde_italic),
        }
    }
}

/// The colour mode of the terminal, as detected: `Unknown` when the
/// detection failed or could not tell.
#[derive(Debug, Clone, Copy, PartialEq, Eq, Structural)]
pub enum ColorMode {
    Dark,
    Light,
    Unknown,
}

/// Which configured theme applies.
#[derive(Debug, Clone, Copy, PartialEq, Eq, Structural)]
pub enum ThemeChoice {
    /// The theme named `theme` with the inline `inline_theme`.
    Regular,
    /// `theme_dark` with `inline_theme_dark`.
    Dark,
    /// `theme_light` with `inline_theme_light`.
    Light,
}

/// The dark or light theme applies when both are configured and the mode
/// was detected; else the regular one.
pub open spec fn spec_choose_theme(has_dark: bool, has_light: bool, mode: ColorMode) -> ThemeChoice {
    if !(has_dark && has_light) {
        ThemeChoice::Regular
    } else {
        match mode {
            ColorMode::Dark => ThemeChoice::Dark,
            ColorMode::Light => ThemeChoice::Light,
            ColorMode::Unknown => ThemeChoice::Regular,
        }
    }
}

/// Which theme applies, given whether a dark and a light theme are named in
/// the configuration and the detected colour mode.
pub fn choose_theme(has_dark: bool, has_light: bool, mode: ColorMode) -> (r: ThemeChoice)
    ensures
        r == spec_choose_theme(has_dark, has_light, mode),
{
    if !(has_dark && has_light) {
        return ThemeChoice::Regular;
    }
    match mode {
        ColorMode::Dark => ThemeChoice::Dark,
        ColorMode::Light => ThemeChoice::Light,
        ColorMode::Unknown => ThemeChoice::Regular,
    }
}

/// The theme in use: the inline entries first, then those of the theme file
/// that was loaded, if any, then the default theme.
pub open spec fn layered(inline: ThemeModel, loaded: Option<ThemeModel>) -> ThemeModel {
    merged(
        inline,
        match loaded {
            Some(t) => merged(t, default_theme()),
            None => default_theme(),
        },
    )
}

/// The theme in use, from the inline entries of the configuration and the
/// theme file that was loaded, if any.
pub fn layered_theme(inline: &Theme, loaded: Option<&Theme>) -> (r: Theme)
    ensures
        r@ == layered(inline@, match loaded {
            Some(t) => Some(t@),
            None => None,
        }),
{
    let mut external = Theme::default();
    if let Some(t) = loaded {
        external = t.merge(&external);
    }
    inline.merge(&external)
}

/// An entry of a merge: the entry of the first theme when it sets one, else
/// that of the second when it sets one, else the fallback.
pub open spec fn takes_first_set<A>(own: Option<A>, other: Option<A>, fallback: Option<A>, result: Option<A>) -> bool {
    &&& own is Some ==> result == own
    &&& (own is None && other is Some) ==> result == other
    &&& (own is None && other is None) ==> result == fallback
}

/// In a merge, every entry that the first theme sets wins; an entry it
/// leaves unset comes from the second theme, and one that both leave unset
/// from the default theme. This holds of each entry of the theme.
pub proof fn law_merge_prefers_own_entries(a: ThemeModel, b: ThemeModel)
    ensures
        ({
            let m = merged(a, b);
            let d = default_theme();
            &&& takes_first_set(a.title, b.title, d.title, m.title)
            &&& takes_first_set(a.title_bold, b.title_bold, d.title_bold, m.title_bold)
            &&& takes_first_set(a.title_italic, b.title_italic, d.title_italic, m.title_italic)
            &&& takes_first_set(a.background, b.background, d.background, m.background)
            &&& takes_first_set(a.left_background, b.left_background, d.left_background, m.left_background)
            &&& takes_first_set(a.border, b.border, d.border, m.border)
            &&& takes_first_set(a.text, b.text, d.text, m.text)
            &&& takes_first_set(a.text_bold, b.text_bold, d.text_bold, m.text_bold)
            &&& takes_first_set(a.text_italic, b.text_italic, d.text_italic, m.text_italic)
            &&& takes_first_set(a.text_em, b.text_em, d.text_em, m.text_em)
            &&& takes_first_set(a.text_em_bold, b.text_em_bold, d.text_em_bold, m.text_em_bold)
            &&& takes_first_set(a.text_em_italic, b.text_em_italic, d.text_em_italic, m.text_em_italic)
            &&& takes_first_set(a.date, b.date, d.date, m.date)
            &&& takes_first_set(a.date_bold, b.date_bold, d.date_bold, m.date_bold)
            &&& takes_first_set(a.date_italic, b.date_italic, d.date_italic, m.date_italic)
            &&& takes_first_set(a.path, b.path, d.path, m.path)
            &&& takes_first_set(a.path_bold, b.path_bold, d.path_bold, m.path_bold)
            &&& takes_first_set(a.path_italic, b.path_italic, d.path_italic, m.path_italic)
            &&& takes_first_set(a.highlight, b.highlight, d.highlight, m.highlight)
            &&& takes_first_set(a.shortcut_name, b.shortcut_name, d.shortcut_name, m.shortcut_name)
            &&& takes_first_set(a.shortcut_name_bold, b.shortcut_name_bold, d.shortcut_name_bold, m.shortcut_name_bold)
            &&& takes_first_set(a.shortcut_name_italic, b.shortcut_name_italic, d.shortcut_name_italic, m.shortcut_name_italic)
            &&& takes_first_set(a.header_fg, b.header_fg, d.header_fg, m.header_fg)
            &&& takes_first_set(a.header_bg, b.header_bg, d.header_bg, m.header_bg)
            &&& takes_first_set(a.description, b.description, d.description, m.description)
            &&& takes_first_set(a.description_bold, b.description_bold, d.description_bold, m.description_bold)
            &&& takes_first_set(a.description_italic, b.description_italic, d.description_italic, m.description_italic)
            &&& takes_first_set(a.free_text_area_bg, b.free_text_area_bg, d.free_text_area_bg, m.free_text_area_bg)
            &&& takes_first_set(a.home_tilde, b.home_tilde, d.home_tilde, m.home_tilde)
            &&& takes_first_set(a.home_tilde_bold, b.home_tilde_bold, d.home_tilde_bold, m.home_tilde_bold)
            &&& takes_first_set(a.home_tilde_italic, b.home_tilde_italic, d.home_tilde_italic, m.home_tilde_italic)
        }),
{
}

/// Merging a second time with the same theme changes nothing.
pub proof fn law_merge_idempotent(a: ThemeModel, b: ThemeModel)
    ensures
        merged(merged(a, b), b) == merged(a, b),
{
}

/// Every entry that `a` sets is kept by a merge, and every entry that neither
/// theme sets comes from the default theme.
pub proof fn law_merge_keeps_set_entries(a: ThemeModel, b: ThemeModel)
    ensures
        a.title is Some ==> merged(a, b).title == a.title,
        a.path is Some ==> merged(a, b).path == a.path,
        (a.path is None && b.path is None) ==> merged(a, b).path == default_theme().path,
        merged(a, b).title is Some,
        merged(a, b).path is Some,
{
}

/// Merging the default theme into itself gives the default theme.
pub proof fn law_default_merge_default()
    ensures
        merged(default_theme(), default_theme()) == default_theme(),
{
}

} // verus!
