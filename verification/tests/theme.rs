use cdir::theme::{choose_theme, layered_theme, ColorMode, Theme, ThemeChoice};
use cdir::tui::view::ManagerAction;

#[test]
fn merge_prefers_own_then_other_then_default() {
    let mut own = Theme::default();
    own.title = None;
    own.path = Some("#000001".to_string());
    let mut other = Theme::default();
    other.title = Some("#000002".to_string());
    other.path = Some("#000003".to_string());
    let merged = own.merge(&other);
    assert_eq!(merged.title, Some("#000002".to_string()));
    assert_eq!(merged.path, Some("#000001".to_string()));

    let mut none = Theme::default();
    none.date = None;
    let mut none2 = Theme::default();
    none2.date = None;
    assert_eq!(none.merge(&none2).date, Theme::default().date);
    assert_eq!(merged.merge(&other), merged);
}

#[test]
fn default_merged_with_itself() {
    assert_eq!(Theme::default().merge(&Theme::default()), Theme::default());
}

#[test]
fn manager_actions() {
    let mut a = ManagerAction::new(true);
    assert!(a.redraw() && !a.resize() && !a.close());
    a.merge(&ManagerAction::new(false).with_close(true));
    assert!(a.redraw() && a.close());
    let b = ManagerAction::new(false).with_resize(true).with_close(false);
    assert!(b.resize() && !b.close() && !b.redraw());
}

#[test]
fn theme_choice_follows_the_mode_when_both_are_named() {
    assert_eq!(choose_theme(true, true, ColorMode::Dark), ThemeChoice::Dark);
    assert_eq!(choose_theme(true, true, ColorMode::Light), ThemeChoice::Light);
    assert_eq!(choose_theme(true, true, ColorMode::Unknown), ThemeChoice::Regular);
    assert_eq!(choose_theme(true, false, ColorMode::Dark), ThemeChoice::Regular);
    assert_eq!(choose_theme(false, true, ColorMode::Light), ThemeChoice::Regular);
}

#[test]
fn layered_theme_prefers_inline_then_file_then_default() {
    let mut inline = Theme::default();
    inline.title = Some("#000001".to_string());
    inline.path = None;
    inline.date = None;
    let mut file = Theme::default();
    file.path = Some("#000002".to_string());
    file.date = None;
    let t = layered_theme(&inline, Some(&file));
    assert_eq!(t.title, Some("#000001".to_string()));
    assert_eq!(t.path, Some("#000002".to_string()));
    assert_eq!(t.date, Theme::default().date);
    let t = layered_theme(&inline, None);
    assert_eq!(t.path, Theme::default().path);
}
