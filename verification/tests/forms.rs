use cdir::config_view::{
    count_text, saved_count, setting_changes, switch_text, ConfigCommand, ConfigField, ConfigForm,
    SettingChange, SettingKey, SettingValue, Settings, patched_config_text, ConfigPatchError,
};
use cdir::confirmation::{
    centered_message_text, confirmation_area, message_line_widths, Confirmation, ConfirmationButton,
};
use cdir::help;
use cdir::shortcut_editor::{edited_values, EditorCommand, EditorField, EditorForm};
use cdir::tui::keys::{Key, KeyPress};
use cdir::tui::layout::Rect;
use cdir::tui::view::{EventCaptured, ManagerAction};

fn key(code: Key) -> KeyPress {
    KeyPress { code, shift: false, control: false, other_modifiers: false }
}

#[test]
fn config_fields_cycle() {
    let mut form = ConfigForm::new(false, true);
    let order = [
        ConfigField::PathSearchCheckbox,
        ConfigField::CountField,
        ConfigField::YesButton,
        ConfigField::CancelButton,
        ConfigField::Checkbox,
    ];
    for want in order {
        let (cmd, captured, action) = form.handle_key_event(key(Key::Tab), 0);
        assert_eq!(cmd, ConfigCommand::Nothing);
        assert_eq!(captured, EventCaptured::Yes);
        assert_eq!(action, ManagerAction::new(true));
        assert_eq!(form.selected_field, want);
    }
    form.handle_key_event(key(Key::Up), 0);
    assert_eq!(form.selected_field, ConfigField::CancelButton);
    form.handle_key_event(key(Key::Down), 0);
    assert_eq!(form.selected_field, ConfigField::Checkbox);
}

#[test]
fn config_switches_and_buttons() {
    let mut form = ConfigForm::new(false, true);
    form.handle_key_event(key(Key::Char(' ')), 0);
    assert!(form.smart_suggestions_active);
    form.handle_key_event(key(Key::Enter), 0);
    assert!(!form.smart_suggestions_active);
    form.handle_key_event(key(Key::Tab), 0);
    form.handle_key_event(key(Key::Char(' ')), 0);
    assert!(!form.path_search_include_shortcuts);
    form.handle_key_event(key(Key::Tab), 0);
    form.handle_key_event(key(Key::Enter), 0);
    assert_eq!(form.selected_field, ConfigField::YesButton);
    form.handle_key_event(key(Key::Left), 0);
    assert_eq!(form.selected_field, ConfigField::CancelButton);
    let (cmd, _, action) = form.handle_key_event(key(Key::Enter), 0);
    assert_eq!(cmd, ConfigCommand::Cancel);
    assert!(action.close);
    form.handle_key_event(key(Key::Right), 0);
    let (cmd, _, action) = form.handle_key_event(key(Key::Enter), 0);
    assert_eq!(cmd, ConfigCommand::Save);
    assert!(action.close && action.redraw);
    let (cmd, _, _) = form.handle_key_event(key(Key::Esc), 0);
    assert_eq!(cmd, ConfigCommand::Cancel);
}

#[test]
fn config_count_field_keys() {
    let mut form = ConfigForm::new(true, true);
    form.selected_field = ConfigField::CountField;
    assert_eq!(form.handle_key_event(key(Key::Char('7')), 1).0, ConfigCommand::EditCount);
    assert_eq!(form.handle_key_event(key(Key::Char('7')), 2).0, ConfigCommand::Nothing);
    assert_eq!(form.handle_key_event(key(Key::Char('x')), 0).0, ConfigCommand::Nothing);
    assert_eq!(form.handle_key_event(key(Key::Char(' ')), 0).0, ConfigCommand::Nothing);
    assert_eq!(form.handle_key_event(key(Key::Backspace), 2).0, ConfigCommand::EditCount);
    assert_eq!(form.handle_key_event(key(Key::Left), 2).0, ConfigCommand::EditCount);
    assert_eq!(form.handle_key_event(key(Key::End), 2).0, ConfigCommand::EditCount);
    assert_eq!(form.selected_field, ConfigField::CountField);
    form.selected_field = ConfigField::Checkbox;
    assert_eq!(form.handle_key_event(key(Key::Backspace), 0).0, ConfigCommand::Nothing);
}

#[test]
fn config_texts() {
    assert_eq!(switch_text(true, "Smart suggestions"), "[X]  Smart suggestions");
    assert_eq!(switch_text(false, "Include shortcuts in path search"), "[ ]  Include shortcuts in path search");
    assert_eq!(count_text("3"), "[ 3] Smart suggestions count");
    assert_eq!(count_text("12"), "[12] Smart suggestions count");
    assert_eq!(count_text(""), "[  ] Smart suggestions count");
    assert_eq!(count_text("123"), "[123] Smart suggestions count");
    assert_eq!(saved_count(3, "12"), 12);
    assert_eq!(saved_count(3, "x"), 3);
    assert_eq!(saved_count(3, ""), 3);
}

#[test]
fn editor_keys() {
    let mut form = EditorForm::new();
    assert_eq!(form.handle_key_event(key(Key::Char('a'))).0, EditorCommand::EditName);
    assert_eq!(form.handle_key_event(key(Key::Left)).0, EditorCommand::EditName);
    form.handle_key_event(key(Key::Tab));
    assert_eq!(form.selected_field, EditorField::Description);
    assert_eq!(form.handle_key_event(key(Key::Char('a'))).0, EditorCommand::EditDescription);
    form.handle_key_event(key(Key::Tab));
    assert_eq!(form.selected_field, EditorField::YesButton);
    form.handle_key_event(key(Key::Right));
    assert_eq!(form.selected_field, EditorField::CancelButton);
    let (cmd, captured, action) = form.handle_key_event(key(Key::Enter));
    assert_eq!(cmd, EditorCommand::Close);
    assert_eq!(captured, EventCaptured::Yes);
    assert_eq!(action, ManagerAction { redraw: false, resize: false, close: true });
    form.handle_key_event(key(Key::BackTab));
    assert_eq!(form.selected_field, EditorField::YesButton);
    assert_eq!(form.handle_key_event(key(Key::Enter)).0, EditorCommand::Save);
    let (cmd, _, action) = form.handle_key_event(key(Key::Esc));
    assert_eq!(cmd, EditorCommand::Close);
    assert!(action.close && !action.redraw);
}

#[test]
fn editor_values() {
    let name = vec!["home".to_string(), "ignored".to_string()];
    let description = vec!["my home".to_string()];
    assert_eq!(edited_values(&name, &description), ("home".to_string(), Some("my home".to_string())));
    assert_eq!(edited_values(&vec![], &vec![]), (String::new(), None));
}

#[test]
fn confirmation_answers() {
    let mut c = Confirmation::new("Deletion of?\n/tmp".to_string());
    assert_eq!(c.selected, ConfirmationButton::Yes);
    assert!(c.handle_event(None));
    assert!(c.handle_event(Some(key(Key::Tab))));
    assert_eq!(c.selected, ConfirmationButton::Cancel);
    assert!(!c.handle_event(Some(key(Key::Enter))));
    assert_eq!(c.result, Some(false));
    assert!(!c.is_yes());
    c.initialize();
    assert!(c.result.is_none());
    assert!(!c.handle_event(Some(key(Key::Char(' ')))));
    assert!(c.is_yes());
    c.initialize();
    assert!(!c.handle_event(Some(key(Key::Esc))));
    assert_eq!(c.result, Some(false));
    assert!(c.handle_event(Some(key(Key::Char('x')))));
}

#[test]
fn confirmation_layout() {
    assert_eq!(message_line_widths("Deletion of?\n/tmp"), vec![12, 4]);
    assert_eq!(message_line_widths("a\r\nbc\n"), vec![1, 2]);
    assert_eq!(message_line_widths(""), Vec::<usize>::new());
    assert_eq!(message_line_widths("x\n\ny\r"), vec![1, 0, 2]);
    assert_eq!(
        "x\n\ny\r".lines().map(|l| l.chars().count()).collect::<Vec<_>>(),
        message_line_widths("x\n\ny\r")
    );
    let area = Rect::new(0, 0, 80, 24);
    assert_eq!(confirmation_area(area, "short"), Some(Rect::new(24, 8, 32, 7)));
    let long = "x".repeat(40);
    assert_eq!(confirmation_area(area, &long), Some(Rect::new(16, 8, 48, 7)));
    assert_eq!(confirmation_area(Rect::new(0, 0, 20, 24), "short"), None);
    assert_eq!(confirmation_area(Rect::new(0, 0, 80, 5), "short"), None);
    assert_eq!(centered_message_text("a\nb", 6), "\n\na\nb");
    assert_eq!(centered_message_text("a\nb", 2), "a\nb");
}

#[test]
fn help_keys() {
    for code in [Key::Esc, Key::Enter, Key::Char('q')] {
        let (captured, action) = help::handle_key_event(key(code));
        assert_eq!(captured, EventCaptured::Yes);
        assert_eq!(action, ManagerAction { redraw: false, resize: false, close: true });
    }
    let (_, action) = help::handle_key_event(key(Key::Char('x')));
    assert_eq!(action, ManagerAction::new(false));
}

fn settings(active: bool, count: usize, depth: usize, with_shortcuts: bool) -> Settings {
    Settings {
        smart_suggestions_active: active,
        smart_suggestions_count: count,
        smart_suggestions_depth: depth,
        path_search_include_shortcuts: with_shortcuts,
    }
}

#[test]
fn setting_changes_only_what_differs() {
    let file = settings(true, 5, 1000, true);
    let current = settings(false, 7, 1000, true);
    let changes = setting_changes(&file, &current);
    assert_eq!(
        changes,
        vec![
            SettingChange { key: SettingKey::SmartSuggestionsActive, value: SettingValue::Flag(false) },
            SettingChange { key: SettingKey::SmartSuggestionsCount, value: SettingValue::Number(7) },
        ]
    );
    assert_eq!(changes[0].key.name(), "smart_suggestions_active");
    assert_eq!(changes[1].key.name(), "smart_suggestions_count");
    assert_eq!(SettingKey::SmartSuggestionsDepth.name(), "smart_suggestions_depth");
    assert_eq!(SettingKey::PathSearchIncludeShortcuts.name(), "path_search_include_shortcuts");
}

#[test]
fn setting_changes_none_when_equal() {
    let s = settings(true, 5, 1000, false);
    assert!(setting_changes(&s, &s).is_empty());
}

#[test]
fn setting_changes_bring_file_to_current() {
    let file = settings(true, 5, 1000, true);
    let current = settings(false, 9, 20, false);
    let mut s = file;
    for change in setting_changes(&file, &current) {
        match (change.key, change.value) {
            (SettingKey::SmartSuggestionsActive, SettingValue::Flag(b)) => s.smart_suggestions_active = b,
            (SettingKey::SmartSuggestionsCount, SettingValue::Number(n)) => s.smart_suggestions_count = n as usize,
            (SettingKey::SmartSuggestionsDepth, SettingValue::Number(n)) => s.smart_suggestions_depth = n as usize,
            (SettingKey::PathSearchIncludeShortcuts, SettingValue::Flag(b)) => {
                s.path_search_include_shortcuts = b
            }
            _ => panic!("a key with a value of the wrong kind"),
        }
    }
    assert_eq!(s, current);
}

#[test]
fn config_text_patched_in_place() {
    let source = "# my settings\ntheme: default\nsmart_suggestions_active: true # on\n";
    let file = settings(true, 5, 1000, true);
    let current = settings(false, 7, 1000, true);
    let text = patched_config_text(source, &file, &current).unwrap().unwrap();
    assert!(text.contains("# my settings"));
    assert!(text.contains("theme: default"));
    assert!(text.contains("smart_suggestions_active: false"));
    assert!(!text.contains("smart_suggestions_active: true"));
    assert!(text.contains("smart_suggestions_count: 7"));
    assert!(!text.contains("smart_suggestions_depth"));
}

#[test]
fn config_text_unchanged_or_refused() {
    let source = "theme: default\n";
    let s = settings(true, 5, 1000, true);
    assert_eq!(patched_config_text(source, &s, &s), Ok(None));
    assert_eq!(patched_config_text("a: [1, 2\n", &s, &s), Err(ConfigPatchError::InvalidYaml));
}
