//! The configuration dialog: which field is selected, what each key does to
//! it, and the lines it shows.
use vstd::prelude::*;
use crate::text::{parse_decimal, parsed_decimal};
use crate::tui::keys::{Key, KeyPress};
use crate::tui::view::{EventCaptured, ManagerAction};
use vstd::string::*;
use serde::de::IntoDeserializer;
use serde::Deserialize;
use serde::de::value::Error as ValueError;
use yamlpatch::{apply_yaml_patches, Op, Patch};
use yamlpath::{Document, Route};

verus! {

/// The fields of the dialog, in the order of the tab key.
#[derive(Debug, Clone, Copy, PartialEq, Eq, Structural)]
pub enum ConfigField {
    Checkbox,
    PathSearchCheckbox,
    CountField,
    YesButton,
    CancelButton,
}

/// The field after `f` in the order of the tab key, the last one wrapping
/// to the first.
pub open spec fn next_field(f: ConfigField) -> ConfigField {
    match f {
        ConfigField::Checkbox => ConfigField::PathSearchCheckbox,
        ConfigField::PathSearchCheckbox => ConfigField::CountField,
        ConfigField::CountField => ConfigField::YesButton,
        ConfigField::YesButton => ConfigField::CancelButton,
        ConfigField::CancelButton => ConfigField::Checkbox,
    }
}

/// The field before `f`, the first one wrapping to the last.
pub open spec fn previous_field(f: ConfigField) -> ConfigField {
    match f {
        ConfigField::Checkbox => ConfigField::CancelButton,
        ConfigField::PathSearchCheckbox => ConfigField::Checkbox,
        ConfigField::CountField => ConfigField::PathSearchCheckbox,
        ConfigField::YesButton => ConfigField::CountField,
        ConfigField::CancelButton => ConfigField::YesButton,
    }
}

/// What the dialog asks of its owner after a key.
#[derive(Debug, Clone, Copy, PartialEq, Eq, Structural)]
pub enum ConfigCommand {
    /// Nothing beyond the new state.
    Nothing,
    /// Hand the key to the count field's text editor.
    EditCount,
    /// Save the settings and close.
    Save,
    /// Close without saving.
    Cancel,
}

/// The state of the dialog: the selected field and the two switches.
#[derive(Debug, Clone, Copy, PartialEq, Eq, Structural)]
pub struct ConfigForm {
    pub selected_field: ConfigField,
    pub smart_suggestions_active: bool,
    pub path_search_include_shortcuts: bool,
}

/// The command for a key that no rule of the dialog takes, on the count
/// field holding `count_len` bytes: digits while it holds fewer than two,
/// and the editing and moving keys, go to its editor.
pub open spec fn count_field_command(key: KeyPress, count_len: nat) -> ConfigCommand {
    match key.code {
        Key::Char(c) => if '0' <= c <= '9' && count_len < 2 {
            ConfigCommand::EditCount
        } else {
            ConfigCommand::Nothing
        },
        Key::Backspace | Key::Delete | Key::Left | Key::Right | Key::Home | Key::End => {
            ConfigCommand::EditCount
        },
        _ => ConfigCommand::Nothing,
    }
}

/// The other button selected.
pub open spec fn toggled_button(f: ConfigForm) -> ConfigForm {
    ConfigForm {
        selected_field: if f.selected_field == ConfigField::YesButton {
            ConfigField::CancelButton
        } else {
            ConfigField::YesButton
        },
        ..f
    }
}

/// The state and the command after `key`.
pub open spec fn config_step(f: ConfigForm, key: KeyPress, count_len: nat) -> (ConfigForm, ConfigCommand) {
    let on_button = f.selected_field == ConfigField::YesButton || f.selected_field
        == ConfigField::CancelButton;
    match key.code {
        Key::Esc => (f, ConfigCommand::Cancel),
        Key::Tab | Key::Down => (
            ConfigForm { selected_field: next_field(f.selected_field), ..f },
            ConfigCommand::Nothing,
        ),
        Key::BackTab | Key::Up => (
            ConfigForm { selected_field: previous_field(f.selected_field), ..f },
            ConfigCommand::Nothing,
        ),
        Key::Left if on_button => (toggled_button(f), ConfigCommand::Nothing),
        Key::Right if on_button => (toggled_button(f), ConfigCommand::Nothing),
        Key::Char(' ') if f.selected_field == ConfigField::Checkbox => (
            ConfigForm { smart_suggestions_active: !f.smart_suggestions_active, ..f },
            ConfigCommand::Nothing,
        ),
        Key::Char(' ') if f.selected_field == ConfigField::PathSearchCheckbox => (
            ConfigForm { path_search_include_shortcuts: !f.path_search_include_shortcuts, ..f },
            ConfigCommand::Nothing,
        ),
        Key::Enter => match f.selected_field {
            ConfigField::Checkbox => (
                ConfigForm { smart_suggestions_active: !f.smart_suggestions_active, ..f },
                ConfigCommand::Nothing,
            ),
            ConfigField::PathSearchCheckbox => (
                ConfigForm {
                    path_search_include_shortcuts: !f.path_search_include_shortcuts,
                    ..f
                },
                ConfigCommand::Nothing,
            ),
            ConfigField::CountField => (
                ConfigForm { selected_field: ConfigField::YesButton, ..f },
                ConfigCommand::Nothing,
            ),
            ConfigField::YesButton => (f, ConfigCommand::Save),
            ConfigField::CancelButton => (f, ConfigCommand::Cancel),
        },
        _ => (
            f,
            if f.selected_field == ConfigField::CountField {
                count_field_command(key, count_len)
            } else {
                ConfigCommand::Nothing
            },
        ),
    }
}

impl ConfigForm {
    /// The dialog with the first switch selected and the switches as set.
    pub fn new(smart_suggestions_active: bool, path_search_include_shortcuts: bool) -> (r: Self)
        ensures
            r == (ConfigForm {
                selected_field: ConfigField::Checkbox,
                smart_suggestions_active,
                path_search_include_shortcuts,
            }),
    {
        ConfigForm {
            selected_field: ConfigField::Checkbox,
            smart_suggestions_active,
            path_search_include_shortcuts,
        }
    }

    fn toggle_button(&mut self)
        ensures
            *final(self) == toggled_button(*old(self)),
    {
        self.selected_field = match self.selected_field {
            ConfigField::YesButton => ConfigField::CancelButton,
            _ => ConfigField::YesButton,
        };
    }

    /// Handles `key` while the count field holds `count_len` bytes: moves the
    /// selection, flips a switch, or asks to edit the count, save or cancel.
    /// The key is always captured; the dialog is redrawn, and closed on save
    /// or cancel.
    pub fn handle_key_event(&mut self, key: KeyPress, count_len: usize) -> (r: (
        ConfigCommand,
        EventCaptured,
        ManagerAction,
    ))
        ensures
            (*final(self), r.0) == config_step(*old(self), key, count_len as nat),
            r.1 == EventCaptured::Yes,
            r.2 == (ManagerAction {
                redraw: true,
                resize: false,
                close: r.0 == ConfigCommand::Save || r.0 == ConfigCommand::Cancel,
            }),
    {
        let on_button = match self.selected_field {
            ConfigField::YesButton | ConfigField::CancelButton => true,
            _ => false,
        };
        let command = match key.code {
            Key::Esc => ConfigCommand::Cancel,
            Key::Tab | Key::Down => {
                self.selected_field = match self.selected_field {
                    ConfigField::Checkbox => ConfigField::PathSearchCheckbox,
                    ConfigField::PathSearchCheckbox => ConfigField::CountField,
                    ConfigField::CountField => ConfigField::YesButton,
                    ConfigField::YesButton => ConfigField::CancelButton,
                    ConfigField::CancelButton => ConfigField::Checkbox,
                };
                ConfigCommand::Nothing
            },
            Key::BackTab | Key::Up => {
                self.selected_field = match self.selected_field {
                    ConfigField::Checkbox => ConfigField::CancelButton,
                    ConfigField::PathSearchCheckbox => ConfigField::Checkbox,
                    ConfigField::CountField => ConfigField::PathSearchCheckbox,
                    ConfigField::YesButton => ConfigField::CountField,
                    ConfigField::CancelButton => ConfigField::YesButton,
                };
                ConfigCommand::Nothing
            },
            Key::Left if on_button => {
                self.toggle_button();
                ConfigCommand::Nothing
            },
            Key::Right if on_button => {
                self.toggle_button();
                ConfigCommand::Nothing
            },
            Key::Char(' ') if self.selected_field == ConfigField::Checkbox => {
                self.smart_suggestions_active = !self.smart_suggestions_active;
                ConfigCommand::Nothing
            },
            Key::Char(' ') if self.selected_field == ConfigField::PathSearchCheckbox => {
                self.path_search_include_shortcuts = !self.path_search_include_shortcuts;
                ConfigCommand::Nothing
            },
            Key::Enter => match self.selected_field {
                ConfigField::Checkbox => {
                    self.smart_suggestions_active = !self.smart_suggestions_active;
                    ConfigCommand::Nothing
                },
                ConfigField::PathSearchCheckbox => {
                    self.path_search_include_shortcuts = !self.path_search_include_shortcuts;
                    ConfigCommand::Nothing
                },
                ConfigField::CountField => {
                    self.selected_field = ConfigField::YesButton;
                    ConfigCommand::Nothing
                },
                ConfigField::YesButton => ConfigCommand::Save,
                ConfigField::CancelButton => ConfigCommand::Cancel,
            },
            _ => {
                if self.selected_field == ConfigField::CountField {
                    match key.code {
                        Key::Char(c) => {
                            if '0' <= c && c <= '9' && count_len < 2 {
                                ConfigCommand::EditCount
                            } else {
                                ConfigCommand::Nothing
                            }
                        },
                        Key::Backspace | Key::Delete | Key::Left | Key::Right | Key::Home
                        | Key::End => ConfigCommand::EditCount,
                        _ => ConfigCommand::Nothing,
                    }
                } else {
                    ConfigCommand::Nothing
                }
            },
        };
        let close = match command {
            ConfigCommand::Save | ConfigCommand::Cancel => true,
            _ => false,
        };
        (command, EventCaptured::Yes, ManagerAction::new(true).with_close(close))
    }
}

/// The count of smart suggestions to save: the number written in the count
/// field, or `current` when it is not one.
pub fn saved_count(current: usize, text: &str) -> (r: usize)
    ensures
        r == match parsed_decimal(text@) {
            Some(n) => if n <= usize::MAX {
                n as usize
            } else {
                current
            },
            None => current,
        },
{
    match parse_decimal(text, usize::MAX as u64) {
        Some(n) => n as usize,
        None => current,
    }
}

/// The line of a switch: `[X]` when on, `[ ]` when off, two spaces, then
/// `label`.
pub open spec fn switch_line(on: bool, label: Seq<char>) -> Seq<char> {
    (if on {
        "[X]"@
    } else {
        "[ ]"@
    }) + "  "@ + label
}

/// The line of a switch.
pub fn switch_text(on: bool, label: &str) -> (r: String)
    ensures
        r@ == switch_line(on, label@),
{
    let mut s = if on {
        "[X]".to_owned()
    } else {
        "[ ]".to_owned()
    };
    s.append("  ");
    s.append(label);
    s
}

/// The line of the count field: the value, right-aligned on two
/// characters, in brackets, then its label.
pub open spec fn count_line(value: Seq<char>) -> Seq<char> {
    "["@ + (if value.len() < 2 {
        Seq::new((2 - value.len()) as nat, |i: int| ' ')
    } else {
        Seq::empty()
    }) + value + "] Smart suggestions count"@
}

/// The line of the count field.
pub fn count_text(value: &str) -> (r: String)
    ensures
        r@ == count_line(value@),
{
    let mut s = "[".to_owned();
    let n = crate::text::chars_of(value).len();
    let mut pad: usize = 0;
    let ghost head = s@;
    while pad + n < 2
        invariant
            s@ == head + Seq::new(pad as nat, |i: int| ' '),
            n == value@.len(),
            n < 2 ==> pad + n <= 2,
            n >= 2 ==> pad == 0,
        decreases 2 - pad - n,
    {
        crate::text::string_push(&mut s, ' ');
        pad = pad + 1;
        assert(s@ =~= head + Seq::new(pad as nat, |i: int| ' '));
    }
    s.append(value);
    s.append("] Smart suggestions count");
    assert(s@ =~= count_line(value@));
    s
}


/// The settings that the dialog changes, as the configuration file and the
/// running program each hold them.
#[derive(Debug, Clone, Copy, PartialEq, Eq, Structural)]
pub struct Settings {
    pub smart_suggestions_active: bool,
    pub smart_suggestions_count: usize,
    pub smart_suggestions_depth: usize,
    pub path_search_include_shortcuts: bool,
}

/// A key of the configuration file that the dialog may write.
#[derive(Debug, Clone, Copy, PartialEq, Eq, Structural)]
pub enum SettingKey {
    SmartSuggestionsActive,
    SmartSuggestionsCount,
    SmartSuggestionsDepth,
    PathSearchIncludeShortcuts,
}

/// A value written under a key.
#[derive(Debug, Clone, Copy, PartialEq, Eq, Structural)]
pub enum SettingValue {
    Flag(bool),
    Number(u64),
}

/// One key to write with its new value.
#[derive(Debug, Clone, Copy, PartialEq, Eq, Structural)]
pub struct SettingChange {
    pub key: SettingKey,
    pub value: SettingValue,
}

/// The name of a key in the configuration file.
pub open spec fn key_name(k: SettingKey) -> Seq<char> {
    match k {
        SettingKey::SmartSuggestionsActive => "smart_suggestions_active"@,
        SettingKey::SmartSuggestionsCount => "smart_suggestions_count"@,
        SettingKey::SmartSuggestionsDepth => "smart_suggestions_depth"@,
        SettingKey::PathSearchIncludeShortcuts => "path_search_include_shortcuts"@,
    }
}

impl SettingKey {
    /// The name of the key in the configuration file.
    pub fn name(&self) -> (r: &'static str)
        ensures
            r@ == key_name(*self),
    {
        match self {
            SettingKey::SmartSuggestionsActive => "smart_suggestions_active",
            SettingKey::SmartSuggestionsCount => "smart_suggestions_count",
            SettingKey::SmartSuggestionsDepth => "smart_suggestions_depth",
            SettingKey::PathSearchIncludeShortcuts => "path_search_include_shortcuts",
        }
    }
}

/// `change` when `differs`, else nothing.
pub open spec fn change_if(differs: bool, change: SettingChange) -> Seq<SettingChange> {
    if differs {
        seq![change]
    } else {
        Seq::empty()
    }
}

/// The keys to write so that the file holds `current`: each setting whose
/// value in the file differs, in the order of the file's keys above.
pub open spec fn spec_setting_changes(file: Settings, current: Settings) -> Seq<SettingChange> {
    change_if(
        file.smart_suggestions_active != current.smart_suggestions_active,
        SettingChange {
            key: SettingKey::SmartSuggestionsActive,
            value: SettingValue::Flag(current.smart_suggestions_active),
        },
    ) + change_if(
        file.smart_suggestions_count != current.smart_suggestions_count,
        SettingChange {
            key: SettingKey::SmartSuggestionsCount,
            value: SettingValue::Number(current.smart_suggestions_count as u64),
        },
    ) + change_if(
        file.smart_suggestions_depth != current.smart_suggestions_depth,
        SettingChange {
            key: SettingKey::SmartSuggestionsDepth,
            value: SettingValue::Number(current.smart_suggestions_depth as u64),
        },
    ) + change_if(
        file.path_search_include_shortcuts != current.path_search_include_shortcuts,
        SettingChange {
            key: SettingKey::PathSearchIncludeShortcuts,
            value: SettingValue::Flag(current.path_search_include_shortcuts),
        },
    )
}

/// The keys to write so that the configuration file, which holds `file`,
/// comes to hold `current`.
pub fn setting_changes(file: &Settings, current: &Settings) -> (r: Vec<SettingChange>)
    ensures
        r@ == spec_setting_changes(*file, *current),
{
    let mut r: Vec<SettingChange> = Vec::new();
    if file.smart_suggestions_active != current.smart_suggestions_active {
        r.push(
            SettingChange {
                key: SettingKey::SmartSuggestionsActive,
                value: SettingValue::Flag(current.smart_suggestions_active),
            },
        );
    }
    let ghost first = r@;
    if file.smart_suggestions_count != current.smart_suggestions_count {
        r.push(
            SettingChange {
                key: SettingKey::SmartSuggestionsCount,
                value: SettingValue::Number(current.smart_suggestions_count as u64),
            },
        );
    }
    let ghost second = r@;
    if file.smart_suggestions_depth != current.smart_suggestions_depth {
        r.push(
            SettingChange {
                key: SettingKey::SmartSuggestionsDepth,
                value: SettingValue::Number(current.smart_suggestions_depth as u64),
            },
        );
    }
    let ghost third = r@;
    if file.path_search_include_shortcuts != current.path_search_include_shortcuts {
        r.push(
            SettingChange {
                key: SettingKey::PathSearchIncludeShortcuts,
                value: SettingValue::Flag(current.path_search_include_shortcuts),
            },
        );
    }
    assert(r@ =~= spec_setting_changes(*file, *current));
    r
}

/// The settings after writing `change`.
pub open spec fn applied_change(s: Settings, change: SettingChange) -> Settings {
    match (change.key, change.value) {
        (SettingKey::SmartSuggestionsActive, SettingValue::Flag(b)) => Settings {
            smart_suggestions_active: b,
            ..s
        },
        (SettingKey::SmartSuggestionsCount, SettingValue::Number(n)) => Settings {
            smart_suggestions_count: n as usize,
            ..s
        },
        (SettingKey::SmartSuggestionsDepth, SettingValue::Number(n)) => Settings {
            smart_suggestions_depth: n as usize,
            ..s
        },
        (SettingKey::PathSearchIncludeShortcuts, SettingValue::Flag(b)) => Settings {
            path_search_include_shortcuts: b,
            ..s
        },
        _ => s,
    }
}

/// The settings after writing `changes` in order.
pub open spec fn applied_changes(s: Settings, changes: Seq<SettingChange>) -> Settings
    decreases changes.len(),
{
    if changes.len() == 0 {
        s
    } else {
        applied_changes(applied_change(s, changes[0]), changes.drop_first())
    }
}

proof fn lemma_applied_concat(s: Settings, a: Seq<SettingChange>, b: Seq<SettingChange>)
    ensures
        applied_changes(s, a + b) == applied_changes(applied_changes(s, a), b),
    decreases a.len(),
{
    if a.len() == 0 {
        assert(a + b =~= b);
    } else {
        assert((a + b).drop_first() =~= a.drop_first() + b);
        lemma_applied_concat(applied_change(s, a[0]), a.drop_first(), b);
    }
}

proof fn lemma_applied_one(s: Settings, differs: bool, c: SettingChange)
    ensures
        applied_changes(s, change_if(differs, c)) == if differs {
            applied_change(s, c)
        } else {
            s
        },
{
    let one = change_if(differs, c);
    if differs {
        assert(one.drop_first() =~= Seq::<SettingChange>::empty());
        assert(applied_changes(applied_change(s, c), one.drop_first()) == applied_change(s, c));
    } else {
        assert(one.len() == 0);
    }
}

/// Writing the changes that `setting_changes` gives brings the settings of
/// the file to the running ones; when they already agree there is nothing
/// to write.
pub proof fn law_changes_reach_current(file: Settings, current: Settings)
    ensures
        applied_changes(file, spec_setting_changes(file, current)) == current,
        file == current ==> spec_setting_changes(file, current).len() == 0,
{
    let c1 = change_if(
        file.smart_suggestions_active != current.smart_suggestions_active,
        SettingChange {
            key: SettingKey::SmartSuggestionsActive,
            value: SettingValue::Flag(current.smart_suggestions_active),
        },
    );
    let c2 = change_if(
        file.smart_suggestions_count != current.smart_suggestions_count,
        SettingChange {
            key: SettingKey::SmartSuggestionsCount,
            value: SettingValue::Number(current.smart_suggestions_count as u64),
        },
    );
    let c3 = change_if(
        file.smart_suggestions_depth != current.smart_suggestions_depth,
        SettingChange {
            key: SettingKey::SmartSuggestionsDepth,
            value: SettingValue::Number(current.smart_suggestions_depth as u64),
        },
    );
    let c4 = change_if(
        file.path_search_include_shortcuts != current.path_search_include_shortcuts,
        SettingChange {
            key: SettingKey::PathSearchIncludeShortcuts,
            value: SettingValue::Flag(current.path_search_include_shortcuts),
        },
    );
    lemma_applied_concat(file, c1 + c2 + c3, c4);
    lemma_applied_concat(file, c1 + c2, c3);
    lemma_applied_concat(file, c1, c2);
    let s1 = applied_changes(file, c1);
    lemma_applied_one(file, file.smart_suggestions_active != current.smart_suggestions_active, SettingChange {
        key: SettingKey::SmartSuggestionsActive,
        value: SettingValue::Flag(current.smart_suggestions_active),
    });
    let s2 = applied_changes(s1, c2);
    lemma_applied_one(s1, file.smart_suggestions_count != current.smart_suggestions_count, SettingChange {
        key: SettingKey::SmartSuggestionsCount,
        value: SettingValue::Number(current.smart_suggestions_count as u64),
    });
    let s3 = applied_changes(s2, c3);
    lemma_applied_one(s2, file.smart_suggestions_depth != current.smart_suggestions_depth, SettingChange {
        key: SettingKey::SmartSuggestionsDepth,
        value: SettingValue::Number(current.smart_suggestions_depth as u64),
    });
    lemma_applied_one(s3, file.path_search_include_shortcuts != current.path_search_include_shortcuts, SettingChange {
        key: SettingKey::PathSearchIncludeShortcuts,
        value: SettingValue::Flag(current.path_search_include_shortcuts),
    });
    assert((current.smart_suggestions_count as u64) as usize == current.smart_suggestions_count);
    assert((current.smart_suggestions_depth as u64) as usize == current.smart_suggestions_depth);
}

/// The configuration text parses as YAML (`yamlpath::Document::new`
/// succeeds on it).
pub uninterp spec fn yaml_parses(source: Seq<char>) -> bool;

/// The YAML text `source` has `key` at the top (`Document::query_exists`
/// on the route of that one key).
pub uninterp spec fn yaml_has_top_key(source: Seq<char>, key: Seq<char>) -> bool;

/// The text that `yamlpatch::apply_yaml_patches` gives for `source` and the
/// one patch that `op` stands for, or `None` when it fails.
pub uninterp spec fn yaml_patched(source: Seq<char>, op: PatchOp) -> Option<Seq<char>>;

/// A change of the configuration text: a key's value replaced where the key
/// is there, or the key added at the top with its value.
#[derive(Debug, Clone, Copy, PartialEq, Eq, Structural)]
pub enum PatchOp {
    Replace(SettingChange),
    Add(SettingChange),
}

/// Why the configuration text could not be patched.
#[derive(Debug, Clone, Copy, PartialEq, Eq, Structural)]
pub enum ConfigPatchError {
    /// The text is not YAML.
    InvalidYaml,
    /// The patch library refused a change.
    PatchFailed,
}

/// Calls `yamlpath::Document::new` on `source`: whether the text parses.
#[verifier::external_body]
fn yaml_valid(source: &str) -> (r: bool)
    ensures
        r == yaml_parses(source@),
{
    Document::new(source).is_ok()
}

/// Calls `Document::new` on `source`, then `Document::query_exists` with
/// the route of the one key `key`: `None` when the text does not parse.
#[verifier::external_body]
fn yaml_top_key_exists(source: &str, key: &str) -> (r: Option<bool>)
    ensures
        r is None <==> !yaml_parses(source@),
        r matches Some(b) ==> b == yaml_has_top_key(source@, key@),
{
    Document::new(source).ok().map(|d| d.query_exists(&Route::default().with_key(key)))
}

/// Calls `Document::new` on `source`, then `apply_yaml_patches` with the one
/// patch for `op`: `Op::Replace` of the value on the route of its key, or
/// `Op::Add` of the key and value on the empty route (the top). The flag or
/// number is handed over as the YAML boolean or number, and the result is
/// the source of the patched document.
#[verifier::external_body]
fn apply_patch_op(source: &str, op: PatchOp) -> (r: Option<String>)
    ensures
        r matches Some(t) ==> yaml_patched(source@, op) == Some(t@),
        r is None <==> yaml_patched(source@, op) is None,
{
    let value: Result<_, ValueError> = match op.change().value {
        SettingValue::Flag(b) => Deserialize::deserialize(b.into_deserializer()),
        SettingValue::Number(n) => Deserialize::deserialize(n.into_deserializer()),
    };
    let (key, value) = (op.change().key.name(), value.ok()?);
    let patch = match op {
        PatchOp::Replace(_) => Patch { route: Route::default().with_key(key), operation: Op::Replace(value) },
        PatchOp::Add(_) => Patch { route: Route::default(), operation: Op::Add { key: key.to_string(), value } },
    };
    apply_yaml_patches(&Document::new(source).ok()?, &[patch]).ok().map(|d| d.source().to_string())
}

impl PatchOp {
    /// The change the patch makes.
    pub fn change(&self) -> (r: SettingChange)
        ensures
            r == match *self {
                PatchOp::Replace(c) => c,
                PatchOp::Add(c) => c,
            },
    {
        match *self {
            PatchOp::Replace(c) => c,
            PatchOp::Add(c) => c,
        }
    }
}

/// The patch for `c` on `source`: a replacement where its key is at the
/// top, else an addition.
pub open spec fn patch_op_for(source: Seq<char>, c: SettingChange) -> PatchOp {
    if yaml_has_top_key(source, key_name(c.key)) {
        PatchOp::Replace(c)
    } else {
        PatchOp::Add(c)
    }
}

/// `source` with `ops` applied one after the other, `None` when one fails.
pub open spec fn patched_through(source: Seq<char>, ops: Seq<PatchOp>) -> Option<Seq<char>>
    decreases ops.len(),
{
    if ops.len() == 0 {
        Some(source)
    } else {
        match yaml_patched(source, ops[0]) {
            Some(t) => patched_through(t, ops.drop_first()),
            None => None,
        }
    }
}

/// What saving the settings does to the configuration text `source`, which
/// holds `file`, when the program runs with `current`: an error when the
/// text is not YAML; nothing to write when the settings agree; else the
/// text with one patch per changed setting, each decided on `source`, or an
/// error when a patch fails.
pub open spec fn config_patch(source: Seq<char>, file: Settings, current: Settings) -> Result<
    Option<Seq<char>>,
    ConfigPatchError,
> {
    if !yaml_parses(source) {
        Err(ConfigPatchError::InvalidYaml)
    } else {
        let changes = spec_setting_changes(file, current);
        if changes.len() == 0 {
            Ok(None)
        } else {
            match patched_through(source, changes.map_values(|c: SettingChange| patch_op_for(source, c))) {
                Some(t) => Ok(Some(t)),
                None => Err(ConfigPatchError::PatchFailed),
            }
        }
    }
}

/// The new configuration text when the settings of the running program,
/// `current`, are saved into `source`, whose settings are `file`: only the
/// keys whose values changed are written, so the rest of the text, comments
/// included, is left to the patch library to keep. `Ok(None)` when nothing
/// changed.
pub fn patched_config_text(source: &str, file: &Settings, current: &Settings) -> (r: Result<
    Option<String>,
    ConfigPatchError,
>)
    ensures
        match r {
            Ok(Some(t)) => config_patch(source@, *file, *current) == Ok::<Option<Seq<char>>, ConfigPatchError>(Some(t@)),
            Ok(None) => config_patch(source@, *file, *current) == Ok::<Option<Seq<char>>, ConfigPatchError>(None),
            Err(e) => config_patch(source@, *file, *current) == Err::<Option<Seq<char>>, ConfigPatchError>(e),
        },
{
    if !yaml_valid(source) {
        return Err(ConfigPatchError::InvalidYaml);
    }
    let changes = setting_changes(file, current);
    if changes.len() == 0 {
        return Ok(None);
    }
    let ghost ops = changes@.map_values(|c: SettingChange| patch_op_for(source@, c));
    let mut text = source.to_owned();
    let mut i: usize = 0;
    proof {
        assert(ops.skip(0) =~= ops);
    }
    while i < changes.len()
        invariant
            i <= changes@.len(),
            yaml_parses(source@),
            changes@ == spec_setting_changes(*file, *current),
            ops == changes@.map_values(|c: SettingChange| patch_op_for(source@, c)),
            patched_through(text@, ops.skip(i as int)) == patched_through(source@, ops),
        decreases changes@.len() - i,
    {
        let c = changes[i];
        let key = c.key.name();
        let op = match yaml_top_key_exists(source, key) {
            Some(true) => PatchOp::Replace(c),
            Some(false) => PatchOp::Add(c),
            None => {
                return Err(ConfigPatchError::InvalidYaml);
            },
        };
        let ghost rest = ops.skip(i as int);
        proof {
            assert(rest[0] == ops[i as int]);
            assert(ops[i as int] == op);
            assert(rest.drop_first() =~= ops.skip(i + 1));
        }
        match apply_patch_op(text.as_str(), op) {
            Some(t) => {
                text = t;
            },
            None => {
                proof {
                    assert(patched_through(text@, rest) is None);
                    assert(spec_setting_changes(*file, *current) == changes@);
                }
                return Err(ConfigPatchError::PatchFailed);
            },
        }
        i = i + 1;
    }
    proof {
        assert(ops.skip(i as int) =~= Seq::<PatchOp>::empty());
        assert(spec_setting_changes(*file, *current) == changes@);
    }
    Ok(Some(text))
}

/// Saving settings that the file already holds writes nothing.
pub proof fn law_unchanged_settings_write_nothing(source: Seq<char>, s: Settings)
    requires
        yaml_parses(source),
    ensures
        config_patch(source, s, s) == Ok::<Option<Seq<char>>, ConfigPatchError>(None),
{
    law_changes_reach_current(s, s);
}

/// Tab then shift-tab (or down then up) comes back to the same state.
pub proof fn law_tab_back_tab(f: ConfigForm, tab: KeyPress, back: KeyPress, count_len: nat)
    requires
        tab.code == Key::Tab || tab.code == Key::Down,
        back.code == Key::BackTab || back.code == Key::Up,
    ensures
        config_step(config_step(f, tab, count_len).0, back, count_len).0 == f,
        config_step(f, tab, count_len).1 == ConfigCommand::Nothing,
{
}

/// Pressing tab once per field comes back to the field it started from.
pub proof fn law_tab_cycles(f: ConfigField)
    ensures
        next_field(next_field(next_field(next_field(next_field(f))))) == f,
{
}

} // verus!
