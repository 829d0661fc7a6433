//! The terminal UI's state machine: screens, menu navigation, key handling,
//! the progress lines of an update and the summary of its outcome. Drawing
//! and the update tasks themselves stay with the caller, which hands in the
//! localized texts.
use crate::platform::Platform;
use crate::schema::{Schema, spec_all_schemas, spec_schema_position, lemma_schema_positions};
use crate::text::{chars_of, has_prefix, push_str_chars, starts_with_chars, string_of, str_views};
use crate::updater::UpdateResult;
use vstd::prelude::*;

verus! {

broadcast use vstd::string::group_string_axioms;

/// The screens of the terminal UI.
#[derive(Clone, Copy, Debug, PartialEq, Eq, Structural)]
pub enum AppScreen {
    Menu,
    Updating,
    Result,
    SchemeSelector,
    SkinSelector,
    ConfigView,
}

/// How an update ended.
#[derive(Clone, Copy, Debug, PartialEq, Eq, Structural)]
pub enum UpdateOutcome {
    Success,
    Partial,
    Failure,
    Cancelled,
}

/// The part of an update a progress event is about.
#[derive(Clone, Copy, Debug, PartialEq, Eq, Structural)]
pub enum UpdateComponent {
    Scheme,
    Dict,
    Model,
    ModelPatch,
    Deploy,
    Sync,
    Hook,
}

/// The stage a progress event reports.
#[derive(Clone, Copy, Debug, PartialEq, Eq, Structural)]
pub enum UpdatePhase {
    Starting,
    Checking,
    Downloading,
    Verifying,
    Extracting,
    Saving,
    Applying,
    Deploying,
    Syncing,
    Running,
    Cancelling,
    Cancelled,
    Finished,
}

/// What is updated.
#[derive(Clone, Copy, Debug, PartialEq, Eq, Structural)]
pub enum UpdateMode {
    All,
    Scheme,
    Dict,
    Model,
}

/// A key press, as the handlers see it.
#[derive(Clone, Copy, Debug, PartialEq, Eq, Structural)]
pub enum Key {
    Up,
    Down,
    Enter,
    Esc,
    Char(char),
    Other,
}

/// Why a menu entry cannot be chosen.
#[derive(Clone, Copy, Debug, PartialEq, Eq, Structural)]
pub enum Unavailable {
    /// The scheme has no dictionary of its own (entry 3).
    NoDict,
    /// Skins cannot be applied on this platform (entry 6).
    SkinNotSupported,
}

/// What the caller does after a key on the menu.
#[derive(Clone, Copy, Debug, PartialEq, Eq, Structural)]
pub enum MenuAction {
    /// Nothing more than the state change.
    Nothing,
    /// Show why the chosen entry is unavailable.
    Notify(Unavailable),
    /// Start an update.
    StartUpdate(UpdateMode),
    /// Toggle the grammar model patch and show the result.
    ToggleModelPatch,
}

/// Why an update cannot start.
#[derive(Clone, Copy, Debug, PartialEq, Eq, Structural)]
pub enum UiError {
    /// The scheme has no grammar model.
    ModelNotSupported,
    /// Skins cannot be applied on this platform.
    SkinNotSupported,
}

/// The UI state that key handling reads and changes. The progress ratio of
/// a running update is kept by the caller.
pub struct UiState {
    pub should_quit: bool,
    pub screen: AppScreen,
    pub menu_selected: usize,
    pub scheme_selected: usize,
    pub skin_selected: usize,
    pub schema: Schema,
    pub update_msg: String,
    pub update_done: bool,
    pub update_results: Vec<String>,
    pub update_stage_lines: Vec<String>,
    pub update_outcome: Option<UpdateOutcome>,
    pub update_in_progress: bool,
}

/// The number of menu entries, `1` to `8` and `Q`.
pub open spec fn menu_len() -> int {
    9
}

/// The menu position of `schema`, or 0 when it is not listed.
pub fn current_schema_index(schema: Schema) -> (r: usize)
    ensures
        r as int == spec_schema_position(schema),
        spec_all_schemas()[r as int] == schema,
{
    let all = Schema::all();
    let mut i: usize = 0;
    proof {
        lemma_schema_positions(schema);
    }
    while i < all.len()
        invariant
            0 <= i <= all.len(),
            all@ == spec_all_schemas(),
            forall|j: int| 0 <= j < i ==> all@[j] != schema,
            0 <= spec_schema_position(schema) < spec_all_schemas().len(),
            spec_all_schemas()[spec_schema_position(schema)] == schema,
        decreases all.len() - i,
    {
        if all[i] == schema {
            assert(spec_schema_position(schema) == i) by {
                if spec_schema_position(schema) < i {
                    assert(all@[spec_schema_position(schema)] != schema);
                }
            }
            return i;
        }
        i = i + 1;
    }
    assert(all@[spec_schema_position(schema)] == schema);
    0
}

/// Whether the grammar model can be updated for the scheme.
pub fn model_update_supported(schema: Schema) -> (r: bool)
    ensures
        r,
{
    schema.supports_model_patch()
}

/// The skin patch file of the platform's front end: Weasel's on Windows,
/// Squirrel's on macOS; elsewhere skins are not supported.
pub fn skin_patch_target(platform: Platform) -> (r: Result<&'static str, UiError>)
    ensures
        match platform {
            Platform::Windows => r matches Ok(f) && f@ == "weasel.custom.yaml"@,
            Platform::MacOs => r matches Ok(f) && f@ == "squirrel.custom.yaml"@,
            _ => r == Err::<&'static str, UiError>(UiError::SkinNotSupported),
        },
{
    match platform {
        Platform::Windows => Ok("weasel.custom.yaml"),
        Platform::MacOs => Ok("squirrel.custom.yaml"),
        _ => Err(UiError::SkinNotSupported),
    }
}

/// An update can start unless it is a model update for a scheme without a
/// grammar model.
pub fn resolve_update_context(mode: UpdateMode, schema: Schema) -> (r: Result<(), UiError>)
    ensures
        r is Ok,
{
    if mode == UpdateMode::Model && !model_update_supported(schema) {
        return Err(UiError::ModelNotSupported);
    }
    Ok(())
}

/// Why menu entry `idx` is unavailable: the dictionary entry for a scheme
/// without a dictionary of its own, the skin entry on Linux.
pub open spec fn spec_unavailable(idx: int, schema: Schema, platform: Platform) -> Option<
    Unavailable,
> {
    if idx == 3 && !schema.spec_has_separate_dict() {
        Some(Unavailable::NoDict)
    } else if idx == 6 && platform == Platform::Linux {
        Some(Unavailable::SkinNotSupported)
    } else {
        None
    }
}

/// Why menu entry `idx` is unavailable, if it is.
pub fn menu_unavailable_reason(idx: usize, schema: Schema, platform: Platform) -> (r: Option<
    Unavailable,
>)
    ensures
        r == spec_unavailable(idx as int, schema, platform),
{
    if idx == 3 && !schema.has_separate_dict() {
        Some(Unavailable::NoDict)
    } else if idx == 6 && platform == Platform::Linux {
        Some(Unavailable::SkinNotSupported)
    } else {
        None
    }
}

/// The message key of a component's label.
pub fn component_label(component: UpdateComponent) -> (r: &'static str)
    ensures
        r@ == match component {
            UpdateComponent::Scheme => "update.scheme"@,
            UpdateComponent::Dict => "update.dict"@,
            UpdateComponent::Model => "update.model"@,
            UpdateComponent::ModelPatch => "update.component.model_patch"@,
            UpdateComponent::Deploy => "update.component.deploy"@,
            UpdateComponent::Sync => "update.component.sync"@,
            UpdateComponent::Hook => "update.component.hook"@,
        },
{
    match component {
        UpdateComponent::Scheme => "update.scheme",
        UpdateComponent::Dict => "update.dict",
        UpdateComponent::Model => "update.model",
        UpdateComponent::ModelPatch => "update.component.model_patch",
        UpdateComponent::Deploy => "update.component.deploy",
        UpdateComponent::Sync => "update.component.sync",
        UpdateComponent::Hook => "update.component.hook",
    }
}

/// The message key of a phase's label.
pub fn phase_label(phase: UpdatePhase) -> (r: &'static str)
    ensures
        r@ == match phase {
            UpdatePhase::Starting => "update.checking"@,
            UpdatePhase::Checking => "update.checking"@,
            UpdatePhase::Downloading => "update.downloading"@,
            UpdatePhase::Verifying => "update.verifying"@,
            UpdatePhase::Extracting => "update.extracting"@,
            UpdatePhase::Saving => "update.saving"@,
            UpdatePhase::Applying => "menu.model_patch"@,
            UpdatePhase::Deploying => "update.deploying"@,
            UpdatePhase::Syncing => "update.syncing"@,
            UpdatePhase::Running => "hint.wait"@,
            UpdatePhase::Cancelling => "update.cancelling"@,
            UpdatePhase::Cancelled => "update.cancelled"@,
            UpdatePhase::Finished => "update.complete"@,
        },
{
    match phase {
        UpdatePhase::Starting => "update.checking",
        UpdatePhase::Checking => "update.checking",
        UpdatePhase::Downloading => "update.downloading",
        UpdatePhase::Verifying => "update.verifying",
        UpdatePhase::Extracting => "update.extracting",
        UpdatePhase::Saving => "update.saving",
        UpdatePhase::Applying => "menu.model_patch",
        UpdatePhase::Deploying => "update.deploying",
        UpdatePhase::Syncing => "update.syncing",
        UpdatePhase::Running => "hint.wait",
        UpdatePhase::Cancelling => "update.cancelling",
        UpdatePhase::Cancelled => "update.cancelled",
        UpdatePhase::Finished => "update.complete",
    }
}

// ---------------------------------------------------------------------------
// Progress lines
// ---------------------------------------------------------------------------

/// The progress line `<label> - <detail>`.
pub open spec fn stage_line(label: Seq<char>, detail: Seq<char>) -> Seq<char> {
    label + " - "@ + detail
}

/// Position of the first line that starts with `label`, or -1.
pub open spec fn first_with_prefix(lines: Seq<Seq<char>>, label: Seq<char>) -> int
    decreases lines.len(),
{
    if lines.len() == 0 {
        -1
    } else if has_prefix(lines[0], label) {
        0
    } else {
        let r = first_with_prefix(lines.drop_first(), label);
        if r < 0 {
            -1
        } else {
            r + 1
        }
    }
}

/// The progress lines after an event: the first line of the same label is
/// replaced, else the line is added at the end.
pub open spec fn spec_upsert_stage(lines: Seq<Seq<char>>, label: Seq<char>, detail: Seq<char>) -> Seq<
    Seq<char>,
> {
    let i = first_with_prefix(lines, label);
    if i >= 0 {
        lines.update(i, stage_line(label, detail))
    } else {
        lines.push(stage_line(label, detail))
    }
}

/// What `first_with_prefix` finds.
pub proof fn lemma_first_with_prefix(lines: Seq<Seq<char>>, label: Seq<char>)
    ensures
        -1 <= first_with_prefix(lines, label) < lines.len(),
        first_with_prefix(lines, label) >= 0 ==> has_prefix(
            lines[first_with_prefix(lines, label)],
            label,
        ),
        forall|j: int|
            0 <= j < lines.len() && (first_with_prefix(lines, label) < 0 || j < first_with_prefix(
                lines,
                label,
            )) ==> !has_prefix(#[trigger] lines[j], label),
    decreases lines.len(),
{
    if lines.len() > 0 && !has_prefix(lines[0], label) {
        lemma_first_with_prefix(lines.drop_first(), label);
        assert forall|j: int|
            0 <= j < lines.len() && (first_with_prefix(lines, label) < 0 || j < first_with_prefix(
                lines,
                label,
            )) implies !has_prefix(#[trigger] lines[j], label) by {
            if j > 0 {
                assert(lines[j] == lines.drop_first()[j - 1]);
            }
        }
    }
}

/// The first line with the label, known by position.
proof fn lemma_first_with_prefix_at(lines: Seq<Seq<char>>, label: Seq<char>, i: int)
    requires
        0 <= i < lines.len(),
        has_prefix(lines[i], label),
        forall|j: int| 0 <= j < i ==> !has_prefix(#[trigger] lines[j], label),
    ensures
        first_with_prefix(lines, label) == i,
{
    lemma_first_with_prefix(lines, label);
    let f = first_with_prefix(lines, label);
    if f < 0 || f > i {
        assert(!has_prefix(lines[i], label));
    } else if f < i {
        assert(!has_prefix(lines[f], label));
    }
}

/// Replaces or adds the progress line of `label`.
pub fn upsert_stage_line(lines: &mut Vec<String>, label: &str, detail: &str)
    ensures
        str_views(final(lines)@) == spec_upsert_stage(str_views(old(lines)@), label@, detail@),
{
    let ghost before = str_views(lines@);
    let mut out: Vec<char> = Vec::new();
    push_str_chars(&mut out, label);
    push_str_chars(&mut out, " - ");
    push_str_chars(&mut out, detail);
    assert(out@ =~= stage_line(label@, detail@));
    let line = string_of(&out);
    let lc = chars_of(label);
    let mut i: usize = 0;
    while i < lines.len()
        invariant
            0 <= i <= lines.len(),
            before == str_views(lines@),
            before == str_views(old(lines)@),
            lc@ == label@,
            line@ == stage_line(label@, detail@),
            forall|j: int| 0 <= j < i ==> !has_prefix(#[trigger] before[j], label@),
        decreases lines.len() - i,
    {
        let cs = chars_of(lines[i].as_str());
        if starts_with_chars(&cs, &lc) {
            proof {
                lemma_first_with_prefix_at(before, label@, i as int);
            }
            lines.remove(i);
            lines.insert(i, line);
            assert(str_views(lines@) =~= before.update(i as int, stage_line(label@, detail@)));
            return;
        }
        i = i + 1;
    }
    proof {
        lemma_first_with_prefix(before, label@);
        if first_with_prefix(before, label@) >= 0 {
            assert(!has_prefix(before[first_with_prefix(before, label@)], label@));
        }
    }
    lines.push(line);
    assert(str_views(lines@) =~= before.push(stage_line(label@, detail@)));
}

/// After a progress event, the first line of its label is the event's line;
/// every other line stays as it was, and at most one line is added.
pub proof fn law_stage_line_upsert(lines: Seq<Seq<char>>, label: Seq<char>, detail: Seq<char>)
    ensures
        ({
            let after = spec_upsert_stage(lines, label, detail);
            let i = first_with_prefix(after, label);
            &&& i >= 0 && after[i] == stage_line(label, detail)
            &&& after.len() == lines.len() || after.len() == lines.len() + 1
            &&& forall|j: int| 0 <= j < lines.len() && j != i ==> after[j] == lines[j]
        }),
{
    lemma_first_with_prefix(lines, label);
    let i = first_with_prefix(lines, label);
    let after = spec_upsert_stage(lines, label, detail);
    let l = stage_line(label, detail);
    assert(l.take(label.len() as int) =~= label);
    if i >= 0 {
        assert forall|j: int| 0 <= j < i implies !has_prefix(#[trigger] after[j], label) by {
            assert(after[j] == lines[j]);
        }
        lemma_first_with_prefix_at(after, label, i);
    } else {
        assert forall|j: int| 0 <= j < lines.len() implies !has_prefix(#[trigger] after[j], label) by {
            assert(after[j] == lines[j]);
        }
        lemma_first_with_prefix_at(after, label, lines.len() as int);
    }
}

// ---------------------------------------------------------------------------
// Outcome of an update
// ---------------------------------------------------------------------------

/// Why an update task ended without results.
pub enum TaskError {
    Cancelled,
    Failed(String),
}

/// Localized texts the summary of an update shows.
pub struct FinishTexts {
    pub complete: String,
    pub partial: String,
    pub failed: String,
    pub cancelled: String,
    /// The label of the cancelled progress line.
    pub cancelled_label: String,
}

/// Localized words of the footer hint.
pub struct HintTexts {
    pub wait: String,
    pub cancel: String,
    pub back: String,
    pub navigate: String,
    pub confirm: String,
}

/// The footer hint of a screen: what the keys do there.
pub open spec fn spec_hint(screen: AppScreen, t: HintTexts) -> Seq<char> {
    match screen {
        AppScreen::Updating => t.wait@ + "  q/Esc "@ + t.cancel@,
        AppScreen::Result | AppScreen::ConfigView => "Enter/Esc "@ + t.back@,
        AppScreen::SchemeSelector | AppScreen::SkinSelector => "↑↓/jk "@ + t.navigate@ + "  Enter "@
            + t.confirm@ + "  Esc "@ + t.back@,
        AppScreen::Menu => "↑↓/jk "@ + t.navigate@ + "  Enter "@ + t.confirm@ + "  q/Esc "@
            + t.back@,
    }
}

/// Every result succeeded.
pub open spec fn all_success(rs: Seq<UpdateResult>) -> bool {
    forall|i: int| 0 <= i < rs.len() ==> (#[trigger] rs[i]).success
}

/// Some result succeeded.
pub open spec fn any_success(rs: Seq<UpdateResult>) -> bool {
    exists|i: int| 0 <= i < rs.len() && (#[trigger] rs[i]).success
}

/// The outcome of finished results: success when every component
/// succeeded, partial when some did, failure when none did.
pub open spec fn spec_outcome(rs: Seq<UpdateResult>) -> UpdateOutcome {
    if all_success(rs) {
        UpdateOutcome::Success
    } else if any_success(rs) {
        UpdateOutcome::Partial
    } else {
        UpdateOutcome::Failure
    }
}

/// The summary line of one result: `✅ <component> - <message>` or `❌ ...`.
pub open spec fn result_line(r: UpdateResult) -> Seq<char> {
    (if r.success {
        "✅"@
    } else {
        "❌"@
    }) + " "@ + r.component@ + " - "@ + r.message@
}

/// Characters of several pieces.
fn concat3(a: &str, b: &str, c: &str) -> (r: String)
    ensures
        r@ == a@ + b@ + c@,
{
    let mut out: Vec<char> = Vec::new();
    push_str_chars(&mut out, a);
    push_str_chars(&mut out, b);
    push_str_chars(&mut out, c);
    assert(out@ =~= Seq::<char>::empty() + a@ + b@ + c@);
    string_of(&out)
}

/// Characters of two pieces.
fn concat2(a: &str, b: &str) -> (r: String)
    ensures
        r@ == a@ + b@,
{
    let mut out: Vec<char> = Vec::new();
    push_str_chars(&mut out, a);
    push_str_chars(&mut out, b);
    assert(out@ =~= Seq::<char>::empty() + a@ + b@);
    string_of(&out)
}

/// The summary line of one result.
fn format_result_line(r: &UpdateResult) -> (s: String)
    ensures
        s@ == result_line(*r),
{
    let icon = if r.success {
        "✅"
    } else {
        "❌"
    };
    let mut out: Vec<char> = Vec::new();
    push_str_chars(&mut out, icon);
    push_str_chars(&mut out, " ");
    push_str_chars(&mut out, r.component.as_str());
    push_str_chars(&mut out, " - ");
    push_str_chars(&mut out, r.message.as_str());
    assert(out@ =~= result_line(*r));
    string_of(&out)
}

/// Whether every and whether any result succeeded.
fn summarize(rs: &Vec<UpdateResult>) -> (r: (bool, bool))
    ensures
        r.0 == all_success(rs@),
        r.1 == any_success(rs@),
{
    let mut all = true;
    let mut any = false;
    let mut i: usize = 0;
    while i < rs.len()
        invariant
            0 <= i <= rs.len(),
            all == forall|j: int| 0 <= j < i ==> (#[trigger] rs@[j]).success,
            any == exists|j: int| 0 <= j < i && (#[trigger] rs@[j]).success,
        decreases rs.len() - i,
    {
        if rs[i].success {
            any = true;
        } else {
            all = false;
        }
        i = i + 1;
    }
    (all, any)
}

impl UiState {
    /// The state of a new UI: the menu, nothing selected beyond the first
    /// entries, no update.
    pub fn new(schema: Schema) -> (r: UiState)
        ensures
            !r.should_quit,
            r.screen == AppScreen::Menu,
            r.menu_selected == 0,
            r.scheme_selected == 0,
            r.skin_selected == 0,
            r.schema == schema,
            r.update_msg@.len() == 0,
            !r.update_done,
            r.update_results@.len() == 0,
            r.update_stage_lines@.len() == 0,
            r.update_outcome is None,
            !r.update_in_progress,
    {
        UiState {
            should_quit: false,
            screen: AppScreen::Menu,
            menu_selected: 0,
            scheme_selected: 0,
            skin_selected: 0,
            schema,
            update_msg: String::new(),
            update_done: false,
            update_results: Vec::new(),
            update_stage_lines: Vec::new(),
            update_outcome: None,
            update_in_progress: false,
        }
    }

    /// The menu entries: their shortcut and the message key of their label.
    pub fn menu_items(&self) -> (r: Vec<(&'static str, &'static str)>)
        ensures
            r.len() == menu_len(),
            r@[0].0@ == "1"@ && r@[0].1@ == "menu.update_all"@,
            r@[1].0@ == "2"@ && r@[1].1@ == "menu.update_scheme"@,
            r@[2].0@ == "3"@ && r@[2].1@ == "menu.update_dict"@,
            r@[3].0@ == "4"@ && r@[3].1@ == "menu.update_model"@,
            r@[4].0@ == "5"@ && r@[4].1@ == "menu.model_patch"@,
            r@[5].0@ == "6"@ && r@[5].1@ == "menu.skin_patch"@,
            r@[6].0@ == "7"@ && r@[6].1@ == "menu.switch_scheme"@,
            r@[7].0@ == "8"@ && r@[7].1@ == "menu.config"@,
            r@[8].0@ == "Q"@ && r@[8].1@ == "menu.quit"@,
    {
        let mut v: Vec<(&'static str, &'static str)> = Vec::new();
        v.push(("1", "menu.update_all"));
        v.push(("2", "menu.update_scheme"));
        v.push(("3", "menu.update_dict"));
        v.push(("4", "menu.update_model"));
        v.push(("5", "menu.model_patch"));
        v.push(("6", "menu.skin_patch"));
        v.push(("7", "menu.switch_scheme"));
        v.push(("8", "menu.config"));
        v.push(("Q", "menu.quit"));
        v
    }

    /// A key on the menu: `Up`/`k` and `Down`/`j` move the selection within
    /// the entries; `Enter` chooses the selected entry and `1`..`8` choose
    /// theirs, unless unavailable; `q`/`Esc` quits. Entries 1-4 start
    /// updates, 5 toggles the model patch, 6 opens the skins (first one
    /// selected), 7 the schemes (the current one selected), 8 the settings.
    pub fn handle_menu_key(&mut self, key: Key, platform: Platform) -> (r: MenuAction)
        requires
            old(self).menu_selected < menu_len(),
        ensures
            final(self).menu_selected < menu_len(),
            ({
                let s = *old(self);
                let idx: int = match key {
                    Key::Enter => s.menu_selected + 1,
                    Key::Char(c) => (c as int) - ('0' as int),
                    _ => -1,
                };
                let chosen = key == Key::Enter || (key matches Key::Char(c) && '1' <= c && c <= '8');
                match key {
                    Key::Up | Key::Char('k') => r == MenuAction::Nothing && *final(self) == (UiState {
                        menu_selected: if s.menu_selected > 0 {
                            (s.menu_selected - 1) as usize
                        } else {
                            0
                        },
                        ..s
                    }),
                    Key::Down | Key::Char('j') => r == MenuAction::Nothing && *final(self) == (UiState {
                        menu_selected: if s.menu_selected < menu_len() - 1 {
                            (s.menu_selected + 1) as usize
                        } else {
                            s.menu_selected
                        },
                        ..s
                    }),
                    Key::Char('q') | Key::Esc => r == MenuAction::Nothing && *final(self) == (UiState {
                        should_quit: true,
                        ..s
                    }),
                    _ => if !chosen {
                        r == MenuAction::Nothing && *final(self) == s
                    } else {
                        match spec_unavailable(idx, s.schema, platform) {
                            Some(u) => r == MenuAction::Notify(u) && *final(self) == s,
                            None => if idx == 1 {
                                r == MenuAction::StartUpdate(UpdateMode::All) && *final(self) == s
                            } else if idx == 2 {
                                r == MenuAction::StartUpdate(UpdateMode::Scheme) && *final(self) == s
                            } else if idx == 3 {
                                r == MenuAction::StartUpdate(UpdateMode::Dict) && *final(self) == s
                            } else if idx == 4 {
                                r == MenuAction::StartUpdate(UpdateMode::Model) && *final(self) == s
                            } else if idx == 5 {
                                r == MenuAction::ToggleModelPatch && *final(self) == s
                            } else if idx == 6 {
                                r == MenuAction::Nothing && *final(self) == (UiState {
                                    skin_selected: 0,
                                    screen: AppScreen::SkinSelector,
                                    ..s
                                })
                            } else if idx == 7 {
                                r == MenuAction::Nothing && *final(self) == (UiState {
                                    scheme_selected: spec_schema_position(s.schema) as usize,
                                    screen: AppScreen::SchemeSelector,
                                    ..s
                                })
                            } else if idx == 8 {
                                r == MenuAction::Nothing && *final(self) == (UiState {
                                    screen: AppScreen::ConfigView,
                                    ..s
                                })
                            } else {
                                r == MenuAction::Nothing && *final(self) == s
                            },
                        }
                    },
                }
            }),
    {
        match key {
            Key::Up | Key::Char('k') => {
                if self.menu_selected > 0 {
                    self.menu_selected = self.menu_selected - 1;
                }
                MenuAction::Nothing
            },
            Key::Down | Key::Char('j') => {
                if self.menu_selected < 8 {
                    self.menu_selected = self.menu_selected + 1;
                }
                MenuAction::Nothing
            },
            Key::Char('q') | Key::Esc => {
                self.should_quit = true;
                MenuAction::Nothing
            },
            _ => {
                let idx: usize = match key {
                    Key::Enter => self.menu_selected + 1,
                    Key::Char(c) => {
                        if '1' <= c && c <= '8' {
                            ((c as u32) - ('0' as u32)) as usize
                        } else {
                            return MenuAction::Nothing;
                        }
                    },
                    _ => {
                        return MenuAction::Nothing;
                    },
                };
                if let Some(reason) = menu_unavailable_reason(idx, self.schema, platform) {
                    return MenuAction::Notify(reason);
                }
                if idx == 1 {
                    MenuAction::StartUpdate(UpdateMode::All)
                } else if idx == 2 {
                    MenuAction::StartUpdate(UpdateMode::Scheme)
                } else if idx == 3 {
                    MenuAction::StartUpdate(UpdateMode::Dict)
                } else if idx == 4 {
                    MenuAction::StartUpdate(UpdateMode::Model)
                } else if idx == 5 {
                    MenuAction::ToggleModelPatch
                } else if idx == 6 {
                    self.skin_selected = 0;
                    self.screen = AppScreen::SkinSelector;
                    MenuAction::Nothing
                } else if idx == 7 {
                    self.scheme_selected = current_schema_index(self.schema);
                    self.screen = AppScreen::SchemeSelector;
                    MenuAction::Nothing
                } else if idx == 8 {
                    self.screen = AppScreen::ConfigView;
                    MenuAction::Nothing
                } else {
                    MenuAction::Nothing
                }
            },
        }
    }

    /// Shows the outcome of toggling the model patch: the result screen
    /// with the one result line, titled `title`, finished successfully.
    pub fn show_model_patch_result(&mut self, line: String, title: String)
        ensures
            final(self).screen == AppScreen::Result,
            str_views(final(self).update_results@) == seq![line@],
            final(self).update_stage_lines@.len() == 0,
            final(self).update_msg == title,
            final(self).update_done,
            final(self).update_outcome == Some(UpdateOutcome::Success),
            final(self).schema == old(self).schema,
            final(self).menu_selected == old(self).menu_selected,
    {
        self.screen = AppScreen::Result;
        self.update_results = Vec::new();
        self.update_stage_lines = Vec::new();
        let ghost l = line@;
        self.update_results.push(line);
        assert(str_views(self.update_results@) =~= seq![l]);
        self.update_msg = title;
        self.update_done = true;
        self.update_outcome = Some(UpdateOutcome::Success);
    }

    /// A key on the result screen: `Enter`, `Esc` or `q` go back to the
    /// menu and clear the finished update; the caller then drops its
    /// progress. Returns whether that happened.
    pub fn handle_result_key(&mut self, key: Key) -> (r: bool)
        ensures
            r == (key == Key::Enter || key == Key::Esc || key == Key::Char('q')),
            r ==> final(self).update_stage_lines@.len() == 0 && *final(self) == (UiState {
                screen: AppScreen::Menu,
                update_done: false,
                update_in_progress: false,
                update_stage_lines: final(self).update_stage_lines,
                ..*old(self)
            }),
            !r ==> *final(self) == *old(self),
    {
        match key {
            Key::Enter | Key::Esc | Key::Char('q') => {
                self.screen = AppScreen::Menu;
                self.update_done = false;
                self.update_in_progress = false;
                self.update_stage_lines = Vec::new();
                true
            },
            _ => false,
        }
    }

    /// A key while updating: `Esc` or `q` during a running update asks for
    /// cancellation, shows `cancelling` as the message and as the progress
    /// line of `label`. Returns whether cancellation was asked for.
    pub fn handle_updating_key(&mut self, key: Key, label: &str, cancelling: &str) -> (r: bool)
        ensures
            r == ((key == Key::Esc || key == Key::Char('q')) && old(self).update_in_progress),
            r ==> final(self).update_msg@ == cancelling@ && str_views(
                final(self).update_stage_lines@,
            ) == spec_upsert_stage(str_views(old(self).update_stage_lines@), label@, cancelling@)
                && *final(self) == (UiState {
                update_msg: final(self).update_msg,
                update_stage_lines: final(self).update_stage_lines,
                ..*old(self)
            }),
            !r ==> *final(self) == *old(self),
    {
        match key {
            Key::Esc | Key::Char('q') => {
                if self.update_in_progress {
                    self.update_msg = cancelling.to_string();
                    upsert_stage_line(&mut self.update_stage_lines, label, cancelling);
                    true
                } else {
                    false
                }
            },
            _ => false,
        }
    }

    /// A key on the scheme list: `Up`/`k` and `Down`/`j` move within the
    /// schemes; `Enter` makes the selected scheme current, returns it to be
    /// saved, and goes back to the menu, as `Esc`/`q` do.
    pub fn handle_scheme_key(&mut self, key: Key) -> (r: Option<Schema>)
        ensures
            old(self).scheme_selected < spec_all_schemas().len() ==> final(self).scheme_selected
                < spec_all_schemas().len(),
            ({
                let s = *old(self);
                match key {
                    Key::Up | Key::Char('k') => r is None && *final(self) == (UiState {
                        scheme_selected: if s.scheme_selected > 0 {
                            (s.scheme_selected - 1) as usize
                        } else {
                            0
                        },
                        ..s
                    }),
                    Key::Down | Key::Char('j') => r is None && *final(self) == (UiState {
                        scheme_selected: if s.scheme_selected < spec_all_schemas().len() - 1 {
                            (s.scheme_selected + 1) as usize
                        } else {
                            s.scheme_selected
                        },
                        ..s
                    }),
                    Key::Enter => if s.scheme_selected < spec_all_schemas().len() {
                        r == Some(spec_all_schemas()[s.scheme_selected as int]) && *final(self) == (
                        UiState {
                            schema: spec_all_schemas()[s.scheme_selected as int],
                            screen: AppScreen::Menu,
                            ..s
                        })
                    } else {
                        r is None && *final(self) == (UiState { screen: AppScreen::Menu, ..s })
                    },
                    Key::Esc | Key::Char('q') => r is None && *final(self) == (UiState {
                        screen: AppScreen::Menu,
                        ..s
                    }),
                    _ => r is None && *final(self) == s,
                }
            }),
    {
        let schemas = Schema::all();
        match key {
            Key::Up | Key::Char('k') => {
                if self.scheme_selected > 0 {
                    self.scheme_selected = self.scheme_selected - 1;
                }
                None
            },
            Key::Down | Key::Char('j') => {
                if self.scheme_selected < schemas.len() - 1 {
                    self.scheme_selected = self.scheme_selected + 1;
                }
                None
            },
            Key::Enter => {
                self.screen = AppScreen::Menu;
                if self.scheme_selected < schemas.len() {
                    let s = schemas[self.scheme_selected];
                    self.schema = s;
                    Some(s)
                } else {
                    None
                }
            },
            Key::Esc | Key::Char('q') => {
                self.screen = AppScreen::Menu;
                None
            },
            _ => None,
        }
    }

    /// A key on the skin list of `skin_count` skins: `Up`/`k` and
    /// `Down`/`j` move within them; `Enter` returns the selected skin to
    /// apply and goes back to the menu, as `Esc`/`q` do.
    pub fn handle_skin_key(&mut self, key: Key, skin_count: usize) -> (r: Option<usize>)
        requires
            (key == Key::Down || key == Key::Char('j')) ==> skin_count > 0,
        ensures
            ({
                let s = *old(self);
                match key {
                    Key::Up | Key::Char('k') => r is None && *final(self) == (UiState {
                        skin_selected: if s.skin_selected > 0 {
                            (s.skin_selected - 1) as usize
                        } else {
                            0
                        },
                        ..s
                    }),
                    Key::Down | Key::Char('j') => r is None && *final(self) == (UiState {
                        skin_selected: if s.skin_selected < skin_count - 1 {
                            (s.skin_selected + 1) as usize
                        } else {
                            s.skin_selected
                        },
                        ..s
                    }),
                    Key::Enter => r == (if s.skin_selected < skin_count {
                        Some(s.skin_selected)
                    } else {
                        None
                    }) && *final(self) == (UiState { screen: AppScreen::Menu, ..s }),
                    Key::Esc | Key::Char('q') => r is None && *final(self) == (UiState {
                        screen: AppScreen::Menu,
                        ..s
                    }),
                    _ => r is None && *final(self) == s,
                }
            }),
    {
        match key {
            Key::Up | Key::Char('k') => {
                if self.skin_selected > 0 {
                    self.skin_selected = self.skin_selected - 1;
                }
                None
            },
            Key::Down | Key::Char('j') => {
                if self.skin_selected < skin_count - 1 {
                    self.skin_selected = self.skin_selected + 1;
                }
                None
            },
            Key::Enter => {
                self.screen = AppScreen::Menu;
                if self.skin_selected < skin_count {
                    Some(self.skin_selected)
                } else {
                    None
                }
            },
            Key::Esc | Key::Char('q') => {
                self.screen = AppScreen::Menu;
                None
            },
            _ => None,
        }
    }

    /// A key on the settings: `Esc`, `q` or `Enter` go back to the menu.
    pub fn handle_config_key(&mut self, key: Key)
        ensures
            (key == Key::Esc || key == Key::Char('q') || key == Key::Enter) ==> *final(self) == (
            UiState { screen: AppScreen::Menu, ..*old(self) }),
            !(key == Key::Esc || key == Key::Char('q') || key == Key::Enter) ==> *final(self) == *old(self),
    {
        match key {
            Key::Esc | Key::Char('q') | Key::Enter => {
                self.screen = AppScreen::Menu;
            },
            _ => {},
        }
    }

    /// Starting an update: the updating screen with `checking` as the
    /// message, and no results, progress lines or outcome yet.
    pub fn begin_update(&mut self, checking: String)
        ensures
            final(self).screen == AppScreen::Updating,
            final(self).update_msg == checking,
            !final(self).update_done,
            final(self).update_in_progress,
            final(self).update_outcome is None,
            final(self).update_results@.len() == 0,
            final(self).update_stage_lines@.len() == 0,
            final(self).schema == old(self).schema,
            final(self).menu_selected == old(self).menu_selected,
    {
        self.screen = AppScreen::Updating;
        self.update_msg = checking;
        self.update_done = false;
        self.update_in_progress = true;
        self.update_outcome = None;
        self.update_results = Vec::new();
        self.update_stage_lines = Vec::new();
    }

    /// An update that could not start: the result screen with the error
    /// line `❌ <error>` and `failed` as the message, ended in failure.
    pub fn fail_update_start(&mut self, error: &str, failed: String)
        ensures
            final(self).screen == AppScreen::Result,
            str_views(final(self).update_results@) == str_views(old(self).update_results@).push(
                "❌ "@ + error@,
            ),
            final(self).update_msg == failed,
            final(self).update_done,
            !final(self).update_in_progress,
            final(self).update_outcome == Some(UpdateOutcome::Failure),
            final(self).schema == old(self).schema,
            final(self).menu_selected == old(self).menu_selected,
    {
        let ghost before = str_views(self.update_results@);
        let line = concat2("❌ ", error);
        assert(line@ =~= "❌ "@ + error@);
        self.update_results.push(line);
        assert(str_views(self.update_results@) =~= before.push("❌ "@ + error@));
        self.update_msg = failed;
        self.update_done = true;
        self.update_in_progress = false;
        self.update_outcome = Some(UpdateOutcome::Failure);
        self.screen = AppScreen::Result;
    }

    /// The end of an update task: each result as a summary line, the
    /// outcome and its message (complete, partial or failed); a cancelled
    /// task shows `⚠️ <cancelled>` and its progress line; a failed one
    /// `❌ <failed>: <error>`. The result screen follows.
    pub fn finish_update(&mut self, results: Result<Vec<UpdateResult>, TaskError>, texts: &FinishTexts)
        ensures
            final(self).screen == AppScreen::Result,
            final(self).update_done,
            !final(self).update_in_progress,
            final(self).schema == old(self).schema,
            final(self).menu_selected == old(self).menu_selected,
            match results {
                Ok(rs) => {
                    &&& final(self).update_outcome == Some(spec_outcome(rs@))
                    &&& final(self).update_msg == match spec_outcome(rs@) {
                        UpdateOutcome::Success => texts.complete,
                        UpdateOutcome::Partial => texts.partial,
                        _ => texts.failed,
                    }
                    &&& str_views(final(self).update_results@) == str_views(
                        old(self).update_results@,
                    ) + rs@.map_values(|r: UpdateResult| result_line(r))
                    &&& final(self).update_stage_lines == old(self).update_stage_lines
                },
                Err(TaskError::Cancelled) => {
                    &&& final(self).update_outcome == Some(UpdateOutcome::Cancelled)
                    &&& final(self).update_msg == texts.cancelled
                    &&& str_views(final(self).update_results@) == str_views(
                        old(self).update_results@,
                    ).push("⚠️ "@ + texts.cancelled@)
                    &&& str_views(final(self).update_stage_lines@) == spec_upsert_stage(
                        str_views(old(self).update_stage_lines@),
                        texts.cancelled_label@,
                        texts.cancelled@,
                    )
                },
                Err(TaskError::Failed(e)) => {
                    &&& final(self).update_outcome == Some(UpdateOutcome::Failure)
                    &&& final(self).update_msg == texts.failed
                    &&& str_views(final(self).update_results@) == str_views(
                        old(self).update_results@,
                    ).push("❌ "@ + texts.failed@ + ": "@ + e@)
                    &&& final(self).update_stage_lines == old(self).update_stage_lines
                },
            },
    {
        match results {
            Ok(rs) => {
                let (all, any) = summarize(&rs);
                let ghost before = str_views(self.update_results@);
                let mut i: usize = 0;
                while i < rs.len()
                    invariant
                        0 <= i <= rs.len(),
                        self.schema == old(self).schema,
                        self.menu_selected == old(self).menu_selected,
                        self.update_stage_lines == old(self).update_stage_lines,
                        str_views(self.update_results@) == before + rs@.take(i as int).map_values(
                            |r: UpdateResult| result_line(r),
                        ),
                    decreases rs.len() - i,
                {
                    let line = format_result_line(&rs[i]);
                    let ghost prev = str_views(self.update_results@);
                    self.update_results.push(line);
                    assert(rs@.take(i + 1).map_values(|r: UpdateResult| result_line(r))
                        =~= rs@.take(i as int).map_values(|r: UpdateResult| result_line(r)).push(
                        result_line(rs@[i as int]),
                    ));
                    assert(str_views(self.update_results@) =~= prev.push(result_line(rs@[i as int])));
                    i = i + 1;
                }
                assert(rs@.take(rs.len() as int) =~= rs@);
                if all {
                    self.update_msg = texts.complete.clone();
                    self.update_outcome = Some(UpdateOutcome::Success);
                } else if any {
                    self.update_msg = texts.partial.clone();
                    self.update_outcome = Some(UpdateOutcome::Partial);
                } else {
                    self.update_msg = texts.failed.clone();
                    self.update_outcome = Some(UpdateOutcome::Failure);
                }
            },
            Err(TaskError::Cancelled) => {
                let ghost before = str_views(self.update_results@);
                let line = concat2("⚠️ ", texts.cancelled.as_str());
                assert(line@ =~= "⚠️ "@ + texts.cancelled@);
                self.update_results.push(line);
                assert(str_views(self.update_results@) =~= before.push("⚠️ "@ + texts.cancelled@));
                self.update_msg = texts.cancelled.clone();
                self.update_outcome = Some(UpdateOutcome::Cancelled);
                upsert_stage_line(
                    &mut self.update_stage_lines,
                    texts.cancelled_label.as_str(),
                    texts.cancelled.as_str(),
                );
            },
            Err(TaskError::Failed(e)) => {
                let ghost before = str_views(self.update_results@);
                let line = concat3("❌ ", texts.failed.as_str(), ": ");
                let line2 = concat2(line.as_str(), e.as_str());
                assert(line2@ =~= "❌ "@ + texts.failed@ + ": "@ + e@);
                self.update_results.push(line2);
                assert(str_views(self.update_results@) =~= before.push(
                    "❌ "@ + texts.failed@ + ": "@ + e@,
                ));
                self.update_msg = texts.failed.clone();
                self.update_outcome = Some(UpdateOutcome::Failure);
            },
        }
        self.update_done = true;
        self.update_in_progress = false;
        self.screen = AppScreen::Result;
    }
}

// ---------------------------------------------------------------------------
// Routing
// ---------------------------------------------------------------------------

/// Which updater runs for an update.
#[derive(Clone, Copy, Debug, PartialEq, Eq, Structural)]
pub enum UpdateRoute {
    /// Every component of the scheme.
    All,
    WanxiangScheme,
    IceScheme,
    FrostScheme,
    MintScheme,
    /// The scheme has no dictionary of its own: a failed result, no work.
    NoDict,
    WanxiangDict,
    IceDict,
    /// The Wanxiang grammar model.
    Model,
}

/// The updater of a mode and scheme: schemes by family, dictionaries by
/// family when the scheme has its own, the model for every scheme.
pub open spec fn spec_update_route(mode: UpdateMode, schema: Schema) -> UpdateRoute {
    match mode {
        UpdateMode::All => UpdateRoute::All,
        UpdateMode::Scheme => if schema.spec_is_wanxiang() {
            UpdateRoute::WanxiangScheme
        } else if schema == Schema::Ice {
            UpdateRoute::IceScheme
        } else if schema == Schema::Frost {
            UpdateRoute::FrostScheme
        } else {
            UpdateRoute::MintScheme
        },
        UpdateMode::Dict => if !schema.spec_has_separate_dict() {
            UpdateRoute::NoDict
        } else if schema.spec_is_wanxiang() {
            UpdateRoute::WanxiangDict
        } else {
            UpdateRoute::IceDict
        },
        UpdateMode::Model => UpdateRoute::Model,
    }
}

/// The updater that runs (see `spec_update_route`).
pub fn update_route(mode: UpdateMode, schema: Schema) -> (r: UpdateRoute)
    ensures
        r == spec_update_route(mode, schema),
{
    match mode {
        UpdateMode::All => UpdateRoute::All,
        UpdateMode::Scheme => {
            if schema.is_wanxiang() {
                UpdateRoute::WanxiangScheme
            } else if schema == Schema::Ice {
                UpdateRoute::IceScheme
            } else if schema == Schema::Frost {
                UpdateRoute::FrostScheme
            } else {
                UpdateRoute::MintScheme
            }
        },
        UpdateMode::Dict => {
            if !schema.has_separate_dict() {
                UpdateRoute::NoDict
            } else if schema.is_wanxiang() {
                UpdateRoute::WanxiangDict
            } else {
                UpdateRoute::IceDict
            }
        },
        UpdateMode::Model => UpdateRoute::Model,
    }
}

/// After a model update, the model patch is applied when the settings ask
/// for it and the scheme takes it.
pub fn patch_after_model_update(model_patch_enabled: bool, schema: Schema) -> (r: bool)
    ensures
        r == model_patch_enabled,
{
    model_patch_enabled && schema.supports_model_patch()
}

/// The result of a dictionary update for a scheme without a dictionary of
/// its own: failed, with no versions (`-`), the dictionary's label and the
/// "no dictionary" message.
pub fn no_dict_result(dict_label: String, no_dict: String) -> (r: UpdateResult)
    ensures
        r.component == dict_label,
        r.old_version@ == "-"@,
        r.new_version@ == "-"@,
        !r.success,
        r.message == no_dict,
{
    UpdateResult {
        component: dict_label,
        old_version: "-".to_string(),
        new_version: "-".to_string(),
        success: false,
        message: no_dict,
    }
}

/// The result of applying the model patch after a model update: on success
/// the versions `-` and the "enabled" text, and that text as the message; on
/// failure the versions `?` and the error as the message.
pub fn model_patch_result(outcome: Result<(), String>, label: String, enabled: String) -> (r:
    UpdateResult)
    ensures
        r.component == label,
        r.success == outcome is Ok,
        match outcome {
            Ok(()) => r.old_version@ == "-"@ && r.new_version == enabled && r.message == enabled,
            Err(e) => r.old_version@ == "?"@ && r.new_version@ == "?"@ && r.message == e,
        },
{
    match outcome {
        Ok(()) => UpdateResult {
            component: label,
            old_version: "-".to_string(),
            new_version: enabled.clone(),
            success: true,
            message: enabled,
        },
        Err(e) => UpdateResult {
            component: label,
            old_version: "?".to_string(),
            new_version: "?".to_string(),
            success: false,
            message: e,
        },
    }
}

/// What the command line asks for.
#[derive(Clone, Copy, Debug, PartialEq, Eq, Structural)]
pub enum CliCommand {
    Init,
    UpdateAll,
    UpdateScheme,
    UpdateDict,
    UpdateModel,
    Tui,
}

/// The command of the flags: `--init` first, then `--update`, `--scheme`,
/// `--dict`, `--model` in that order; the TUI without any of them.
pub fn cli_command(init: bool, update: bool, scheme: bool, dict: bool, model: bool) -> (r:
    CliCommand)
    ensures
        r == if init {
            CliCommand::Init
        } else if update {
            CliCommand::UpdateAll
        } else if scheme {
            CliCommand::UpdateScheme
        } else if dict {
            CliCommand::UpdateDict
        } else if model {
            CliCommand::UpdateModel
        } else {
            CliCommand::Tui
        },
{
    if init {
        CliCommand::Init
    } else if update {
        CliCommand::UpdateAll
    } else if scheme {
        CliCommand::UpdateScheme
    } else if dict {
        CliCommand::UpdateDict
    } else if model {
        CliCommand::UpdateModel
    } else {
        CliCommand::Tui
    }
}

impl UiState {
    /// The footer hint of the current screen (see `spec_hint`).
    pub fn current_hint(&self, t: &HintTexts) -> (r: String)
        ensures
            r@ == spec_hint(self.screen, *t),
    {
        let mut out: Vec<char> = Vec::new();
        match self.screen {
            AppScreen::Updating => {
                push_str_chars(&mut out, t.wait.as_str());
                push_str_chars(&mut out, "  q/Esc ");
                push_str_chars(&mut out, t.cancel.as_str());
            },
            AppScreen::Result | AppScreen::ConfigView => {
                push_str_chars(&mut out, "Enter/Esc ");
                push_str_chars(&mut out, t.back.as_str());
            },
            AppScreen::SchemeSelector | AppScreen::SkinSelector => {
                push_str_chars(&mut out, "↑↓/jk ");
                push_str_chars(&mut out, t.navigate.as_str());
                push_str_chars(&mut out, "  Enter ");
                push_str_chars(&mut out, t.confirm.as_str());
                push_str_chars(&mut out, "  Esc ");
                push_str_chars(&mut out, t.back.as_str());
            },
            AppScreen::Menu => {
                push_str_chars(&mut out, "↑↓/jk ");
                push_str_chars(&mut out, t.navigate.as_str());
                push_str_chars(&mut out, "  Enter ");
                push_str_chars(&mut out, t.confirm.as_str());
                push_str_chars(&mut out, "  q/Esc ");
                push_str_chars(&mut out, t.back.as_str());
            },
        }
        assert(out@ =~= spec_hint(self.screen, *t));
        string_of(&out)
    }

    /// A progress event: its detail becomes the message and the progress
    /// line of its label.
    pub fn apply_progress(&mut self, label: &str, detail: &str)
        ensures
            final(self).update_msg@ == detail@,
            str_views(final(self).update_stage_lines@) == spec_upsert_stage(
                str_views(old(self).update_stage_lines@),
                label@,
                detail@,
            ),
            final(self).screen == old(self).screen,
            final(self).update_results == old(self).update_results,
            final(self).update_in_progress == old(self).update_in_progress,
    {
        self.update_msg = detail.to_string();
        upsert_stage_line(&mut self.update_stage_lines, label, detail);
    }
}


/// Routing: a scheme update runs the updater of the selected scheme's own
/// family and no other (Ice to Ice, Frost to Frost, Mint to Mint, every
/// Wanxiang variant to Wanxiang); a dictionary update runs the Ice or
/// Wanxiang dictionary updater of the scheme's family when it has a
/// dictionary of its own, else none; every model update is the model
/// updater, and a full update is the full update.
pub proof fn law_update_route(mode: UpdateMode, schema: Schema)
    ensures
        spec_update_route(UpdateMode::Scheme, schema) == UpdateRoute::IceScheme <==> schema
            == Schema::Ice,
        spec_update_route(UpdateMode::Scheme, schema) == UpdateRoute::FrostScheme <==> schema
            == Schema::Frost,
        spec_update_route(UpdateMode::Scheme, schema) == UpdateRoute::MintScheme <==> schema
            == Schema::Mint,
        spec_update_route(UpdateMode::Scheme, schema) == UpdateRoute::WanxiangScheme
            <==> schema.spec_is_wanxiang(),
        spec_update_route(UpdateMode::Dict, schema) == UpdateRoute::NoDict
            <==> !schema.spec_has_separate_dict(),
        spec_update_route(UpdateMode::Dict, schema) == UpdateRoute::IceDict <==> schema
            == Schema::Ice,
        spec_update_route(UpdateMode::Dict, schema) == UpdateRoute::WanxiangDict
            <==> schema.spec_is_wanxiang(),
        spec_update_route(UpdateMode::Model, schema) == UpdateRoute::Model,
        spec_update_route(UpdateMode::All, schema) == UpdateRoute::All,
{
}

} // verus!
