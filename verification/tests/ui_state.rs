use snout::platform::Platform;
use snout::schema::{patch_file_name, Schema};
use snout::ui::{
    component_label, current_schema_index, menu_unavailable_reason, model_update_supported,
    phase_label, skin_patch_target, upsert_stage_line, AppScreen, FinishTexts, Key, MenuAction,
    TaskError, UiError, UiState, Unavailable, UpdateComponent, UpdateMode, UpdateOutcome,
    UpdatePhase,
};
use snout::updater::UpdateResult;
use snout::ui::{
    cli_command, model_patch_result, no_dict_result, HintTexts, patch_after_model_update, update_route,
    CliCommand, UpdateRoute,
};

fn texts() -> FinishTexts {
    FinishTexts {
        complete: "done".into(),
        partial: "partly".into(),
        failed: "failed".into(),
        cancelled: "cancelled".into(),
        cancelled_label: "Hook: cancelled".into(),
    }
}

fn result(component: &str, success: bool) -> UpdateResult {
    UpdateResult {
        component: component.into(),
        old_version: "a".into(),
        new_version: "b".into(),
        success,
        message: "msg".into(),
    }
}

#[test]
fn model_update_supported_for_all_supported_schemas() {
    assert!(model_update_supported(Schema::WanxiangBase));
    assert!(model_update_supported(Schema::WanxiangMoqi));
    assert!(model_update_supported(Schema::Ice));
    assert!(model_update_supported(Schema::Frost));
    assert!(model_update_supported(Schema::Mint));
}

#[test]
fn skin_patch_target_matches_platform_convention() {
    assert_eq!(skin_patch_target(Platform::Windows), Ok("weasel.custom.yaml"));
    assert_eq!(skin_patch_target(Platform::MacOs), Ok("squirrel.custom.yaml"));
    assert_eq!(skin_patch_target(Platform::Linux), Err(UiError::SkinNotSupported));
}

#[test]
fn current_schema_index_tracks_active_schema() {
    assert_eq!(current_schema_index(Schema::WanxiangBase), 0);
    assert_eq!(current_schema_index(Schema::Mint), Schema::all().len() - 1);
}

#[test]
fn menu_unavailable_reason_blocks_dict_for_schema_without_separate_dict() {
    assert!(menu_unavailable_reason(3, Schema::Mint, Platform::Linux).is_some());
    assert_eq!(menu_unavailable_reason(3, Schema::Ice, Platform::Linux), None);
    assert_eq!(
        menu_unavailable_reason(6, Schema::Ice, Platform::Linux),
        Some(Unavailable::SkinNotSupported)
    );
    assert_eq!(menu_unavailable_reason(6, Schema::Ice, Platform::Windows), None);
}

#[test]
fn handle_updating_key_marks_update_as_cancelled() {
    let mut app = UiState::new(Schema::WanxiangBase);
    app.screen = AppScreen::Updating;
    app.update_in_progress = true;

    let cancel = app.handle_updating_key(Key::Esc, "Hook: Cancelling", "update.cancelling");

    assert!(cancel);
    assert!(matches!(app.screen, AppScreen::Updating));
    assert_eq!(app.update_msg, "update.cancelling");
    assert_eq!(app.update_stage_lines, vec!["Hook: Cancelling - update.cancelling".to_string()]);
}

#[test]
fn updating_key_does_nothing_without_a_running_update() {
    let mut app = UiState::new(Schema::Ice);
    app.screen = AppScreen::Updating;
    assert!(!app.handle_updating_key(Key::Char('q'), "l", "c"));
    assert!(app.update_msg.is_empty());
}

#[test]
fn menu_navigation_stays_within_the_entries() {
    let mut app = UiState::new(Schema::WanxiangBase);
    assert_eq!(app.handle_menu_key(Key::Up, Platform::Linux), MenuAction::Nothing);
    assert_eq!(app.menu_selected, 0);
    for _ in 0..20 {
        app.handle_menu_key(Key::Char('j'), Platform::Linux);
    }
    assert_eq!(app.menu_selected, 8);
    assert_eq!(app.menu_items().len(), 9);
    app.handle_menu_key(Key::Char('k'), Platform::Linux);
    assert_eq!(app.menu_selected, 7);
}

#[test]
fn menu_entries_start_their_actions() {
    let mut app = UiState::new(Schema::Frost);
    assert_eq!(
        app.handle_menu_key(Key::Char('1'), Platform::Windows),
        MenuAction::StartUpdate(UpdateMode::All)
    );
    assert_eq!(
        app.handle_menu_key(Key::Char('3'), Platform::Windows),
        MenuAction::Notify(Unavailable::NoDict)
    );
    assert_eq!(
        app.handle_menu_key(Key::Char('4'), Platform::Windows),
        MenuAction::StartUpdate(UpdateMode::Model)
    );
    assert_eq!(app.handle_menu_key(Key::Char('5'), Platform::Windows), MenuAction::ToggleModelPatch);
    app.handle_menu_key(Key::Char('7'), Platform::Windows);
    assert_eq!(app.screen, AppScreen::SchemeSelector);
    assert_eq!(app.scheme_selected, 9);
    app.menu_selected = 7;
    app.screen = AppScreen::Menu;
    app.handle_menu_key(Key::Enter, Platform::Windows);
    assert_eq!(app.screen, AppScreen::ConfigView);
    app.handle_menu_key(Key::Esc, Platform::Windows);
    assert!(app.should_quit);
}

#[test]
fn scheme_selector_switches_the_scheme() {
    let mut app = UiState::new(Schema::WanxiangBase);
    app.screen = AppScreen::SchemeSelector;
    app.handle_scheme_key(Key::Down);
    app.handle_scheme_key(Key::Down);
    assert_eq!(app.handle_scheme_key(Key::Enter), Some(Schema::WanxiangFlypy));
    assert_eq!(app.schema, Schema::WanxiangFlypy);
    assert_eq!(app.screen, AppScreen::Menu);
}

#[test]
fn skin_selector_returns_the_chosen_skin() {
    let mut app = UiState::new(Schema::WanxiangBase);
    app.screen = AppScreen::SkinSelector;
    app.handle_skin_key(Key::Down, 3);
    app.handle_skin_key(Key::Down, 3);
    app.handle_skin_key(Key::Down, 3);
    assert_eq!(app.skin_selected, 2);
    assert_eq!(app.handle_skin_key(Key::Enter, 3), Some(2));
    assert_eq!(app.screen, AppScreen::Menu);
}

#[test]
fn finish_update_summarises_the_outcome() {
    let mut app = UiState::new(Schema::WanxiangBase);
    app.begin_update("checking".into());
    app.finish_update(Ok(vec![result("Scheme", true), result("Dict", false)]), &texts());
    assert_eq!(app.update_outcome, Some(UpdateOutcome::Partial));
    assert_eq!(app.update_msg, "partly");
    assert_eq!(
        app.update_results,
        vec!["✅ Scheme - msg".to_string(), "❌ Dict - msg".to_string()]
    );
    assert_eq!(app.screen, AppScreen::Result);

    let mut app = UiState::new(Schema::WanxiangBase);
    app.finish_update(Ok(vec![result("Scheme", true)]), &texts());
    assert_eq!(app.update_outcome, Some(UpdateOutcome::Success));
    let mut app = UiState::new(Schema::WanxiangBase);
    app.finish_update(Ok(vec![result("Scheme", false)]), &texts());
    assert_eq!(app.update_outcome, Some(UpdateOutcome::Failure));

    let mut app = UiState::new(Schema::WanxiangBase);
    app.finish_update(Err(TaskError::Failed("boom".into())), &texts());
    assert_eq!(app.update_results, vec!["❌ failed: boom".to_string()]);

    let mut app = UiState::new(Schema::WanxiangBase);
    app.finish_update(Err(TaskError::Cancelled), &texts());
    assert_eq!(app.update_outcome, Some(UpdateOutcome::Cancelled));
    assert_eq!(app.update_results, vec!["⚠️ cancelled".to_string()]);
    assert_eq!(app.update_stage_lines, vec!["Hook: cancelled - cancelled".to_string()]);
    assert!(app.handle_result_key(Key::Enter));
    assert_eq!(app.screen, AppScreen::Menu);
    assert!(app.update_stage_lines.is_empty());
}

#[test]
fn failed_start_shows_the_error() {
    let mut app = UiState::new(Schema::WanxiangBase);
    app.begin_update("checking".into());
    app.fail_update_start("no model", "failed".into());
    assert_eq!(app.update_results, vec!["❌ no model".to_string()]);
    assert_eq!(app.update_outcome, Some(UpdateOutcome::Failure));
    assert!(app.update_done);
}

#[test]
fn stage_lines_are_replaced_by_label() {
    let mut lines = vec!["Scheme: Downloading - 10%".to_string()];
    upsert_stage_line(&mut lines, "Scheme: Downloading", "50%");
    assert_eq!(lines, vec!["Scheme: Downloading - 50%".to_string()]);
    upsert_stage_line(&mut lines, "Dict: Checking", "go");
    assert_eq!(lines.len(), 2);
    assert_eq!(lines[1], "Dict: Checking - go");
}

#[test]
fn labels_are_message_keys() {
    assert_eq!(component_label(UpdateComponent::Hook), "update.component.hook");
    assert_eq!(phase_label(UpdatePhase::Applying), "menu.model_patch");
    assert_eq!(phase_label(UpdatePhase::Starting), "update.checking");
}

#[test]
fn model_patch_toggle_result_screen() {
    let mut app = UiState::new(Schema::WanxiangBase);
    app.show_model_patch_result("✅ enabled".into(), "Model patch".into());
    assert_eq!(app.screen, AppScreen::Result);
    assert_eq!(app.update_outcome, Some(UpdateOutcome::Success));
    assert_eq!(app.update_results, vec!["✅ enabled".to_string()]);
}

#[test]
fn schema_ids_name_the_patch_files() {
    assert_eq!(patch_file_name(&Schema::WanxiangBase), "wanxiang.custom.yaml");
    assert_eq!(patch_file_name(&Schema::Ice), "rime_ice.custom.yaml");
    assert!(Schema::WanxiangZrm.is_wanxiang());
    assert!(!Schema::Mint.is_wanxiang());
    assert!(!Schema::Frost.has_separate_dict());
    assert!(Schema::Ice.has_separate_dict());
}

#[test]
fn updates_are_routed_by_scheme_family() {
    assert_eq!(update_route(UpdateMode::Scheme, Schema::WanxiangTiger), UpdateRoute::WanxiangScheme);
    assert_eq!(update_route(UpdateMode::Scheme, Schema::Frost), UpdateRoute::FrostScheme);
    assert_eq!(update_route(UpdateMode::Scheme, Schema::Mint), UpdateRoute::MintScheme);
    assert_eq!(update_route(UpdateMode::Dict, Schema::Mint), UpdateRoute::NoDict);
    assert_eq!(update_route(UpdateMode::Dict, Schema::Ice), UpdateRoute::IceDict);
    assert_eq!(update_route(UpdateMode::Dict, Schema::WanxiangBase), UpdateRoute::WanxiangDict);
    assert_eq!(update_route(UpdateMode::Model, Schema::Ice), UpdateRoute::Model);
}

#[test]
fn command_line_flags_pick_the_command() {
    assert_eq!(cli_command(true, true, false, false, false), CliCommand::Init);
    assert_eq!(cli_command(false, false, true, true, false), CliCommand::UpdateScheme);
    assert_eq!(cli_command(false, false, false, false, true), CliCommand::UpdateModel);
    assert_eq!(cli_command(false, false, false, false, false), CliCommand::Tui);
    assert!(patch_after_model_update(true, Schema::Frost));
    assert!(!patch_after_model_update(false, Schema::Frost));
}

#[test]
fn progress_events_update_message_and_lines() {
    let mut app = UiState::new(Schema::Ice);
    app.apply_progress("Scheme: Downloading", "10%");
    app.apply_progress("Scheme: Downloading", "90%");
    assert_eq!(app.update_msg, "90%");
    assert_eq!(app.update_stage_lines, vec!["Scheme: Downloading - 90%".to_string()]);
}

#[test]
fn scheme_without_dictionary_gives_a_failed_dictionary_result() {
    let r = no_dict_result("Dictionary".into(), "no dictionary".into());
    assert_eq!(r.component, "Dictionary");
    assert_eq!(r.old_version, "-");
    assert_eq!(r.new_version, "-");
    assert!(!r.success);
    assert_eq!(r.message, "no dictionary");
}

#[test]
fn model_patch_result_reports_success_and_failure() {
    let ok = model_patch_result(Ok(()), "Model patch".into(), "enabled".into());
    assert_eq!(ok.component, "Model patch");
    assert_eq!(ok.old_version, "-");
    assert_eq!(ok.new_version, "enabled");
    assert!(ok.success);
    assert_eq!(ok.message, "enabled");

    let failed = model_patch_result(Err("disk full".into()), "Model patch".into(), "enabled".into());
    assert_eq!(failed.old_version, "?");
    assert_eq!(failed.new_version, "?");
    assert!(!failed.success);
    assert_eq!(failed.message, "disk full");
}

#[test]
fn footer_hint_follows_the_screen() {
    let t = HintTexts {
        wait: "wait".into(),
        cancel: "cancel".into(),
        back: "back".into(),
        navigate: "move".into(),
        confirm: "ok".into(),
    };
    let mut state = UiState::new(Schema::Ice);
    assert_eq!(state.current_hint(&t), "↑↓/jk move  Enter ok  q/Esc back");
    state.screen = AppScreen::Updating;
    assert_eq!(state.current_hint(&t), "wait  q/Esc cancel");
    state.screen = AppScreen::Result;
    assert_eq!(state.current_hint(&t), "Enter/Esc back");
    state.screen = AppScreen::ConfigView;
    assert_eq!(state.current_hint(&t), "Enter/Esc back");
    state.screen = AppScreen::SkinSelector;
    assert_eq!(state.current_hint(&t), "↑↓/jk move  Enter ok  Esc back");
}

#[test]
fn scheme_enter_out_of_range_only_returns_to_menu() {
    let mut state = UiState::new(Schema::Ice);
    state.screen = AppScreen::SchemeSelector;
    state.scheme_selected = 99;
    assert_eq!(state.handle_scheme_key(Key::Enter), None);
    assert_eq!(state.screen, AppScreen::Menu);
    assert_eq!(state.schema, Schema::Ice);
}

#[test]
fn skin_keys_other_than_down_work_on_an_empty_list() {
    let mut state = UiState::new(Schema::Ice);
    state.screen = AppScreen::SkinSelector;
    assert_eq!(state.handle_skin_key(Key::Up, 0), None);
    assert_eq!(state.handle_skin_key(Key::Enter, 0), None);
    assert_eq!(state.screen, AppScreen::Menu);
}
