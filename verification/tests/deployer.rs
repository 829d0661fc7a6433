use snout::deployer::{
    deploy_to, detect_engines, engine_data_dir, ensure_deployable_engine_set,
    finalize_deploy_result, find_binary, has_binary, hook_outcome, run_hook, should_copy_entry,
    sync_targets, sync_uses_link, sync_via_symlink, which, DataBase, DeployError, DeployStep,
    DeployTally, EngineProbe, HookPlan, LinkPrep, PathState,
};
use snout::platform::Platform;

fn probe() -> EngineProbe {
    EngineProbe {
        fcitx5_remote_found: true,
        ibus_found: true,
        squirrel_app_exists: false,
        weasel_dir_exists: true,
    }
}

fn state(exists: bool, is_symlink: bool, is_file: bool, is_dir: bool) -> PathState {
    PathState { exists, is_symlink, is_file, is_dir }
}

#[test]
fn rejects_empty_engine_set() {
    assert!(ensure_deployable_engine_set(false).is_err());
    assert!(ensure_deployable_engine_set(true).is_ok());
}

#[test]
fn fails_when_all_deployments_fail() {
    let err = finalize_deploy_result(0, &vec!["fcitx5: boom".into()]).unwrap_err();
    assert_eq!(err.message_key(), "deploy.all_engines_failed");
    assert!(matches!(err, DeployError::AllEnginesFailed(m) if m == "fcitx5: boom"));
}

#[test]
fn succeeds_when_at_least_one_deployment_succeeds() {
    assert!(finalize_deploy_result(1, &Vec::new()).is_ok());
    assert!(finalize_deploy_result(1, &vec!["ibus: failed".into()]).is_ok());
}

#[test]
fn partial_failures_are_joined_for_the_warning() {
    let warning = finalize_deploy_result(2, &vec!["a: x".into(), "b: y".into()]);
    assert!(matches!(warning, Ok(Some(w)) if w == "a: x; b: y"));
    assert!(matches!(finalize_deploy_result(2, &Vec::new()), Ok(None)));
}

#[test]
fn fcitx_engine_data_dir_uses_fcitx5_data_path() {
    let (base, rel) = engine_data_dir(Platform::Linux, "fcitx5", true).expect("fcitx5 dir");
    assert_eq!(base, DataBase::DataDir);
    assert!(rel.ends_with("fcitx5/rime"));
    assert_eq!(engine_data_dir(Platform::Linux, "fcitx5", false), None);
    assert_eq!(
        engine_data_dir(Platform::Windows, "weasel", true),
        Some((DataBase::AppData, "Rime".to_string()))
    );
    assert_eq!(engine_data_dir(Platform::MacOs, "ibus", true), None);
}

#[test]
fn sync_via_symlink_does_not_create_backup_for_missing_target() {
    let steps = sync_via_symlink(state(false, false, false, false), state(false, false, false, false));
    assert!(steps.is_empty());
}

#[test]
fn symlink_sync_backs_up_directories_and_removes_files() {
    assert_eq!(
        sync_via_symlink(state(true, false, false, true), state(true, false, false, true)),
        vec![LinkPrep::RemoveBackupDir, LinkPrep::MoveTargetToBackup]
    );
    assert_eq!(
        sync_via_symlink(state(true, false, false, true), state(true, false, true, false)),
        vec![LinkPrep::RemoveBackupFile, LinkPrep::MoveTargetToBackup]
    );
    assert_eq!(
        sync_via_symlink(state(false, true, false, false), state(false, false, false, false)),
        vec![LinkPrep::RemoveTarget]
    );
}

#[test]
fn sync_dir_filtered_copies_files_and_skips_exclusions() {
    let exclude = vec!["skip.txt".to_string()];
    assert!(should_copy_entry("keep.txt", &exclude));
    assert!(should_copy_entry("nested", &exclude));
    assert!(!should_copy_entry("skip.txt", &exclude));
    assert!(!should_copy_entry("build", &exclude));
}

#[test]
fn run_hook_accepts_empty_and_missing_paths() {
    assert_eq!(run_hook("", false), HookPlan::Skip);
    assert_eq!(run_hook("/definitely/missing/hook.sh", false), HookPlan::Missing);
    assert_eq!(run_hook("/bin/true", true), HookPlan::Run);
}

#[test]
fn run_hook_reports_failure_for_nonzero_exit() {
    let err = hook_outcome(false).unwrap_err();
    assert_eq!(err.message_key(), "deploy.hook_failed");
}

#[test]
fn run_hook_runs_successful_commands() {
    assert!(hook_outcome(true).is_ok());
}

#[test]
fn engines_are_detected_per_platform() {
    assert_eq!(detect_engines(Platform::Linux, &probe()), vec!["fcitx5", "ibus"]);
    assert_eq!(detect_engines(Platform::Windows, &probe()), vec!["weasel"]);
    assert!(detect_engines(Platform::MacOs, &probe()).is_empty());
}

#[test]
fn each_engine_has_its_redeploy_command() {
    match deploy_to(Platform::Linux, "ibus") {
        DeployStep::Located { binary, args } => {
            assert_eq!(binary, "ibus");
            assert_eq!(args, vec!["engine", "Rime"]);
        }
        _ => panic!("ibus is located on the path"),
    }
    assert!(matches!(deploy_to(Platform::MacOs, "squirrel"), DeployStep::IfPresent { .. }));
    assert!(matches!(deploy_to(Platform::MacOs, "fcitx5"), DeployStep::Skip));
}

#[test]
fn which_output_is_trimmed() {
    assert_eq!(which(true, Some("/usr/bin/ibus\n")), Some("/usr/bin/ibus".to_string()));
    assert_eq!(which(false, Some("/usr/bin/ibus\n")), None);
    assert!(has_binary(&Some("x".into())));
    let err = find_binary("ibus", None).unwrap_err();
    assert!(matches!(err, DeployError::BinaryNotFound(n) if n == "ibus"));
}

#[test]
fn sync_goes_to_every_engine_but_the_primary() {
    let engines = vec!["fcitx5".to_string(), "ibus".to_string(), "fcitx5".to_string()];
    assert_eq!(sync_targets(&engines), vec![1]);
    assert!(sync_targets(&vec!["fcitx5".to_string()]).is_empty());
    assert!(sync_uses_link(true, true));
    assert!(!sync_uses_link(true, false));
}

#[test]
fn deploy_tally_counts_successes_and_lists_failures() {
    let mut tally = DeployTally::new();
    tally.record("fcitx5", Err("boom".into()));
    assert!(matches!(tally.finish(), Err(DeployError::AllEnginesFailed(m)) if m == "fcitx5: boom"));
    tally.record("ibus", Ok(()));
    assert_eq!(tally.success_count, 1);
    assert!(matches!(tally.finish(), Ok(Some(w)) if w == "fcitx5: boom"));
}
