use snout::updater::{
    FrostUpdater, IceUpdater, InstallTarget, UpdateAction, UpdateInfo, UpdatePlan, UpdateProgress, UpdateRecord,
    UpdaterError,
};

fn info() -> UpdateInfo {
    UpdateInfo {
        name: "full.zip".into(),
        url: "https://example.invalid/full.zip".into(),
        tag: "2.0".into(),
        update_time: "2024-01-02".into(),
        sha256: "abc".into(),
    }
}

fn record(name: &str) -> UpdateRecord {
    UpdateRecord {
        name: name.into(),
        update_time: "2023".into(),
        tag: "1.0".into(),
        apply_time: "t".into(),
        sha256: "old".into(),
    }
}

#[test]
fn ice_scheme_switch_forces_a_download() {
    let ice = IceUpdater;
    assert_eq!(ice.plan_scheme_update(Some(&record("full.zip")), false), UpdatePlan::UpToDate);
    assert_eq!(
        ice.plan_scheme_update(Some(&record("rime-frost-schemas.zip")), false),
        UpdatePlan::Download { switched: true }
    );
    assert_eq!(ice.plan_scheme_update(None, true), UpdatePlan::Download { switched: false });
    assert_eq!(ice.plan_dict_update(false), UpdatePlan::UpToDate);
}

#[test]
fn frost_tracks_its_own_asset() {
    let frost = FrostUpdater;
    assert_eq!(frost.scheme_asset(), "rime-frost-schemas.zip");
    assert_eq!(
        frost.plan_scheme_update(Some(&record("full.zip")), false),
        UpdatePlan::Download { switched: true }
    );
    match frost.check_scheme_update(None) {
        Err(UpdaterError::AssetNotFound(name)) => assert_eq!(name, "rime-frost-schemas.zip"),
        Ok(_) => panic!("no asset was found"),
    }
}

#[test]
fn records_and_results() {
    let ice = IceUpdater;
    let r = ice.scheme_record(&info(), "now".into());
    assert_eq!(r.name, "full.zip");
    assert_eq!(r.tag, "2.0");
    assert_eq!(r.apply_time, "now");
    let res = ice.scheme_updated(None, &info());
    assert_eq!(res.old_version, "未安装");
    assert_eq!(res.message, "更新成功");
    let res = ice.dict_updated(Some(&record("all_dicts.zip")), &info());
    assert_eq!(res.old_version, "1.0");
    assert_eq!(res.component, "词库");
    let res = ice.scheme_up_to_date(&info());
    assert_eq!(res.new_version, "2.0");
    assert!(res.success);
}

#[test]
fn ice_scheme_update_runs_in_order() {
    let ice = IceUpdater;
    assert!(matches!(ice.scheme_step(UpdateProgress::Started), UpdateAction::FetchRelease));
    assert!(matches!(
        ice.scheme_step(UpdateProgress::Checked(None)),
        UpdateAction::Fail(UpdaterError::AssetNotFound(n)) if n == "full.zip"
    ));
    assert!(matches!(
        ice.scheme_step(UpdateProgress::Checked(Some(info()))),
        UpdateAction::ReadRecord(i) if i.tag == "2.0"
    ));
    match ice.scheme_step(UpdateProgress::RecordRead {
        info: info(),
        local: Some(record("full.zip")),
        needs_update: false,
    }) {
        UpdateAction::Finish(r) => {
            assert!(r.success);
            assert_eq!(r.message, "已是最新版本");
        }
        _ => panic!("a current scheme is not downloaded"),
    }
    assert!(matches!(
        ice.scheme_step(UpdateProgress::RecordRead {
            info: info(),
            local: Some(record("rime-frost-schemas.zip")),
            needs_update: false,
        }),
        UpdateAction::Install { switched: true, target: InstallTarget::RimeDir, .. }
    ));
    match ice.scheme_step(UpdateProgress::Installed {
        info: info(),
        local: None,
        apply_time: "now".into(),
    }) {
        UpdateAction::SaveRecord(rec) => {
            assert_eq!(rec.name, "full.zip");
            assert_eq!(rec.tag, "2.0");
            assert_eq!(rec.apply_time, "now");
        }
        _ => panic!("the record is saved after the install"),
    }
    assert!(matches!(
        ice.scheme_step(UpdateProgress::RecordSaved { info: info(), local: None }),
        UpdateAction::RemoveBuild
    ));
    match ice.scheme_step(UpdateProgress::BuildCleaned { info: info(), local: None }) {
        UpdateAction::Finish(r) => {
            assert_eq!(r.old_version, "未安装");
            assert_eq!(r.new_version, "2.0");
            assert_eq!(r.message, "更新成功");
        }
        _ => panic!("the update finishes"),
    }
}

#[test]
fn dictionary_update_skips_build_cleanup() {
    let ice = IceUpdater;
    assert!(matches!(
        ice.dict_step(UpdateProgress::RecordRead { info: info(), local: None, needs_update: true }),
        UpdateAction::Install { switched: false, target: InstallTarget::DictsDir, .. }
    ));
    match ice.dict_step(UpdateProgress::RecordSaved { info: info(), local: Some(record("all_dicts.zip")) }) {
        UpdateAction::Finish(r) => {
            assert_eq!(r.component, "词库");
            assert_eq!(r.old_version, "1.0");
        }
        _ => panic!("dictionaries finish after the record"),
    }
    assert!(matches!(
        FrostUpdater.scheme_step(UpdateProgress::Checked(None)),
        UpdateAction::Fail(UpdaterError::AssetNotFound(n)) if n == "rime-frost-schemas.zip"
    ));
}
