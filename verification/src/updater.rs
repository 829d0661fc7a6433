//! Update decisions of the Ice (雾凇) and Frost (白霜) updaters: which
//! release asset they track, when a scheme or dictionary is downloaded, and
//! the record and result an update leaves.
use crate::text::str_eq;
use vstd::prelude::*;

verus! {

broadcast use vstd::string::group_string_axioms;

/// A release asset found for an update.
pub struct UpdateInfo {
    pub name: String,
    pub url: String,
    pub tag: String,
    pub update_time: String,
    pub sha256: String,
}

/// What was installed last time, kept in the cache directory.
pub struct UpdateRecord {
    pub name: String,
    pub update_time: String,
    pub tag: String,
    pub apply_time: String,
    pub sha256: String,
}

/// The outcome of updating one component.
pub struct UpdateResult {
    pub component: String,
    pub old_version: String,
    pub new_version: String,
    pub success: bool,
    pub message: String,
}

/// Why an update cannot go on.
pub enum UpdaterError {
    /// The release has no asset of this name.
    AssetNotFound(String),
}

/// What an update of a scheme or dictionary does.
#[derive(Clone, Copy, Debug, PartialEq, Eq, Structural)]
pub enum UpdatePlan {
    /// The installed version is current; nothing is downloaded.
    UpToDate,
    /// The asset is downloaded and extracted; `switched` when another
    /// scheme was installed before.
    Download { switched: bool },
}

/// A scheme is downloaded when the installed record names another asset (a
/// scheme switch) or when the record says an update is needed.
pub open spec fn spec_scheme_plan(
    asset: Seq<char>,
    local_name: Option<Seq<char>>,
    needs_update: bool,
) -> UpdatePlan {
    let switched = match local_name {
        Some(n) => n != asset,
        None => false,
    };
    if !switched && !needs_update {
        UpdatePlan::UpToDate
    } else {
        UpdatePlan::Download { switched }
    }
}

/// The name in an optional record.
pub open spec fn record_name(local: Option<&UpdateRecord>) -> Option<Seq<char>> {
    match local {
        Some(r) => Some(r.name@),
        None => None,
    }
}

/// The update plan of a scheme (see `spec_scheme_plan`).
fn plan_scheme(asset: &str, local: Option<&UpdateRecord>, needs_update: bool) -> (r: UpdatePlan)
    ensures
        r == spec_scheme_plan(asset@, record_name(local), needs_update),
{
    let switched = match local {
        Some(rec) => !str_eq(rec.name.as_str(), asset),
        None => false,
    };
    if !switched && !needs_update {
        UpdatePlan::UpToDate
    } else {
        UpdatePlan::Download { switched }
    }
}

/// The update found in a release, or the error naming the missing asset.
fn found_asset(asset: &str, found: Option<UpdateInfo>) -> (r: Result<UpdateInfo, UpdaterError>)
    ensures
        match r {
            Ok(i) => found == Some(i),
            Err(UpdaterError::AssetNotFound(n)) => found is None && n@ == asset@,
        },
{
    match found {
        Some(i) => Ok(i),
        None => Err(UpdaterError::AssetNotFound(asset.to_string())),
    }
}

/// The record an update leaves for the asset it installed.
fn make_record(asset: &str, info: &UpdateInfo, apply_time: String) -> (r: UpdateRecord)
    ensures
        r.name@ == asset@,
        r.update_time@ == info.update_time@,
        r.tag@ == info.tag@,
        r.apply_time == apply_time,
        r.sha256@ == info.sha256@,
{
    UpdateRecord {
        name: asset.to_string(),
        update_time: info.update_time.clone(),
        tag: info.tag.clone(),
        apply_time,
        sha256: info.sha256.clone(),
    }
}

/// The result of a component already at the release's version.
fn up_to_date_result(component: &str, info: &UpdateInfo) -> (r: UpdateResult)
    ensures
        r.component@ == component@,
        r.old_version@ == info.tag@,
        r.new_version@ == info.tag@,
        r.success,
        r.message@ == "已是最新版本"@,
{
    UpdateResult {
        component: component.to_string(),
        old_version: info.tag.clone(),
        new_version: info.tag.clone(),
        success: true,
        message: "已是最新版本".to_string(),
    }
}

/// The version installed before: the record's tag, or `未安装` (not
/// installed).
pub open spec fn old_version(local: Option<&UpdateRecord>) -> Seq<char> {
    match local {
        Some(r) => r.tag@,
        None => "未安装"@,
    }
}

/// The result of a successful update.
fn updated_result(component: &str, local: Option<&UpdateRecord>, info: &UpdateInfo) -> (r:
    UpdateResult)
    ensures
        r.component@ == component@,
        r.old_version@ == old_version(local),
        r.new_version@ == info.tag@,
        r.success,
        r.message@ == "更新成功"@,
{
    let old = match local {
        Some(rec) => rec.tag.clone(),
        None => "未安装".to_string(),
    };
    UpdateResult {
        component: component.to_string(),
        old_version: old,
        new_version: info.tag.clone(),
        success: true,
        message: "更新成功".to_string(),
    }
}

/// The Ice (雾凇) updater: scheme and dictionaries are assets of one
/// release of `iDvel/rime-ice`.
pub struct IceUpdater;

impl IceUpdater {
    /// The scheme asset, `full.zip`.
    pub fn scheme_asset(&self) -> (r: &'static str)
        ensures
            r@ == "full.zip"@,
    {
        "full.zip"
    }

    /// The dictionary asset, `all_dicts.zip`.
    pub fn dict_asset(&self) -> (r: &'static str)
        ensures
            r@ == "all_dicts.zip"@,
    {
        "all_dicts.zip"
    }

    /// The scheme update found in the latest releases.
    pub fn check_scheme_update(&self, found: Option<UpdateInfo>) -> (r: Result<UpdateInfo, UpdaterError>)
        ensures
            match r {
                Ok(i) => found == Some(i),
                Err(UpdaterError::AssetNotFound(n)) => found is None && n@ == "full.zip"@,
            },
    {
        found_asset("full.zip", found)
    }

    /// The dictionary update found in the latest releases.
    pub fn check_dict_update(&self, found: Option<UpdateInfo>) -> (r: Result<UpdateInfo, UpdaterError>)
        ensures
            match r {
                Ok(i) => found == Some(i),
                Err(UpdaterError::AssetNotFound(n)) => found is None && n@ == "all_dicts.zip"@,
            },
    {
        found_asset("all_dicts.zip", found)
    }

    /// Whether the scheme is downloaded: on a scheme switch or when an
    /// update is needed.
    pub fn plan_scheme_update(&self, local: Option<&UpdateRecord>, needs_update: bool) -> (r:
        UpdatePlan)
        ensures
            r == spec_scheme_plan("full.zip"@, record_name(local), needs_update),
    {
        plan_scheme("full.zip", local, needs_update)
    }

    /// Whether the dictionaries are downloaded: when an update is needed.
    pub fn plan_dict_update(&self, needs_update: bool) -> (r: UpdatePlan)
        ensures
            r == if needs_update {
                UpdatePlan::Download { switched: false }
            } else {
                UpdatePlan::UpToDate
            },
    {
        if needs_update {
            UpdatePlan::Download { switched: false }
        } else {
            UpdatePlan::UpToDate
        }
    }

    /// The record left after installing the scheme.
    pub fn scheme_record(&self, info: &UpdateInfo, apply_time: String) -> (r: UpdateRecord)
        ensures
            r.name@ == "full.zip"@,
            r.update_time@ == info.update_time@,
            r.tag@ == info.tag@,
            r.apply_time == apply_time,
            r.sha256@ == info.sha256@,
    {
        make_record("full.zip", info, apply_time)
    }

    /// The record left after installing the dictionaries.
    pub fn dict_record(&self, info: &UpdateInfo, apply_time: String) -> (r: UpdateRecord)
        ensures
            r.name@ == "all_dicts.zip"@,
            r.update_time@ == info.update_time@,
            r.tag@ == info.tag@,
            r.apply_time == apply_time,
            r.sha256@ == info.sha256@,
    {
        make_record("all_dicts.zip", info, apply_time)
    }

    /// The result of a scheme (`方案`) that is already current.
    pub fn scheme_up_to_date(&self, info: &UpdateInfo) -> (r: UpdateResult)
        ensures
            r.component@ == "方案"@,
            r.old_version@ == info.tag@,
            r.new_version@ == info.tag@,
            r.success,
            r.message@ == "已是最新版本"@,
    {
        up_to_date_result("方案", info)
    }

    /// The result of dictionaries (`词库`) that are already current.
    pub fn dict_up_to_date(&self, info: &UpdateInfo) -> (r: UpdateResult)
        ensures
            r.component@ == "词库"@,
            r.old_version@ == info.tag@,
            r.new_version@ == info.tag@,
            r.success,
            r.message@ == "已是最新版本"@,
    {
        up_to_date_result("词库", info)
    }

    /// The result of an installed scheme.
    pub fn scheme_updated(&self, local: Option<&UpdateRecord>, info: &UpdateInfo) -> (r:
        UpdateResult)
        ensures
            r.component@ == "方案"@,
            r.old_version@ == old_version(local),
            r.new_version@ == info.tag@,
            r.success,
            r.message@ == "更新成功"@,
    {
        updated_result("方案", local, info)
    }

    /// The result of installed dictionaries.
    pub fn dict_updated(&self, local: Option<&UpdateRecord>, info: &UpdateInfo) -> (r:
        UpdateResult)
        ensures
            r.component@ == "词库"@,
            r.old_version@ == old_version(local),
            r.new_version@ == info.tag@,
            r.success,
            r.message@ == "更新成功"@,
    {
        updated_result("词库", local, info)
    }
}

/// The Frost (白霜) updater: the scheme, dictionaries included, is the
/// `rime-frost-schemas.zip` asset of `gaboolic/rime-frost`.
pub struct FrostUpdater;

impl FrostUpdater {
    /// The scheme asset, `rime-frost-schemas.zip`.
    pub fn scheme_asset(&self) -> (r: &'static str)
        ensures
            r@ == "rime-frost-schemas.zip"@,
    {
        "rime-frost-schemas.zip"
    }

    /// The scheme update found in the latest releases.
    pub fn check_scheme_update(&self, found: Option<UpdateInfo>) -> (r: Result<UpdateInfo, UpdaterError>)
        ensures
            match r {
                Ok(i) => found == Some(i),
                Err(UpdaterError::AssetNotFound(n)) => found is None && n@
                    == "rime-frost-schemas.zip"@,
            },
    {
        found_asset("rime-frost-schemas.zip", found)
    }

    /// Whether the scheme is downloaded: on a scheme switch or when an
    /// update is needed.
    pub fn plan_scheme_update(&self, local: Option<&UpdateRecord>, needs_update: bool) -> (r:
        UpdatePlan)
        ensures
            r == spec_scheme_plan("rime-frost-schemas.zip"@, record_name(local), needs_update),
    {
        plan_scheme("rime-frost-schemas.zip", local, needs_update)
    }

    /// The record left after installing the scheme.
    pub fn scheme_record(&self, info: &UpdateInfo, apply_time: String) -> (r: UpdateRecord)
        ensures
            r.name@ == "rime-frost-schemas.zip"@,
            r.update_time@ == info.update_time@,
            r.tag@ == info.tag@,
            r.apply_time == apply_time,
            r.sha256@ == info.sha256@,
    {
        make_record("rime-frost-schemas.zip", info, apply_time)
    }

    /// The result of a scheme (`方案`) that is already current.
    pub fn scheme_up_to_date(&self, info: &UpdateInfo) -> (r: UpdateResult)
        ensures
            r.component@ == "方案"@,
            r.old_version@ == info.tag@,
            r.new_version@ == info.tag@,
            r.success,
            r.message@ == "已是最新版本"@,
    {
        up_to_date_result("方案", info)
    }

    /// The result of an installed scheme.
    pub fn scheme_updated(&self, local: Option<&UpdateRecord>, info: &UpdateInfo) -> (r:
        UpdateResult)
        ensures
            r.component@ == "方案"@,
            r.old_version@ == old_version(local),
            r.new_version@ == info.tag@,
            r.success,
            r.message@ == "更新成功"@,
    {
        updated_result("方案", local, info)
    }
}

/// A scheme that is still installed and current is never downloaded again;
/// a record of another scheme always is.
pub proof fn law_scheme_plan(asset: Seq<char>, local_name: Option<Seq<char>>, needs_update: bool)
    ensures
        local_name == Some(asset) && !needs_update ==> spec_scheme_plan(asset, local_name, needs_update)
            == UpdatePlan::UpToDate,
        (local_name matches Some(n) && n != asset) ==> spec_scheme_plan(
            asset,
            local_name,
            needs_update,
        ) == (UpdatePlan::Download { switched: true }),
        needs_update ==> spec_scheme_plan(asset, local_name, needs_update) is Download,
{
}


// ---------------------------------------------------------------------------
// The update sequence
// ---------------------------------------------------------------------------

/// How far an update has come, with what the caller learned on the way.
pub enum UpdateProgress {
    /// Nothing done yet.
    Started,
    /// The latest release was looked up: the asset's update, if found.
    Checked(Option<UpdateInfo>),
    /// The record of the last install was read (`None` when there is none),
    /// and the caller decided whether the installed version is out of date.
    RecordRead { info: UpdateInfo, local: Option<UpdateRecord>, needs_update: bool },
    /// The asset was downloaded and extracted at `apply_time`.
    Installed { info: UpdateInfo, local: Option<UpdateRecord>, apply_time: String },
    /// The new record was saved.
    RecordSaved { info: UpdateInfo, local: Option<UpdateRecord> },
    /// The `build` directory was removed.
    BuildCleaned { info: UpdateInfo, local: Option<UpdateRecord> },
}

/// Where an archive is extracted.
#[derive(Clone, Copy, Debug, PartialEq, Eq, Structural)]
pub enum InstallTarget {
    /// The Rime user directory itself.
    RimeDir,
    /// Its `dicts` subdirectory.
    DictsDir,
}

/// The next thing an update does.
pub enum UpdateAction {
    /// Look up the latest release.
    FetchRelease,
    /// Read the record of the last install.
    ReadRecord(UpdateInfo),
    /// Download the asset and extract it into `target`; `switched` when
    /// another scheme was installed before.
    Install { info: UpdateInfo, switched: bool, target: InstallTarget },
    /// Save this record.
    SaveRecord(UpdateRecord),
    /// Remove the Rime `build` directory.
    RemoveBuild,
    /// The update is over with this result.
    Finish(UpdateResult),
    /// The update cannot go on.
    Fail(UpdaterError),
}

/// The version installed before, of an owned record.
pub open spec fn old_version_of(local: Option<UpdateRecord>) -> Seq<char> {
    match local {
        Some(r) => r.tag@,
        None => "未安装"@,
    }
}

/// A result of a component already current.
pub open spec fn is_up_to_date_result(r: UpdateResult, component: Seq<char>, info: UpdateInfo) -> bool {
    r.component@ == component && r.old_version@ == info.tag@ && r.new_version@ == info.tag@
        && r.success && r.message@ == "已是最新版本"@
}

/// A result of a component just installed.
pub open spec fn is_updated_result(
    r: UpdateResult,
    component: Seq<char>,
    local: Option<UpdateRecord>,
    info: UpdateInfo,
) -> bool {
    r.component@ == component && r.old_version@ == old_version_of(local) && r.new_version@
        == info.tag@ && r.success && r.message@ == "更新成功"@
}

/// The record of an install of `asset`.
pub open spec fn is_record_of(rec: UpdateRecord, asset: Seq<char>, info: UpdateInfo, apply_time: String) -> bool {
    rec.name@ == asset && rec.update_time@ == info.update_time@ && rec.tag@ == info.tag@
        && rec.apply_time == apply_time && rec.sha256@ == info.sha256@
}

/// The next step of an update of `asset` (shown as `component`): look up
/// the release, fail when it lacks the asset, read the record, finish at
/// once when nothing is to be downloaded (a scheme switch counts when
/// `detect_switch`), else install into `target`, save the record, remove
/// the `build` directory when `clean_build`, and finish with the installed
/// result.
pub open spec fn step_ok(
    asset: Seq<char>,
    component: Seq<char>,
    detect_switch: bool,
    clean_build: bool,
    target: InstallTarget,
    p: UpdateProgress,
    r: UpdateAction,
) -> bool {
    match p {
        UpdateProgress::Started => r is FetchRelease,
        UpdateProgress::Checked(None) => r matches UpdateAction::Fail(UpdaterError::AssetNotFound(n))
            && n@ == asset,
        UpdateProgress::Checked(Some(i)) => r == UpdateAction::ReadRecord(i),
        UpdateProgress::RecordRead { info, local, needs_update } => {
            let name = match local {
                Some(rec) => Some(rec.name@),
                None => None,
            };
            let plan = if detect_switch {
                spec_scheme_plan(asset, name, needs_update)
            } else if needs_update {
                UpdatePlan::Download { switched: false }
            } else {
                UpdatePlan::UpToDate
            };
            match plan {
                UpdatePlan::UpToDate => r matches UpdateAction::Finish(res) && is_up_to_date_result(
                    res,
                    component,
                    info,
                ),
                UpdatePlan::Download { switched } => r == UpdateAction::Install {
                    info,
                    switched,
                    target,
                },
            }
        },
        UpdateProgress::Installed { info, local, apply_time } => r matches UpdateAction::SaveRecord(
            rec,
        ) && is_record_of(rec, asset, info, apply_time),
        UpdateProgress::RecordSaved { info, local } => if clean_build {
            r is RemoveBuild
        } else {
            r matches UpdateAction::Finish(res) && is_updated_result(res, component, local, info)
        },
        UpdateProgress::BuildCleaned { info, local } => r matches UpdateAction::Finish(res)
            && is_updated_result(res, component, local, info),
    }
}

/// The next step of an update (see `step_ok`).
fn update_step(
    asset: &str,
    component: &str,
    detect_switch: bool,
    clean_build: bool,
    target: InstallTarget,
    p: UpdateProgress,
) -> (r: UpdateAction)
    ensures
        step_ok(asset@, component@, detect_switch, clean_build, target, p, r),
{
    match p {
        UpdateProgress::Started => UpdateAction::FetchRelease,
        UpdateProgress::Checked(found) => match found_asset(asset, found) {
            Ok(i) => UpdateAction::ReadRecord(i),
            Err(e) => UpdateAction::Fail(e),
        },
        UpdateProgress::RecordRead { info, local, needs_update } => {
            let plan = if detect_switch {
                plan_scheme(asset, local.as_ref(), needs_update)
            } else if needs_update {
                UpdatePlan::Download { switched: false }
            } else {
                UpdatePlan::UpToDate
            };
            match plan {
                UpdatePlan::UpToDate => UpdateAction::Finish(up_to_date_result(component, &info)),
                UpdatePlan::Download { switched } => UpdateAction::Install { info, switched, target },
            }
        },
        UpdateProgress::Installed { info, local, apply_time } => UpdateAction::SaveRecord(
            make_record(asset, &info, apply_time),
        ),
        UpdateProgress::RecordSaved { info, local } => {
            if clean_build {
                UpdateAction::RemoveBuild
            } else {
                UpdateAction::Finish(updated_result(component, local.as_ref(), &info))
            }
        },
        UpdateProgress::BuildCleaned { info, local } => UpdateAction::Finish(
            updated_result(component, local.as_ref(), &info),
        ),
    }
}

impl IceUpdater {
    /// The next step of a scheme update: `full.zip`, with scheme-switch
    /// detection and the `build` directory removed after the install.
    pub fn scheme_step(&self, p: UpdateProgress) -> (r: UpdateAction)
        ensures
            step_ok("full.zip"@, "方案"@, true, true, InstallTarget::RimeDir, p, r),
    {
        update_step("full.zip", "方案", true, true, InstallTarget::RimeDir, p)
    }

    /// The next step of a dictionary update: `all_dicts.zip`, extracted into
    /// the `dicts` subdirectory, without switch detection or `build` cleanup.
    pub fn dict_step(&self, p: UpdateProgress) -> (r: UpdateAction)
        ensures
            step_ok("all_dicts.zip"@, "词库"@, false, false, InstallTarget::DictsDir, p, r),
    {
        update_step("all_dicts.zip", "词库", false, false, InstallTarget::DictsDir, p)
    }
}

impl FrostUpdater {
    /// The next step of a scheme update: `rime-frost-schemas.zip`, with
    /// scheme-switch detection and the `build` directory removed after the
    /// install.
    pub fn scheme_step(&self, p: UpdateProgress) -> (r: UpdateAction)
        ensures
            step_ok("rime-frost-schemas.zip"@, "方案"@, true, true, InstallTarget::RimeDir, p, r),
    {
        update_step("rime-frost-schemas.zip", "方案", true, true, InstallTarget::RimeDir, p)
    }
}


/// The update sequence: a record that is current (it names this asset, or
/// switches are not looked at, and it needs no update) finishes at once
/// with the up-to-date result and installs nothing; a record that needs an
/// update, or (when switches are looked at) names another asset, installs
/// into `target`, marked as a switch exactly when the record names another
/// asset. The asset is looked up first and a missing one fails the update.
pub proof fn law_update_step(
    asset: Seq<char>,
    component: Seq<char>,
    detect_switch: bool,
    clean_build: bool,
    target: InstallTarget,
    info: UpdateInfo,
    local: Option<UpdateRecord>,
    needs_update: bool,
    r: UpdateAction,
)
    requires
        step_ok(
            asset,
            component,
            detect_switch,
            clean_build,
            target,
            UpdateProgress::RecordRead { info, local, needs_update },
            r,
        ),
    ensures
        ({
            let other = detect_switch && (local matches Some(rec) && rec.name@ != asset);
            &&& (!needs_update && !other) ==> (r matches UpdateAction::Finish(res)
                && is_up_to_date_result(res, component, info))
            &&& (needs_update || other) ==> (r matches UpdateAction::Install { info: i, switched, target: t }
                && i == info && t == target && switched == other)
        }),
{
}

/// A dictionary update (no switch detection) of a record that needs no
/// update finishes at once with the up-to-date result; one that does
/// installs into the `dicts` directory.
pub proof fn law_dict_step(info: UpdateInfo, local: Option<UpdateRecord>, needs_update: bool, r: UpdateAction)
    requires
        step_ok(
            "all_dicts.zip"@,
            "词库"@,
            false,
            false,
            InstallTarget::DictsDir,
            UpdateProgress::RecordRead { info, local, needs_update },
            r,
        ),
    ensures
        !needs_update ==> (r matches UpdateAction::Finish(res) && is_up_to_date_result(res, "词库"@, info)),
        needs_update ==> r == (UpdateAction::Install { info, switched: false, target: InstallTarget::DictsDir }),
{
    law_update_step("all_dicts.zip"@, "词库"@, false, false, InstallTarget::DictsDir, info, local, needs_update, r);
}

} // verus!
