//! Deployment decisions: which Rime front ends are installed, how each is
//! told to redeploy, where their data lives, what an engine sync copies,
//! how hooks run, and how the outcomes of a deployment are summed up.
use crate::platform::Platform;
use crate::text::{chars_of, join_sep, join_strings, str_eq, str_views, string_of, trim, trim_chars};
use vstd::prelude::*;

verus! {

broadcast use vstd::string::group_string_axioms;

/// Why a deployment step fails.
pub enum DeployError {
    /// No Rime front end was found.
    NoEngineDetected,
    /// Every front end failed; the failures joined by `; `.
    AllEnginesFailed(String),
    /// A needed program is not on the search path.
    BinaryNotFound(String),
    /// A hook script exited with failure.
    HookFailed,
}

impl DeployError {
    /// The message key of the error.
    pub fn message_key(&self) -> (r: &'static str)
        ensures
            r@ == match self {
                DeployError::NoEngineDetected => "deploy.no_engine_detected"@,
                DeployError::AllEnginesFailed(_) => "deploy.all_engines_failed"@,
                DeployError::BinaryNotFound(_) => "deploy.binary_not_found"@,
                DeployError::HookFailed => "deploy.hook_failed"@,
            },
    {
        match self {
            DeployError::NoEngineDetected => "deploy.no_engine_detected",
            DeployError::AllEnginesFailed(_) => "deploy.all_engines_failed",
            DeployError::BinaryNotFound(_) => "deploy.binary_not_found",
            DeployError::HookFailed => "deploy.hook_failed",
        }
    }
}

/// What the machine shows of the installed front ends.
pub struct EngineProbe {
    /// `fcitx5-remote` is on the search path.
    pub fcitx5_remote_found: bool,
    /// `ibus` is on the search path.
    pub ibus_found: bool,
    /// `/Library/Input Methods/Squirrel.app` exists.
    pub squirrel_app_exists: bool,
    /// `C:\Program Files\Rime` exists.
    pub weasel_dir_exists: bool,
}

/// The installed front ends, in detection order.
pub open spec fn spec_detect_engines(platform: Platform, probe: EngineProbe) -> Seq<Seq<char>> {
    match platform {
        Platform::Linux => {
            let a = if probe.fcitx5_remote_found {
                seq!["fcitx5"@]
            } else {
                seq![]
            };
            if probe.ibus_found {
                a.push("ibus"@)
            } else {
                a
            }
        },
        Platform::MacOs => if probe.squirrel_app_exists {
            seq!["squirrel"@]
        } else {
            seq![]
        },
        Platform::Windows => if probe.weasel_dir_exists {
            seq!["weasel"@]
        } else {
            seq![]
        },
        Platform::Other => seq![],
    }
}

/// The installed front ends: Fcitx5 and IBus on Linux (by their control
/// programs), Squirrel on macOS, Weasel on Windows.
pub fn detect_engines(platform: Platform, probe: &EngineProbe) -> (r: Vec<String>)
    ensures
        str_views(r@) == spec_detect_engines(platform, *probe),
{
    let mut engines: Vec<String> = Vec::new();
    match platform {
        Platform::Linux => {
            if probe.fcitx5_remote_found {
                engines.push("fcitx5".to_string());
            }
            if probe.ibus_found {
                engines.push("ibus".to_string());
            }
        },
        Platform::MacOs => {
            if probe.squirrel_app_exists {
                engines.push("squirrel".to_string());
            }
        },
        Platform::Windows => {
            if probe.weasel_dir_exists {
                engines.push("weasel".to_string());
            }
        },
        Platform::Other => {},
    }
    assert(str_views(engines@) =~= spec_detect_engines(platform, *probe));
    engines
}

/// How a front end is told to redeploy.
pub enum DeployStep {
    /// Look `binary` up on the search path and start it with `args`; a
    /// missing binary is an error.
    Located { binary: String, args: Vec<String> },
    /// Start the program at `path` with `args` if it exists.
    IfPresent { path: String, args: Vec<String> },
    /// Nothing to do for this engine on this platform.
    Skip,
}

/// The redeploy command of each front end on its own platform.
pub open spec fn deploy_step_ok(platform: Platform, engine: Seq<char>, s: DeployStep) -> bool {
    if platform == Platform::Linux && engine == "fcitx5"@ {
        s matches DeployStep::Located { binary, args } && binary@ == "fcitx5-remote"@ && str_views(
            args@,
        ) == seq!["-r"@]
    } else if platform == Platform::Linux && engine == "ibus"@ {
        s matches DeployStep::Located { binary, args } && binary@ == "ibus"@ && str_views(args@)
            == seq!["engine"@, "Rime"@]
    } else if platform == Platform::MacOs && engine == "squirrel"@ {
        s matches DeployStep::IfPresent { path, args } && path@
            == "/Library/Input Methods/Squirrel.app/Contents/MacOS/Squirrel"@ && str_views(args@)
            == seq!["--reload"@]
    } else if platform == Platform::Windows && engine == "weasel"@ {
        s matches DeployStep::IfPresent { path, args } && path@
            == "C:\\Program Files\\Rime\\weaselDeployer.exe"@ && args@.len() == 0
    } else {
        s is Skip
    }
}

/// The command that makes `engine` redeploy: `fcitx5-remote -r`,
/// `ibus engine Rime`, Squirrel's `--reload`, or Weasel's deployer.
pub fn deploy_to(platform: Platform, engine: &str) -> (r: DeployStep)
    ensures
        deploy_step_ok(platform, engine@, r),
{
    let linux = match platform {
        Platform::Linux => true,
        _ => false,
    };
    let macos = match platform {
        Platform::MacOs => true,
        _ => false,
    };
    let windows = match platform {
        Platform::Windows => true,
        _ => false,
    };
    if linux && str_eq(engine, "fcitx5") {
        let mut args: Vec<String> = Vec::new();
        args.push("-r".to_string());
        assert(str_views(args@) =~= seq!["-r"@]);
        DeployStep::Located { binary: "fcitx5-remote".to_string(), args }
    } else if linux && str_eq(engine, "ibus") {
        let mut args: Vec<String> = Vec::new();
        args.push("engine".to_string());
        args.push("Rime".to_string());
        assert(str_views(args@) =~= seq!["engine"@, "Rime"@]);
        DeployStep::Located { binary: "ibus".to_string(), args }
    } else if macos && str_eq(engine, "squirrel") {
        let mut args: Vec<String> = Vec::new();
        args.push("--reload".to_string());
        assert(str_views(args@) =~= seq!["--reload"@]);
        DeployStep::IfPresent {
            path: "/Library/Input Methods/Squirrel.app/Contents/MacOS/Squirrel".to_string(),
            args,
        }
    } else if windows && str_eq(engine, "weasel") {
        DeployStep::IfPresent {
            path: "C:\\Program Files\\Rime\\weaselDeployer.exe".to_string(),
            args: Vec::new(),
        }
    } else {
        DeployStep::Skip
    }
}

/// What `which <name>` printed: the trimmed output when it succeeded with
/// UTF-8 output (`stdout` is `None` when the output is not UTF-8).
pub fn which(success: bool, stdout: Option<&str>) -> (r: Option<String>)
    ensures
        match r {
            Some(p) => success && stdout is Some && p@ == trim(stdout->0@),
            None => !success || stdout is None,
        },
{
    if !success {
        return None;
    }
    match stdout {
        Some(out) => {
            let cs = chars_of(out);
            let t = trim_chars(&cs);
            Some(string_of(&t))
        },
        None => None,
    }
}

/// Whether a program was found on the search path.
pub fn has_binary(found: &Option<String>) -> (r: bool)
    ensures
        r == found is Some,
{
    found.is_some()
}

/// The path of a program needed for deployment, or the error that names it.
pub fn find_binary(name: &str, found: Option<String>) -> (r: Result<String, DeployError>)
    ensures
        match r {
            Ok(p) => found == Some(p),
            Err(e) => found is None && (e matches DeployError::BinaryNotFound(n) && n@ == name@),
        },
{
    match found {
        Some(p) => Ok(p),
        None => Err(DeployError::BinaryNotFound(name.to_string())),
    }
}

/// The base directory an engine's data directory lies under.
#[derive(Clone, Copy, Debug, PartialEq, Eq, Structural)]
pub enum DataBase {
    /// The user's home directory.
    Home,
    /// The platform's user data directory.
    DataDir,
    /// `%APPDATA%`.
    AppData,
}

/// Where an engine's Rime data lives: `rel` under the `base` directory.
pub open spec fn spec_engine_data_dir(platform: Platform, engine: Seq<char>) -> Option<
    (DataBase, Seq<char>),
> {
    if platform == Platform::Linux && engine == "fcitx5"@ {
        Some((DataBase::DataDir, "fcitx5/rime"@))
    } else if platform == Platform::Linux && engine == "ibus"@ {
        Some((DataBase::Home, ".config/ibus/rime"@))
    } else if platform == Platform::MacOs && engine == "squirrel"@ {
        Some((DataBase::Home, "Library/Rime"@))
    } else if platform == Platform::Windows && engine == "weasel"@ {
        Some((DataBase::AppData, "Rime"@))
    } else {
        None
    }
}

/// An engine's data directory as a base and a relative path: Fcitx5's
/// `fcitx5/rime` under the data directory, IBus's `.config/ibus/rime` and
/// Squirrel's `Library/Rime` under home, Weasel's `Rime` under `%APPDATA%`.
/// The directory is only known when the home directory is.
pub fn engine_data_dir(platform: Platform, engine: &str, home_known: bool) -> (r: Option<
    (DataBase, String),
>)
    ensures
        match r {
            Some((b, rel)) => home_known && spec_engine_data_dir(platform, engine@) == Some(
                (b, rel@),
            ),
            None => !home_known || spec_engine_data_dir(platform, engine@) is None,
        },
{
    if !home_known {
        return None;
    }
    let linux = match platform {
        Platform::Linux => true,
        _ => false,
    };
    let macos = match platform {
        Platform::MacOs => true,
        _ => false,
    };
    let windows = match platform {
        Platform::Windows => true,
        _ => false,
    };
    if linux && str_eq(engine, "fcitx5") {
        Some((DataBase::DataDir, "fcitx5/rime".to_string()))
    } else if linux && str_eq(engine, "ibus") {
        Some((DataBase::Home, ".config/ibus/rime".to_string()))
    } else if macos && str_eq(engine, "squirrel") {
        Some((DataBase::Home, "Library/Rime".to_string()))
    } else if windows && str_eq(engine, "weasel") {
        Some((DataBase::AppData, "Rime".to_string()))
    } else {
        None
    }
}

/// The engines a sync copies to: with two or more engines, every engine but
/// the first (the primary, whose directory is the source).
pub open spec fn spec_sync_targets(engines: Seq<Seq<char>>) -> Seq<int>
    decreases engines.len(),
{
    if engines.len() <= 1 {
        seq![]
    } else {
        let rest = spec_sync_targets(engines.drop_last());
        if engines.last() != engines[0] {
            rest.push(engines.len() - 1)
        } else {
            rest
        }
    }
}

/// Positions, in order, of the engines a sync copies to.
pub fn sync_targets(engines: &Vec<String>) -> (r: Vec<usize>)
    ensures
        r@.map_values(|x: usize| x as int) == spec_sync_targets(str_views(engines@)),
{
    let ghost all = str_views(engines@);
    let mut out: Vec<usize> = Vec::new();
    if engines.len() <= 1 {
        assert(out@.map_values(|x: usize| x as int) =~= Seq::<int>::empty());
        return out;
    }
    let mut i: usize = 1;
    assert(spec_sync_targets(all.take(1)) == Seq::<int>::empty());
    while i < engines.len()
        invariant
            1 <= i <= engines.len(),
            engines.len() >= 2,
            all == str_views(engines@),
            out@.map_values(|x: usize| x as int) == spec_sync_targets(all.take(i as int)),
        decreases engines.len() - i,
    {
        let ghost next = all.take(i + 1);
        assert(next.drop_last() =~= all.take(i as int));
        assert(next.last() == engines@[i as int]@);
        assert(next[0] == engines@[0]@);
        let ghost before = out@.map_values(|x: usize| x as int);
        if !str_eq(engines[i].as_str(), engines[0].as_str()) {
            out.push(i);
            assert(out@.map_values(|x: usize| x as int) =~= before.push(i as int));
        }
        i = i + 1;
    }
    assert(all.take(engines.len() as int) =~= all);
    out
}

/// Whether an engine sync links the directory instead of copying it: only
/// when links are asked for and the system is Unix-like.
pub fn sync_uses_link(use_link: bool, unix: bool) -> (r: bool)
    ensures
        r == (use_link && unix),
{
    use_link && unix
}

/// A directory entry is copied unless its name is excluded or is `build`.
pub open spec fn spec_should_copy(name: Seq<char>, exclude: Seq<Seq<char>>) -> bool {
    !exclude.contains(name) && name != "build"@
}

/// Whether a filtered copy takes the entry.
pub fn should_copy_entry(name: &str, exclude_files: &Vec<String>) -> (r: bool)
    ensures
        r == spec_should_copy(name@, str_views(exclude_files@)),
{
    let ghost ex = str_views(exclude_files@);
    let mut i: usize = 0;
    while i < exclude_files.len()
        invariant
            0 <= i <= exclude_files.len(),
            ex == str_views(exclude_files@),
            forall|j: int| 0 <= j < i ==> ex[j] != name@,
        decreases exclude_files.len() - i,
    {
        if str_eq(name, exclude_files[i].as_str()) {
            assert(ex[i as int] == name@);
            return false;
        }
        i = i + 1;
    }
    assert(!ex.contains(name@)) by {
        if ex.contains(name@) {
            let j = choose|j: int| 0 <= j < ex.len() && ex[j] == name@;
        }
    }
    !str_eq(name, "build")
}

/// What a path on disk is.
#[derive(Clone, Copy, Debug, PartialEq, Eq, Structural)]
pub struct PathState {
    pub exists: bool,
    pub is_symlink: bool,
    pub is_file: bool,
    pub is_dir: bool,
}

/// A step that clears the way for the link.
#[derive(Clone, Copy, Debug, PartialEq, Eq, Structural)]
pub enum LinkPrep {
    /// Remove the target, a link or a file.
    RemoveTarget,
    /// Remove the old backup directory.
    RemoveBackupDir,
    /// Remove the old backup file.
    RemoveBackupFile,
    /// Move the target directory to the backup path (`<target>.bak`).
    MoveTargetToBackup,
}

/// The steps before linking the engine directory to the source: a link or
/// file at the target is removed; a directory is kept as `<target>.bak`,
/// replacing any older backup; a missing target needs nothing.
pub open spec fn spec_link_preparation(target: PathState, backup: PathState) -> Seq<LinkPrep> {
    if target.exists || target.is_symlink {
        if target.is_symlink || target.is_file {
            seq![LinkPrep::RemoveTarget]
        } else if target.is_dir {
            if backup.exists {
                if backup.is_dir {
                    seq![LinkPrep::RemoveBackupDir, LinkPrep::MoveTargetToBackup]
                } else {
                    seq![LinkPrep::RemoveBackupFile, LinkPrep::MoveTargetToBackup]
                }
            } else {
                seq![LinkPrep::MoveTargetToBackup]
            }
        } else {
            seq![]
        }
    } else {
        seq![]
    }
}

/// The steps before the link is made (see `spec_link_preparation`).
pub fn sync_via_symlink(target: PathState, backup: PathState) -> (r: Vec<LinkPrep>)
    ensures
        r@ == spec_link_preparation(target, backup),
{
    let mut steps: Vec<LinkPrep> = Vec::new();
    if target.exists || target.is_symlink {
        if target.is_symlink || target.is_file {
            steps.push(LinkPrep::RemoveTarget);
        } else if target.is_dir {
            if backup.exists {
                if backup.is_dir {
                    steps.push(LinkPrep::RemoveBackupDir);
                } else {
                    steps.push(LinkPrep::RemoveBackupFile);
                }
            }
            steps.push(LinkPrep::MoveTargetToBackup);
        }
    }
    assert(steps@ =~= spec_link_preparation(target, backup));
    steps
}

/// What running a hook amounts to.
#[derive(Clone, Copy, Debug, PartialEq, Eq, Structural)]
pub enum HookPlan {
    /// No hook is configured.
    Skip,
    /// The configured hook does not exist; a warning is printed.
    Missing,
    /// The hook is run with `sh -c`.
    Run,
}

/// What to do with a hook: nothing for an empty path, a warning for a path
/// that does not exist, else run it.
pub fn run_hook(hook_path: &str, path_exists: bool) -> (r: HookPlan)
    ensures
        r == if hook_path@.len() == 0 {
            HookPlan::Skip
        } else if !path_exists {
            HookPlan::Missing
        } else {
            HookPlan::Run
        },
{
    let cs = chars_of(hook_path);
    if cs.len() == 0 {
        HookPlan::Skip
    } else if !path_exists {
        HookPlan::Missing
    } else {
        HookPlan::Run
    }
}

/// The outcome of a hook that ran: a failing exit status is an error.
pub fn hook_outcome(success: bool) -> (r: Result<(), DeployError>)
    ensures
        r is Ok <==> success,
        r matches Err(e) ==> e is HookFailed,
{
    if success {
        Ok(())
    } else {
        Err(DeployError::HookFailed)
    }
}

/// Deploying needs at least one front end.
pub fn ensure_deployable_engine_set(has_engines: bool) -> (r: Result<(), DeployError>)
    ensures
        r is Ok <==> has_engines,
        r matches Err(e) ==> e is NoEngineDetected,
{
    if has_engines {
        Ok(())
    } else {
        Err(DeployError::NoEngineDetected)
    }
}

/// The outcome of a deployment to every engine: an error, listing every
/// failure joined by `; `, when no engine succeeded; otherwise success,
/// with the joined failures to warn about when some engines failed.
pub fn finalize_deploy_result(success_count: usize, failures: &Vec<String>) -> (r: Result<
    Option<String>,
    DeployError,
>)
    ensures
        r is Ok <==> success_count > 0,
        match r {
            Ok(Some(w)) => failures.len() > 0 && w@ == join_sep(str_views(failures@), "; "@),
            Ok(None) => failures.len() == 0,
            Err(DeployError::AllEnginesFailed(m)) => m@ == join_sep(str_views(failures@), "; "@),
            Err(_) => false,
        },
{
    if success_count == 0 {
        return Err(DeployError::AllEnginesFailed(join_strings(failures, "; ")));
    }
    if failures.len() > 0 {
        Ok(Some(join_strings(failures, "; ")))
    } else {
        Ok(None)
    }
}

/// The failure line of an engine: `<engine>: <error>`.
pub open spec fn failure_line(engine: Seq<char>, error: Seq<char>) -> Seq<char> {
    engine + ": "@ + error
}

/// What deploying to each engine came to so far.
pub struct DeployTally {
    pub success_count: usize,
    pub failures: Vec<String>,
}

impl DeployTally {
    /// Nothing deployed yet.
    pub fn new() -> (r: DeployTally)
        ensures
            r.success_count == 0,
            r.failures@.len() == 0,
    {
        DeployTally { success_count: 0, failures: Vec::new() }
    }

    /// Counts a success, or records `<engine>: <error>` for a failure.
    pub fn record(&mut self, engine: &str, outcome: Result<(), String>)
        requires
            old(self).success_count < usize::MAX,
        ensures
            match outcome {
                Ok(()) => final(self).success_count == old(self).success_count + 1
                    && final(self).failures == old(self).failures,
                Err(e) => final(self).success_count == old(self).success_count && str_views(
                    final(self).failures@,
                ) == str_views(old(self).failures@).push(failure_line(engine@, e@)),
            },
    {
        match outcome {
            Ok(()) => {
                self.success_count = self.success_count + 1;
            },
            Err(e) => {
                let ghost before = str_views(self.failures@);
                let mut out: Vec<char> = Vec::new();
                crate::text::push_str_chars(&mut out, engine);
                crate::text::push_str_chars(&mut out, ": ");
                crate::text::push_str_chars(&mut out, e.as_str());
                assert(out@ =~= failure_line(engine@, e@));
                self.failures.push(string_of(&out));
                assert(str_views(self.failures@) =~= before.push(failure_line(engine@, e@)));
            },
        }
    }

    /// The outcome of the whole deployment (see `finalize_deploy_result`).
    pub fn finish(&self) -> (r: Result<Option<String>, DeployError>)
        ensures
            r is Ok <==> self.success_count > 0,
            match r {
                Ok(Some(w)) => self.failures.len() > 0 && w@ == join_sep(
                    str_views(self.failures@),
                    "; "@,
                ),
                Ok(None) => self.failures.len() == 0,
                Err(DeployError::AllEnginesFailed(m)) => m@ == join_sep(
                    str_views(self.failures@),
                    "; "@,
                ),
                Err(_) => false,
            },
    {
        finalize_deploy_result(self.success_count, &self.failures)
    }
}


/// Detection: each front end is found exactly when its probe shows it on
/// its own platform, and no other name is ever reported: on Linux `fcitx5`
/// when `fcitx5-remote` is found and `ibus` when `ibus` is found; on macOS
/// `squirrel` when Squirrel.app exists; on Windows `weasel` when its
/// directory exists. No engine is reported twice.
pub proof fn law_detect_engines(platform: Platform, probe: EngineProbe)
    ensures
        spec_detect_engines(platform, probe).contains("fcitx5"@) <==> (platform == Platform::Linux
            && probe.fcitx5_remote_found),
        spec_detect_engines(platform, probe).contains("ibus"@) <==> (platform == Platform::Linux
            && probe.ibus_found),
        spec_detect_engines(platform, probe).contains("squirrel"@) <==> (platform
            == Platform::MacOs && probe.squirrel_app_exists),
        spec_detect_engines(platform, probe).contains("weasel"@) <==> (platform
            == Platform::Windows && probe.weasel_dir_exists),
        forall|i: int|
            0 <= i < spec_detect_engines(platform, probe).len() ==> {
                let e = #[trigger] spec_detect_engines(platform, probe)[i];
                e == "fcitx5"@ || e == "ibus"@ || e == "squirrel"@ || e == "weasel"@
            },
        spec_detect_engines(platform, probe).no_duplicates(),
{
    reveal_strlit("fcitx5");
    reveal_strlit("ibus");
    reveal_strlit("squirrel");
    reveal_strlit("weasel");
    let d = spec_detect_engines(platform, probe);
    assert("fcitx5"@[0] == 'f' && "ibus"@[0] == 'i' && "squirrel"@[0] == 's' && "weasel"@[0] == 'w');
    assert("fcitx5"@ != "ibus"@ && "fcitx5"@ != "squirrel"@ && "fcitx5"@ != "weasel"@);
    assert("ibus"@ != "squirrel"@ && "ibus"@ != "weasel"@ && "squirrel"@ != "weasel"@);
    match platform {
        Platform::Linux => {
            if probe.fcitx5_remote_found && probe.ibus_found {
                assert(d[0] == "fcitx5"@ && d[1] == "ibus"@);
            } else if probe.fcitx5_remote_found {
                assert(d[0] == "fcitx5"@);
            } else if probe.ibus_found {
                assert(d[0] == "ibus"@);
            }
        },
        Platform::MacOs => {
            if probe.squirrel_app_exists {
                assert(d[0] == "squirrel"@);
            }
        },
        Platform::Windows => {
            if probe.weasel_dir_exists {
                assert(d[0] == "weasel"@);
            }
        },
        Platform::Other => {},
    }
}

} // verus!
