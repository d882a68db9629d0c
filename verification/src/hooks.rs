//! What the updater decides at startup, from its command line, the record
//! of the install and the answers of the delivery server.
use crate::common::CrashState;
use crate::defines::{Config, PAKKLY_CACHE_SEC};
use crate::error::FormattedError;
use crate::remoteinstallerdata::StoredInstallData;
use crate::text::{str_concat, str_eq};
use vstd::prelude::*;

verus! {

/// Whether `arg_query` is among `args`.
pub open spec fn flag_set_spec(args: Seq<String>, arg_query: Seq<char>) -> bool {
    exists|i: int| 0 <= i < args.len() && (#[trigger] args[i])@ == arg_query
}

/// Whether the flag `arg_query` is on the command line `args`.
pub fn arg_flag_set(args: &Vec<String>, arg_query: &str) -> (r: bool)
    ensures
        r == flag_set_spec(args@, arg_query@),
{
    let mut i: usize = 0;
    while i < args.len()
        invariant
            0 <= i <= args.len(),
            forall|k: int| 0 <= k < i ==> (#[trigger] args@[k])@ != arg_query@,
        decreases args.len() - i,
    {
        if str_eq(args[i].as_str(), arg_query) {
            return true;
        }
        i += 1;
    }
    false
}

/// Whether `at` is where `arg_query` first stands in `args`.
pub open spec fn first_flag_at(args: Seq<String>, arg_query: Seq<char>, at: int) -> bool {
    &&& 0 <= at < args.len()
    &&& args[at]@ == arg_query
    &&& forall|k: int| 0 <= k < at ==> (#[trigger] args[k])@ != arg_query
}

/// The value of the option `arg_query` on the command line `args`: the
/// argument that follows its first occurrence, or `None` where it does not
/// occur. Fails exactly where the option is the last argument.
pub fn arg_value_set(args: &Vec<String>, arg_query: &str) -> (r: Result<
    Option<String>,
    FormattedError,
>)
    ensures
        match r {
            Ok(None) => !flag_set_spec(args@, arg_query@),
            Ok(Some(v)) => exists|at: int| #[trigger]
                first_flag_at(args@, arg_query@, at) && at + 1 < args@.len() && v@ == args@[at + 1]@,
            Err(e) => first_flag_at(args@, arg_query@, args@.len() - 1) && e.msg@ == arg_query@
                + " CLI needs a value!"@,
        },
{
    let mut i: usize = 0;
    while i < args.len()
        invariant
            0 <= i <= args.len(),
            forall|k: int| 0 <= k < i ==> (#[trigger] args@[k])@ != arg_query@,
        decreases args.len() - i,
    {
        if str_eq(args[i].as_str(), arg_query) {
            assert(first_flag_at(args@, arg_query@, i as int));
            if i + 1 < args.len() {
                return Ok(Some(args[i + 1].clone()));
            }
            return Err(FormattedError::from_str(str_concat(arg_query, " CLI needs a value!")));
        }
        i += 1;
    }
    Ok(None)
}

/// The value of a result that is known to be no failure.
pub fn unwrap_fe<T>(res: Result<T, FormattedError>) -> (r: T)
    requires
        res is Ok,
    ensures
        r == res->Ok_0,
{
    match res {
        Ok(v) => v,
        Err(_) => vstd::pervasive::unreached(),
    }
}

/// The warning to log for a result: the message of its failure, if it is
/// one.
pub fn warn_unwrap<K>(x: Result<K, FormattedError>) -> (warning: Option<String>)
    ensures
        warning is Some <==> x is Err,
        x is Err ==> warning->Some_0 == x->Err_0.msg,
{
    match x {
        Ok(_) => None,
        Err(e) => Some(e.msg),
    }
}

/// Whether the application is to be installed or updated: always on a
/// fresh install, otherwise where the server offers another version than
/// the one installed.
pub fn should_app_update(local_data: &StoredInstallData, fresh_install: bool) -> (r: bool)
    ensures
        r == (fresh_install || local_data.installed_app_info.version@
            != local_data.fetched_meta.app.version@),
{
    if !fresh_install {
        if local_data.installed_app_info.version == local_data.fetched_meta.app.version {
            return false;
        }
    }
    true
}

/// Whether the updater replaces itself: on an existing install where the
/// server offers another updater version than the one running.
pub fn selfupdate_hook(local_data: &StoredInstallData, c: &Config) -> (r: bool)
    ensures
        r == (!c.fresh_install && local_data.fetched_meta.shipper.version@ != c.shipper_version@),
{
    !c.fresh_install && local_data.fetched_meta.shipper.version != c.shipper_version
}

/// Whether the resident updater is installed anew: on an existing install
/// whose updater binary is gone, unless this process is itself the staged
/// updater taking its place.
pub fn repair_shipper_hook(fresh_install: bool, resident_exists: bool, replacing: bool) -> (r: bool)
    ensures
        r == (!fresh_install && !resident_exists && !replacing),
{
    !fresh_install && !resident_exists && !replacing
}

/// Whether this process installs without a window and exits.
pub fn install_quiet_exit_hook(args: &Vec<String>) -> (r: bool)
    ensures
        r == flag_set_spec(args@, crate::defines::PAKKLY_CLI_INSTALL_QUIET@),
{
    arg_flag_set(args, crate::defines::PAKKLY_CLI_INSTALL_QUIET)
}

/// Whether this process is the staged updater that takes the place of the
/// resident one.
pub fn install_indirect_exit_hook(args: &Vec<String>) -> (r: bool)
    ensures
        r == flag_set_spec(args@, crate::defines::PAKKLY_CLI_REPLACE_SHIPPER@),
{
    arg_flag_set(args, crate::defines::PAKKLY_CLI_REPLACE_SHIPPER)
}

/// What a request to uninstall leads to.
#[derive(Clone, Copy, Debug, PartialEq, Eq, Structural)]
pub enum UninstallRequest {
    /// No uninstall was asked for.
    NotRequested,
    /// An uninstall was asked for, but nothing is installed: exit with a
    /// failure.
    NothingInstalled,
    /// Uninstall, asking the user first unless `quiet`.
    Uninstall { quiet: bool },
}

/// What the uninstall flags on the command line lead to.
pub fn uninstall_exit_hook(args: &Vec<String>, installed: bool) -> (r: UninstallRequest)
    ensures
        r == ({
            let quiet = flag_set_spec(args@, crate::defines::PAKKLY_CLI_UNINSTALL_QUIET@);
            let regular = flag_set_spec(args@, crate::defines::PAKKLY_CLI_UNINSTALL@);
            if !(quiet || regular) {
                UninstallRequest::NotRequested
            } else if !installed {
                UninstallRequest::NothingInstalled
            } else {
                UninstallRequest::Uninstall { quiet }
            }
        }),
{
    let quiet = arg_flag_set(args, crate::defines::PAKKLY_CLI_UNINSTALL_QUIET);
    let regular = arg_flag_set(args, crate::defines::PAKKLY_CLI_UNINSTALL);
    if !(quiet || regular) {
        UninstallRequest::NotRequested
    } else if !installed {
        UninstallRequest::NothingInstalled
    } else {
        UninstallRequest::Uninstall { quiet }
    }
}

/// Whether exact versions were asked for on the command line, so that the
/// server is asked again for those.
pub fn force_update_hook(specific_app: &Option<String>, specific_shipper: &Option<String>) -> (r:
    bool)
    ensures
        r == (specific_app is Some || specific_shipper is Some),
{
    specific_app.is_some() || specific_shipper.is_some()
}

/// Whether the last launch is so recent that the server is not asked
/// again and the application is launched at once: within the cache time,
/// unless exact versions were asked for.
pub fn update_timer_exit_hook(last_launch: i64, now: i64, forced: bool) -> (r: bool)
    ensures
        r == (!forced && last_launch + PAKKLY_CACHE_SEC > now),
{
    if forced {
        return false;
    }
    let l: i128 = last_launch as i128;
    let n: i128 = now as i128;
    l + (PAKKLY_CACHE_SEC as i128) > n
}

/// What a starting updater does about other running updaters.
#[derive(Clone, Copy, Debug, PartialEq, Eq, Structural)]
pub enum DuplicateOutcome {
    /// No other updater is running: go on to check for updates.
    Continue,
    /// Skip the update check and hand over to the launch of the
    /// application, which yields to the peer where only one instance is
    /// allowed.
    LaunchWithoutUpdate,
    /// An uninstall was asked for while the application is running: tell
    /// the user and exit with a failure.
    RefuseUninstall,
}

/// What a starting updater does, given how many other updaters it found
/// (`None` where the shared directory could not be read). The install is
/// touched on no path but the first.
pub fn duplicate_process_hook(peers: Option<usize>, uninstall_requested: bool) -> (r:
    DuplicateOutcome)
    ensures
        r == match peers {
            None => DuplicateOutcome::LaunchWithoutUpdate,
            Some(n) => if n == 0 {
                DuplicateOutcome::Continue
            } else if uninstall_requested {
                DuplicateOutcome::RefuseUninstall
            } else {
                DuplicateOutcome::LaunchWithoutUpdate
            },
        },
{
    match peers {
        None => DuplicateOutcome::LaunchWithoutUpdate,
        Some(n) => {
            if n == 0 {
                DuplicateOutcome::Continue
            } else if uninstall_requested {
                DuplicateOutcome::RefuseUninstall
            } else {
                DuplicateOutcome::LaunchWithoutUpdate
            }
        },
    }
}

/// How an attended install ended, given its result.
pub fn crash_state_of(install_status: &Result<(), FormattedError>) -> (cs: CrashState)
    ensures
        cs == match install_status {
            Ok(_) => CrashState::NoError,
            Err(e) => if e.is_network_error {
                CrashState::NetworkError
            } else {
                CrashState::InstallFailed
            },
        },
{
    match install_status {
        Ok(_) => CrashState::NoError,
        Err(e) => {
            if e.is_network_error {
                CrashState::NetworkError
            } else {
                CrashState::InstallFailed
            }
        },
    }
}

/// What follows the installer window.
#[derive(Clone, Copy, Debug, PartialEq, Eq, Structural)]
pub enum AfterWindow {
    /// Exit with success.
    Exit,
    /// Launch the application as it was installed before.
    LaunchPrevious,
    /// Offer to report the failure, then exit with a failure.
    ReportAndExit,
    /// Tell the user that the connection broke, then launch the
    /// application as it was installed before.
    AlertThenLaunchPrevious,
    /// Tell the user that the connection broke, then exit with a failure.
    AlertThenExit,
    /// Read the record anew and launch the application.
    LaunchInstalled,
}

/// What follows the installer window, given how the install ended.
/// Whatever failed, an application that was installed before is launched
/// as it was.
pub fn after_install_window(val: CrashState, fresh_install: bool) -> (r: AfterWindow)
    ensures
        r == match val {
            CrashState::UserAbort => AfterWindow::Exit,
            CrashState::FatalError | CrashState::InstallFailed => if fresh_install {
                AfterWindow::ReportAndExit
            } else {
                AfterWindow::LaunchPrevious
            },
            CrashState::NetworkError => if fresh_install {
                AfterWindow::AlertThenExit
            } else {
                AfterWindow::AlertThenLaunchPrevious
            },
            CrashState::NoError => AfterWindow::LaunchInstalled,
        },
{
    match val {
        CrashState::UserAbort => AfterWindow::Exit,
        CrashState::FatalError | CrashState::InstallFailed => {
            if fresh_install {
                AfterWindow::ReportAndExit
            } else {
                AfterWindow::LaunchPrevious
            }
        },
        CrashState::NetworkError => {
            if fresh_install {
                AfterWindow::AlertThenExit
            } else {
                AfterWindow::AlertThenLaunchPrevious
            }
        },
        CrashState::NoError => AfterWindow::LaunchInstalled,
    }
}

/// Whether a progress report is handed to the window: the last one
/// always, any other only where the previous one is at least a fifth of
/// a second old.
pub fn deliver_progress(is_final: bool, since_last_ms: Option<u64>) -> (r: bool)
    ensures
        r == (is_final || since_last_ms is None || since_last_ms->Some_0 >= 200),
{
    if is_final {
        return true;
    }
    match since_last_ms {
        Some(ms) => ms >= 200,
        None => true,
    }
}

} // verus!
