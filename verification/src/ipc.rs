//! The singleton coordinator: which other updaters of the same application
//! are running, and what a starting updater does about them.
//!
//! Every running updater leaves a presence record, a file named after its
//! process id, in a shared directory. A starting updater reads the records,
//! drops its own and those of processes that are no longer alive, and
//! yields to whoever is left unless many instances are allowed.
use crate::decimal::{decimal_text, format_u64, lemma_decimal_round_trip, parse_spec, parse_u64};
use crate::defines::{Config, Platform};
use crate::error::{fail, FormattedError};
use crate::paths::{get_ipc_dir, install_dir_pakkly_spec, join, join_spec};
use crate::shipperfile::InstanceMode;
use crate::text::{ends_with_spec, str_concat, str_ends_with, str_eq};
use vstd::prelude::*;

verus! {

/// The presence record of another process.
#[derive(Clone, Debug)]
pub struct ExternalIPCInfo {
    /// The process id as decimal text.
    pub pid: String,
}

/// The presence record of this process.
#[derive(Clone, Debug)]
pub struct IPCInfo {
    pub ipc_data: ExternalIPCInfo,
}

/// One file found in the shared directory.
#[derive(Clone, Debug)]
pub struct PresenceFile {
    pub file_name: String,
    /// The process id that the file holds, where it holds a record.
    pub pid: Option<String>,
}

/// Whether the file `f` is named like a presence record.
pub open spec fn is_record_name(f: PresenceFile) -> bool {
    ends_with_spec(f.file_name@, ".json"@)
}

/// Whether `f` holds a record that can be read: a file named like a record
/// holds a process id, which is this process's own or canonical decimal
/// text.
pub open spec fn record_readable(f: PresenceFile, my_pid: Seq<char>) -> bool {
    is_record_name(f) ==> f.pid is Some && (f.pid->Some_0@ == my_pid || parse_spec(
        f.pid->Some_0@,
        u64::MAX as nat,
    ) is Some)
}

/// Whether every file of `files` can be read.
pub open spec fn records_readable(files: Seq<PresenceFile>, my_pid: Seq<char>) -> bool {
    forall|i: int| 0 <= i < files.len() ==> record_readable(#[trigger] files[i], my_pid)
}

/// Whether `f` is the record of a live process other than this one.
pub open spec fn is_live_peer(f: PresenceFile, my_pid: Seq<char>, running: Seq<u64>) -> bool {
    &&& is_record_name(f)
    &&& f.pid is Some
    &&& f.pid->Some_0@ != my_pid
    &&& parse_spec(f.pid->Some_0@, u64::MAX as nat) is Some
    &&& running.contains(parse_spec(f.pid->Some_0@, u64::MAX as nat)->Some_0 as u64)
}

/// The process ids of the live peers among the first `n` files, in the
/// order of the files.
pub open spec fn peers_upto(files: Seq<PresenceFile>, my_pid: Seq<char>, running: Seq<u64>, n: int) -> Seq<
    Seq<char>,
>
    decreases n,
{
    if n <= 0 {
        Seq::empty()
    } else if is_live_peer(files[n - 1], my_pid, running) {
        peers_upto(files, my_pid, running, n - 1).push(files[n - 1].pid->Some_0@)
    } else {
        peers_upto(files, my_pid, running, n - 1)
    }
}

/// The process ids that a list of records holds.
pub open spec fn pid_views(v: Seq<ExternalIPCInfo>) -> Seq<Seq<char>> {
    Seq::new(v.len(), |i: int| v[i].pid@)
}

/// Whether `pid` is among `running`.
pub fn is_running(pid: u64, running: &Vec<u64>) -> (r: bool)
    ensures
        r == running@.contains(pid),
{
    let mut i: usize = 0;
    while i < running.len()
        invariant
            0 <= i <= running.len(),
            forall|k: int| 0 <= k < i ==> running@[k] != pid,
        decreases running.len() - i,
    {
        if running[i] == pid {
            return true;
        }
        i += 1;
    }
    false
}

/// Which of `pids` are among the running processes.
pub fn running_map(pids: &Vec<u64>, running: &Vec<u64>) -> (mask: Vec<bool>)
    ensures
        mask@.len() == pids@.len(),
        forall|i: int| 0 <= i < pids@.len() ==> mask@[i] == running@.contains(#[trigger] pids@[i]),
{
    let mut mask: Vec<bool> = Vec::new();
    let mut i: usize = 0;
    while i < pids.len()
        invariant
            0 <= i <= pids.len(),
            mask@.len() == i,
            forall|k: int| 0 <= k < i ==> mask@[k] == running@.contains(#[trigger] pids@[k]),
        decreases pids.len() - i,
    {
        mask.push(is_running(pids[i], running));
        i += 1;
    }
    mask
}

/// The live updaters of this application other than this process: of the
/// `files` found in the shared directory, the records whose process is
/// among `running` and is not `my_pid`. Fails exactly where a file named
/// like a record holds none, or holds a process id that is no canonical
/// decimal text.
pub fn enumerate(files: &Vec<PresenceFile>, my_pid: &str, running: &Vec<u64>) -> (r: Result<
    Vec<ExternalIPCInfo>,
    FormattedError,
>)
    ensures
        r is Ok <==> records_readable(files@, my_pid@),
        r is Ok ==> pid_views(r->Ok_0@) == peers_upto(
            files@,
            my_pid@,
            running@,
            files@.len() as int,
        ),
{
    let mut found: Vec<ExternalIPCInfo> = Vec::new();
    let mut i: usize = 0;
    proof {
        assert(pid_views(found@) =~= Seq::empty());
        reveal_strlit(".json");
    }
    while i < files.len()
        invariant
            0 <= i <= files.len(),
            forall|k: int| 0 <= k < i ==> record_readable(#[trigger] files@[k], my_pid@),
            pid_views(found@) == peers_upto(files@, my_pid@, running@, i as int),
        decreases files.len() - i,
    {
        let f = &files[i];
        if str_ends_with(f.file_name.as_str(), ".json") {
            let pid = match &f.pid {
                Some(p) => p,
                None => {
                    proof {
                        assert(!record_readable(files@[i as int], my_pid@));
                    }
                    return Err(fail("Presence record could not be read"));
                },
            };
            if !str_eq(pid.as_str(), my_pid) {
                let n = match parse_u64(pid.as_str()) {
                    Some(n) => n,
                    None => {
                        proof {
                            assert(!record_readable(files@[i as int], my_pid@));
                        }
                        return Err(fail("Presence record holds no process id"));
                    },
                };
                if is_running(n, running) {
                    let ghost before = found@;
                    found.push(ExternalIPCInfo { pid: pid.clone() });
                    proof {
                        assert(pid_views(found@) =~= pid_views(before).push(pid@));
                    }
                }
            }
        }
        i += 1;
    }
    Ok(found)
}

/// Whether another updater of this application is running.
pub fn other_running(peers: &Vec<ExternalIPCInfo>) -> (r: Result<bool, FormattedError>)
    ensures
        r is Ok,
        r->Ok_0 == (peers@.len() > 0),
{
    Ok(peers.len() > 0)
}

/// The file that holds the presence record of the process `pid`.
pub fn pid_to_file(pid: &str, c: &Config) -> (r: String)
    ensures
        r@ == join_spec(join_spec(install_dir_pakkly_spec(*c), "ipc"@), pid@ + ".json"@),
{
    let dir = get_ipc_dir(c);
    let name = str_concat(pid, ".json");
    join(dir.as_str(), name.as_str())
}

impl IPCInfo {
    /// The presence record of the process `pid`, or of this process, whose
    /// id is `own_pid`, where none is given.
    pub fn new(pid: Option<String>, own_pid: u32) -> (r: Self)
        ensures
            r.ipc_data.pid@ == match pid {
                Some(x) => x@,
                None => decimal_text(own_pid as nat),
            },
    {
        let pid_str = match pid {
            Some(x) => x,
            None => format_u64(own_pid as u64),
        };
        IPCInfo { ipc_data: ExternalIPCInfo { pid: pid_str } }
    }

    /// The file that holds this record.
    pub fn file(&self, c: &Config) -> (r: String)
        ensures
            r@ == join_spec(
                join_spec(install_dir_pakkly_spec(*c), "ipc"@),
                self.ipc_data.pid@ + ".json"@,
            ),
    {
        pid_to_file(self.ipc_data.pid.as_str(), c)
    }
}

/// How a process is brought to the foreground.
#[derive(Clone, Copy, Debug, PartialEq, Eq, Structural)]
pub enum FocusRequest {
    /// Through the running-applications list of macOS.
    Macos(i64),
    /// Through the window list of Windows.
    Windows(u32),
}

/// What bringing `target` to the foreground takes on `platform`.
pub open spec fn focus_spec(target: Seq<char>, platform: Platform) -> Option<FocusRequest> {
    match platform {
        Platform::Linux => None,
        Platform::Macos => match parse_spec(target, i64::MAX as nat) {
            Some(n) => Some(FocusRequest::Macos(n as i64)),
            None => None,
        },
        Platform::Windows => match parse_spec(target, u32::MAX as nat) {
            Some(n) => Some(FocusRequest::Windows(n as u32)),
            None => None,
        },
    }
}

/// What bringing the updater `target` to the foreground takes. Fails on
/// Linux, where there is no way to do it, and where the record holds no
/// process id that the platform can name.
pub fn focus(target: &ExternalIPCInfo, platform: Platform) -> (r: Result<FocusRequest, FormattedError>)
    ensures
        match r {
            Ok(req) => focus_spec(target.pid@, platform) == Some(req),
            Err(_) => focus_spec(target.pid@, platform) is None,
        },
{
    match platform {
        Platform::Linux => Err(fail("No focus for OS linux")),
        Platform::Macos => match parse_u64(target.pid.as_str()) {
            Some(n) => {
                if n <= 0x7FFF_FFFF_FFFF_FFFF {
                    Ok(FocusRequest::Macos(n as i64))
                } else {
                    Err(fail("Process id out of range"))
                }
            },
            None => Err(fail("Process id out of range")),
        },
        Platform::Windows => match parse_u64(target.pid.as_str()) {
            Some(n) => {
                if n <= 0xFFFF_FFFF {
                    Ok(FocusRequest::Windows(n as u32))
                } else {
                    Err(fail("Process id out of range"))
                }
            },
            None => Err(fail("Process id out of range")),
        },
    }
}

/// What a process that is about to launch the application does.
#[derive(Clone, Debug)]
pub enum LaunchDecision {
    /// Launch the application and wait for it.
    Launch,
    /// Tell the user that the application is already running, then exit.
    AlertAndExit,
    /// Bring the updater with this process id to the foreground, then
    /// exit.
    FocusThenExit(String),
}

/// What a process that is about to launch the application does, as plain
/// values.
pub enum LaunchDecisionView {
    Launch,
    AlertAndExit,
    FocusThenExit(Seq<char>),
}

impl LaunchDecision {
    /// This decision as plain values.
    pub open spec fn view(&self) -> LaunchDecisionView {
        match self {
            LaunchDecision::Launch => LaunchDecisionView::Launch,
            LaunchDecision::AlertAndExit => LaunchDecisionView::AlertAndExit,
            LaunchDecision::FocusThenExit(p) => LaunchDecisionView::FocusThenExit(p@),
        }
    }
}

/// What a process about to launch the application does, given the peers it
/// found (`None` where the shared directory could not be read).
///
/// - Where many instances are allowed, it launches.
/// - Where the peers are unknown, it tells the user and exits.
/// - Where there is a peer, it brings the first one to the foreground and
///   exits.
/// - Otherwise it launches.
pub open spec fn launch_decision_spec(mode: InstanceMode, peers: Option<Seq<Seq<char>>>) -> LaunchDecisionView {
    match peers {
        None => if mode == InstanceMode::single_instance {
            LaunchDecisionView::AlertAndExit
        } else {
            LaunchDecisionView::Launch
        },
        Some(p) => if mode != InstanceMode::multi_instance && p.len() > 0 {
            LaunchDecisionView::FocusThenExit(p[0])
        } else {
            LaunchDecisionView::Launch
        },
    }
}

/// Decides what a process about to launch the application does.
pub fn launch_decision(mode: InstanceMode, peers: Option<&Vec<ExternalIPCInfo>>) -> (d:
    LaunchDecision)
    ensures
        d@ == launch_decision_spec(
            mode,
            match peers {
                Some(p) => Some(pid_views(p@)),
                None => None,
            },
        ),
{
    match peers {
        None => match mode {
            InstanceMode::single_instance => LaunchDecision::AlertAndExit,
            InstanceMode::multi_instance => LaunchDecision::Launch,
        },
        Some(p) => match mode {
            InstanceMode::multi_instance => LaunchDecision::Launch,
            InstanceMode::single_instance => {
                if p.len() > 0 {
                    LaunchDecision::FocusThenExit(p[0].pid.clone())
                } else {
                    LaunchDecision::Launch
                }
            },
        },
    }
}

/// Whether the user is told that the application is already running,
/// after the attempt to bring a peer to the foreground: only where the
/// attempt failed. The process exits either way.
pub fn alert_after_focus(mode: InstanceMode, focus_succeeded: bool) -> (alert: bool)
    ensures
        alert == (!focus_succeeded && mode == InstanceMode::single_instance),
{
    match mode {
        InstanceMode::single_instance => !focus_succeeded,
        InstanceMode::multi_instance => false,
    }
}

/// A process that finds only its own record has no peer.
pub proof fn lemma_alone_has_no_peer(files: Seq<PresenceFile>, my_pid: Seq<char>, running: Seq<u64>, n: int)
    requires
        0 <= n <= files.len(),
        forall|i: int|
            0 <= i < files.len() ==> (#[trigger] files[i]).pid is Some && files[i].pid->Some_0@
                == my_pid,
    ensures
        peers_upto(files, my_pid, running, n).len() == 0,
    decreases n,
{
    if n > 0 {
        lemma_alone_has_no_peer(files, my_pid, running, n - 1);
        assert(!is_live_peer(files[n - 1], my_pid, running));
    }
}

/// A process that starts while another is alive finds it: where some file
/// is the record of a live process other than this one, there is a peer.
pub proof fn lemma_live_peer_is_found(
    files: Seq<PresenceFile>,
    my_pid: Seq<char>,
    running: Seq<u64>,
    k: int,
    n: int,
)
    requires
        0 <= k < n <= files.len(),
        is_live_peer(files[k], my_pid, running),
    ensures
        peers_upto(files, my_pid, running, n).len() > 0,
        peers_upto(files, my_pid, running, n).contains(files[k].pid->Some_0@),
    decreases n,
{
    let here = peers_upto(files, my_pid, running, n);
    if k == n - 1 {
        assert(here.last() == files[k].pid->Some_0@);
    } else {
        lemma_live_peer_is_found(files, my_pid, running, k, n - 1);
        let before = peers_upto(files, my_pid, running, n - 1);
        let j = choose|j: int| 0 <= j < before.len() && before[j] == files[k].pid->Some_0@;
        assert(here[j] == before[j]);
    }
}

/// Of two updaters of an application that allows one instance, started
/// one after the other, exactly one goes on: the first, which finds no
/// peer, launches; the second, which finds the first alive, brings a peer
/// to the foreground and exits.
pub proof fn lemma_single_instance(
    first_sees: Seq<Seq<char>>,
    second_sees: Seq<Seq<char>>,
)
    requires
        first_sees.len() == 0,
        second_sees.len() > 0,
    ensures
        launch_decision_spec(InstanceMode::single_instance, Some(first_sees))
            is Launch,
        launch_decision_spec(InstanceMode::single_instance, Some(second_sees))
            == LaunchDecisionView::FocusThenExit(second_sees[0]),
{
}

/// The record that a process writes names it: the process id written is
/// canonical decimal text that reads back as the same id.
pub proof fn lemma_own_record_reads_back(own_pid: u32)
    ensures
        parse_spec(decimal_text(own_pid as nat), u64::MAX as nat) == Some(own_pid as nat),
{
    lemma_decimal_round_trip(own_pid as nat);
}

/// No process is its own peer, and every peer is alive: each process id
/// among the peers differs from this process's and stands for a running
/// process.
pub proof fn lemma_peers_are_live_others(
    files: Seq<PresenceFile>,
    my_pid: Seq<char>,
    running: Seq<u64>,
    n: int,
    k: int,
)
    requires
        0 <= n <= files.len(),
        0 <= k < peers_upto(files, my_pid, running, n).len(),
    ensures
        peers_upto(files, my_pid, running, n)[k] != my_pid,
        parse_spec(peers_upto(files, my_pid, running, n)[k], u64::MAX as nat) is Some,
        running.contains(
            parse_spec(peers_upto(files, my_pid, running, n)[k], u64::MAX as nat)->Some_0 as u64,
        ),
    decreases n,
{
    if n > 0 {
        let before = peers_upto(files, my_pid, running, n - 1);
        if k < before.len() {
            lemma_peers_are_live_others(files, my_pid, running, n - 1, k);
        }
    }
}

} // verus!
