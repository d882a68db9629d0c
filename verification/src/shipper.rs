//! How the updater replaces its own binary.
//!
//! Where the platform lets a running executable's file be overwritten, the
//! new updater is installed in place. Where it does not, the new updater
//! is installed beside the resident one and started with a hidden flag;
//! the resident one exits, and the new process moves itself into place.
use crate::defines::{Config, Platform, PAKKLY_CLI_REPLACE_SHIPPER};
use crate::error::{fail, FormattedError};
use crate::fslog::FsSnapshot;
use crate::common::is_inside;
use crate::installer::{
    all_planned, byte_len, check_files, checked_upto, copies_upto,
    lemma_copy_has_a_path, lemma_fresh_install_copies_files, lemma_preps_stay_at_destination,
    lemma_step_has_a_path, plan_path, preps_upto, string_views, CheckedFiles,
    PlanContext, PrepKind,
};
use crate::paths::{get_ipc_dir, get_json_path, is_inside_spec};
use crate::paths::{
    extension_spec, get_install_dir_pakkly_update, get_install_file_pakkly,
    get_install_file_pakkly_update, install_dir_pakkly_spec, install_subdir_spec, join, join_spec,
    pakkly_file_name_spec, parent, parent_spec,
};
use crate::remoteinstallerdata::{size_and_hash_spec, InstalledFile, StoredInstallData};
use vstd::prelude::*;

verus! {

/// Where the replacement of the updater stands.
#[derive(Clone, Copy, Debug, PartialEq, Eq, Structural)]
pub enum SelfUpdateState {
    NotNeeded,
    /// The new updater is being downloaded.
    FetchPending,
    /// The new updater is being installed beside the resident one.
    StagingInstall,
    /// The staged updater is about to be started; this process exits.
    AwaitingHandoff,
    /// The new updater is being put into its place.
    IndirectFinalizing,
    Complete,
    Failed,
}

/// What is done next to replace the updater.
#[derive(Clone, Copy, Debug, PartialEq, Eq, Structural)]
pub enum SelfUpdateAction {
    /// Go on as the resident updater.
    Continue,
    /// Download the new updater.
    Download,
    /// Install the download into the staging directory and persist the
    /// record with the staged files added.
    InstallStaged,
    /// Start the staged updater detached, with the hidden flag, and exit.
    SpawnStagedAndExit,
    /// Install the download over the resident updater, file by file. Its
    /// directory is not emptied: the install record and the presence
    /// records in it stay.
    InstallInPlace,
    /// Wait for file locks to go, delete the resident updater's directory,
    /// copy the staged build there, write the install record again and
    /// write the shell integration anew.
    ReplaceResident,
}

/// The replacement of the updater as a state machine over both processes
/// that take part in it.
#[derive(Clone, Copy, Debug, PartialEq, Eq, Structural)]
pub struct SelfUpdate {
    pub state: SelfUpdateState,
    /// Whether the platform lets a running executable be overwritten.
    pub can_replace: bool,
    /// Whether this process is the staged updater.
    pub staged_process: bool,
}

/// The position of a state in the order of the protocol.
pub open spec fn state_rank(s: SelfUpdateState) -> int {
    match s {
        SelfUpdateState::NotNeeded => 0,
        SelfUpdateState::FetchPending => 1,
        SelfUpdateState::StagingInstall => 2,
        SelfUpdateState::AwaitingHandoff => 3,
        SelfUpdateState::IndirectFinalizing => 4,
        SelfUpdateState::Complete => 5,
        SelfUpdateState::Failed => 6,
    }
}

/// The state in which a process begins: the staged updater begins by
/// moving itself into place; any other process fetches where a new
/// updater version is offered.
pub open spec fn start_spec(platform: Platform, needed: bool, replacing: bool) -> SelfUpdate {
    SelfUpdate {
        state: if replacing && !platform.can_replace_running_binary_spec() {
            SelfUpdateState::IndirectFinalizing
        } else if needed {
            SelfUpdateState::FetchPending
        } else {
            SelfUpdateState::NotNeeded
        },
        can_replace: platform.can_replace_running_binary_spec(),
        staged_process: replacing && !platform.can_replace_running_binary_spec(),
    }
}

/// What the state `s` asks for.
pub open spec fn self_action_spec(s: SelfUpdate) -> SelfUpdateAction {
    match s.state {
        SelfUpdateState::NotNeeded => SelfUpdateAction::Continue,
        SelfUpdateState::FetchPending => SelfUpdateAction::Download,
        SelfUpdateState::StagingInstall => SelfUpdateAction::InstallStaged,
        SelfUpdateState::AwaitingHandoff => SelfUpdateAction::SpawnStagedAndExit,
        SelfUpdateState::IndirectFinalizing => if s.can_replace {
            SelfUpdateAction::InstallInPlace
        } else {
            SelfUpdateAction::ReplaceResident
        },
        SelfUpdateState::Complete => SelfUpdateAction::Continue,
        SelfUpdateState::Failed => SelfUpdateAction::Continue,
    }
}

/// The state after the step that `s` asked for succeeded or failed. The
/// step from `AwaitingHandoff` is the handoff itself: what follows
/// happens in the staged process.
pub open spec fn self_advance_spec(s: SelfUpdate, succeeded: bool) -> SelfUpdate {
    match s.state {
        SelfUpdateState::NotNeeded => s,
        SelfUpdateState::Complete => s,
        SelfUpdateState::Failed => s,
        _ => if !succeeded {
            SelfUpdate { state: SelfUpdateState::Failed, ..s }
        } else {
            match s.state {
                SelfUpdateState::FetchPending => SelfUpdate {
                    state: if s.can_replace {
                        SelfUpdateState::IndirectFinalizing
                    } else {
                        SelfUpdateState::StagingInstall
                    },
                    ..s
                },
                SelfUpdateState::StagingInstall => SelfUpdate {
                    state: SelfUpdateState::AwaitingHandoff,
                    ..s
                },
                SelfUpdateState::AwaitingHandoff => SelfUpdate {
                    state: SelfUpdateState::IndirectFinalizing,
                    staged_process: true,
                    ..s
                },
                _ => SelfUpdate { state: SelfUpdateState::Complete, ..s },
            }
        },
    }
}

/// What holds of every state the protocol can reach: where the platform
/// lets a running executable be overwritten nothing is staged and no
/// process is handed over to; where it does not, the resident updater is
/// replaced by the staged process only.
pub open spec fn self_update_inv(s: SelfUpdate) -> bool {
    &&& s.can_replace ==> s.state != SelfUpdateState::StagingInstall && s.state
        != SelfUpdateState::AwaitingHandoff && !s.staged_process
    &&& !s.can_replace && s.state == SelfUpdateState::IndirectFinalizing ==> s.staged_process
    &&& s.staged_process ==> state_rank(s.state) >= 4
}

impl SelfUpdate {
    /// The state in which a process begins.
    pub fn start(platform: Platform, needed: bool, replacing: bool) -> (s: Self)
        ensures
            s == start_spec(platform, needed, replacing),
            self_update_inv(s),
    {
        let can_replace = platform.can_replace_running_binary();
        let staged = replacing && !can_replace;
        SelfUpdate {
            state: if staged {
                SelfUpdateState::IndirectFinalizing
            } else if needed {
                SelfUpdateState::FetchPending
            } else {
                SelfUpdateState::NotNeeded
            },
            can_replace,
            staged_process: staged,
        }
    }

    /// What is done next.
    pub fn next_action(&self) -> (a: SelfUpdateAction)
        ensures
            a == self_action_spec(*self),
    {
        match self.state {
            SelfUpdateState::NotNeeded => SelfUpdateAction::Continue,
            SelfUpdateState::FetchPending => SelfUpdateAction::Download,
            SelfUpdateState::StagingInstall => SelfUpdateAction::InstallStaged,
            SelfUpdateState::AwaitingHandoff => SelfUpdateAction::SpawnStagedAndExit,
            SelfUpdateState::IndirectFinalizing => {
                if self.can_replace {
                    SelfUpdateAction::InstallInPlace
                } else {
                    SelfUpdateAction::ReplaceResident
                }
            },
            SelfUpdateState::Complete => SelfUpdateAction::Continue,
            SelfUpdateState::Failed => SelfUpdateAction::Continue,
        }
    }

    /// Takes in whether the step that was asked for succeeded.
    pub fn advance(&mut self, succeeded: bool)
        ensures
            *final(self) == self_advance_spec(*old(self), succeeded),
    {
        match self.state {
            SelfUpdateState::NotNeeded => {},
            SelfUpdateState::Complete => {},
            SelfUpdateState::Failed => {},
            SelfUpdateState::FetchPending => {
                self.state = if !succeeded {
                    SelfUpdateState::Failed
                } else if self.can_replace {
                    SelfUpdateState::IndirectFinalizing
                } else {
                    SelfUpdateState::StagingInstall
                };
            },
            SelfUpdateState::StagingInstall => {
                self.state = if succeeded {
                    SelfUpdateState::AwaitingHandoff
                } else {
                    SelfUpdateState::Failed
                };
            },
            SelfUpdateState::AwaitingHandoff => {
                if succeeded {
                    self.state = SelfUpdateState::IndirectFinalizing;
                    self.staged_process = true;
                } else {
                    self.state = SelfUpdateState::Failed;
                }
            },
            SelfUpdateState::IndirectFinalizing => {
                self.state = if succeeded {
                    SelfUpdateState::Complete
                } else {
                    SelfUpdateState::Failed
                };
            },
        }
    }
}

/// Every step keeps what holds of the protocol and never goes back to an
/// earlier state.
pub proof fn lemma_self_advance(s: SelfUpdate, succeeded: bool)
    requires
        self_update_inv(s),
    ensures
        self_update_inv(self_advance_spec(s, succeeded)),
        state_rank(self_advance_spec(s, succeeded).state) >= state_rank(s.state),
        self_advance_spec(s, succeeded).can_replace == s.can_replace,
{
}

/// The direct path skips staging and handoff: where the platform lets a
/// running executable be overwritten, a download is followed at once by
/// the install in place.
pub proof fn lemma_direct_path(s: SelfUpdate)
    requires
        self_update_inv(s),
        s.can_replace,
        s.state == SelfUpdateState::FetchPending,
    ensures
        self_action_spec(self_advance_spec(s, true)) == SelfUpdateAction::InstallInPlace,
        self_advance_spec(self_advance_spec(s, true), true).state == SelfUpdateState::Complete,
{
}

/// The resident updater is replaced by the staged process only, and the
/// staged process is started only after the staged install succeeded.
pub proof fn lemma_indirect_path(s: SelfUpdate)
    requires
        self_update_inv(s),
    ensures
        self_action_spec(s) == SelfUpdateAction::ReplaceResident ==> s.staged_process,
        self_action_spec(self_advance_spec(s, true)) == SelfUpdateAction::SpawnStagedAndExit ==> s.state
            == SelfUpdateState::StagingInstall || s.state == SelfUpdateState::AwaitingHandoff,
        self_action_spec(self_advance_spec(s, false)) != SelfUpdateAction::SpawnStagedAndExit || s.state
            == SelfUpdateState::AwaitingHandoff,
{
}

/// Where the new updater goes.
#[derive(Clone, Debug)]
pub enum UpdateRoute {
    /// Over the resident updater.
    Direct { destination: String },
    /// Into the staging directory; the staged binary and its directory are
    /// added to the record, and the staged binary is started with `flag`.
    Indirect { staged_binary: String, staged_dir: String, flag: String },
}

/// Where the new updater goes on the platform of `c`.
pub fn update_shipper(rdata: &StoredInstallData, c: &Config) -> (r: UpdateRoute)
    ensures
        match r {
            UpdateRoute::Direct { destination } => c.platform.can_replace_running_binary_spec()
                && destination@ == join_spec(
                install_dir_pakkly_spec(*c),
                pakkly_file_name_spec(*c, rdata.fetched_meta.app_name@),
            ),
            UpdateRoute::Indirect { staged_binary, staged_dir, flag } => {
                &&& !c.platform.can_replace_running_binary_spec()
                &&& staged_dir@ == install_subdir_spec(*c, "runner_update"@)
                &&& staged_binary@ == join_spec(
                    staged_dir@,
                    rdata.fetched_meta.app_name@ + extension_spec(c.platform),
                )
                &&& flag@ == PAKKLY_CLI_REPLACE_SHIPPER@
            },
        },
{
    if c.platform.can_replace_running_binary() {
        UpdateRoute::Direct { destination: get_install_file_pakkly(c, rdata) }
    } else {
        UpdateRoute::Indirect {
            staged_binary: get_install_file_pakkly_update(c, rdata),
            staged_dir: get_install_dir_pakkly_update(c),
            flag: PAKKLY_CLI_REPLACE_SHIPPER.to_string(),
        }
    }
}

/// Adds the staged binary and the staging directory to the files that the
/// record tracks for the updater, as `snapshot` shows them. Fails, with
/// the record unchanged, exactly where the snapshot shows one of them as
/// nothing that can be tracked.
pub fn record_staged(rdata: &mut StoredInstallData, snapshot: &FsSnapshot, c: &Config) -> (r: Result<
    (),
    FormattedError,
>)
    ensures
        ({
            let dir = install_subdir_spec(*c, "runner_update"@);
            let bin = join_spec(dir, old(rdata).fetched_meta.app_name@ + extension_spec(c.platform));
            let both = size_and_hash_spec(bin, *snapshot, *c) is Some && size_and_hash_spec(
                dir,
                *snapshot,
                *c,
            ) is Some;
            &&& r is Ok <==> both
            &&& r is Err ==> *final(rdata) == *old(rdata)
            &&& r is Ok ==> {
                let n = old(rdata).installed_files_meta@.len() as int;
                &&& final(rdata).installed_files_meta@.len() == n + 2
                &&& final(rdata).installed_files_meta@.take(n) == old(rdata).installed_files_meta@
                &&& final(rdata).installed_files_meta@[n].dst_path@ == bin
                &&& final(rdata).installed_files_meta@[n + 1].dst_path@ == dir
                &&& size_and_hash_spec(bin, *snapshot, *c) == Some(
                    (
                        final(rdata).installed_files_meta@[n].hash@,
                        final(rdata).installed_files_meta@[n].size,
                    ),
                )
                &&& size_and_hash_spec(dir, *snapshot, *c) == Some(
                    (
                        final(rdata).installed_files_meta@[n + 1].hash@,
                        final(rdata).installed_files_meta@[n + 1].size,
                    ),
                )
                &&& final(rdata).installed_files == old(rdata).installed_files
                &&& final(rdata).fetched_meta == old(rdata).fetched_meta
                &&& final(rdata).installing == old(rdata).installing
            }
        }),
{
    let bin = get_install_file_pakkly_update(c, rdata);
    let dir = get_install_dir_pakkly_update(c);
    let first = match InstalledFile::new(bin.as_str(), snapshot, c) {
        Ok(f) => f,
        Err(e) => {
            return Err(e);
        },
    };
    let second = match InstalledFile::new(dir.as_str(), snapshot, c) {
        Ok(f) => f,
        Err(e) => {
            return Err(e);
        },
    };
    let ghost before = rdata.installed_files_meta@;
    rdata.installed_files_meta.push(first);
    rdata.installed_files_meta.push(second);
    proof {
        assert(rdata.installed_files_meta@.take(before.len() as int) =~= before);
    }
    Ok(())
}

/// What a step on the file system does.
#[derive(Clone, Copy, Debug, PartialEq, Eq, Structural)]
pub enum FsStepKind {
    /// Delete the directory `to` and all below it.
    RemoveDirAll,
    /// Create the directory `to` and the directories above it.
    CreateDirAll,
    /// Create the directory `to`.
    CreateDir,
    /// Copy what the directory `from` holds into the directory `to`.
    CopyDir,
    /// Copy the file `from` to `to`.
    CopyFile,
    /// Make every file below the directory `to` runnable.
    MakeRunnable,
    /// Rename `from` to `to`.
    Rename,
    /// Write the install record, as it is held in memory, to `to`.
    WriteRecord,
}

/// One step on the file system.
#[derive(Clone, Debug)]
pub struct FsStep {
    pub kind: FsStepKind,
    pub from: String,
    pub to: String,
}

/// What a list of steps holds.
pub open spec fn step_views(steps: Seq<FsStep>) -> Seq<(FsStepKind, Seq<char>, Seq<char>)> {
    Seq::new(steps.len(), |i: int| (steps[i].kind, steps[i].from@, steps[i].to@))
}

fn step(kind: FsStepKind, from: &str, to: &str) -> (s: FsStep)
    ensures
        s.kind == kind,
        s.from@ == from@,
        s.to@ == to@,
{
    FsStep { kind, from: from.to_owned(), to: to.to_owned() }
}

/// The steps that empty and create anew the directory `folder`.
pub open spec fn fresh_folder_steps(folder: Seq<char>, snapshot: FsSnapshot) -> Seq<
    (FsStepKind, Seq<char>, Seq<char>),
> {
    (if snapshot.exists_spec(folder) {
        seq![(FsStepKind::RemoveDirAll, Seq::<char>::empty(), folder)]
    } else {
        Seq::empty()
    }) + seq![(FsStepKind::CreateDirAll, Seq::<char>::empty(), folder)]
}

/// The steps by which the staged updater at `src` takes the place of the
/// resident one at `dest`: the resident updater's directory is emptied,
/// the staged build is copied there, as a directory or as a file, and the
/// install record, which lived in that directory, is written again to
/// `record`.
pub open spec fn indirect_steps(
    src: Seq<char>,
    dest: Seq<char>,
    record: Seq<char>,
    snapshot: FsSnapshot,
) -> Seq<(FsStepKind, Seq<char>, Seq<char>)> {
    fresh_folder_steps(parent_spec(dest), snapshot) + (if snapshot.is_dir_spec(src) {
        seq![(FsStepKind::CreateDir, Seq::<char>::empty(), dest), (FsStepKind::CopyDir, src, dest)]
    } else {
        seq![(FsStepKind::CopyFile, src, dest)]
    }) + seq![(FsStepKind::WriteRecord, Seq::<char>::empty(), record)]
}

fn fresh_folder(folder: &str, snapshot: &FsSnapshot) -> (steps: Vec<FsStep>)
    ensures
        step_views(steps@) == fresh_folder_steps(folder@, *snapshot),
{
    let mut steps: Vec<FsStep> = Vec::new();
    proof {
        reveal_strlit("");
        assert(""@ =~= Seq::<char>::empty());
    }
    if snapshot.path_exists(folder) {
        steps.push(step(FsStepKind::RemoveDirAll, "", folder));
    }
    steps.push(step(FsStepKind::CreateDirAll, "", folder));
    proof {
        assert(step_views(steps@) =~= fresh_folder_steps(folder@, *snapshot));
    }
    steps
}

/// The steps by which the staged updater takes the place of the resident
/// one. The last step writes the install record again.
pub fn indirect_update(local_data: &StoredInstallData, c: &Config, snapshot: &FsSnapshot) -> (steps:
    Vec<FsStep>)
    ensures
        step_views(steps@) == indirect_steps(
            join_spec(
                install_subdir_spec(*c, "runner_update"@),
                local_data.fetched_meta.app_name@ + extension_spec(c.platform),
            ),
            join_spec(
                install_dir_pakkly_spec(*c),
                pakkly_file_name_spec(*c, local_data.fetched_meta.app_name@),
            ),
            join_spec(install_dir_pakkly_spec(*c), "pakkly.installer.json"@),
            *snapshot,
        ),
{
    let src = get_install_file_pakkly_update(c, local_data);
    let dest = get_install_file_pakkly(c, local_data);
    let folder = parent(dest.as_str());
    let mut steps = fresh_folder(folder.as_str(), snapshot);
    let ghost head = step_views(steps@);
    proof {
        reveal_strlit("");
        assert(""@ =~= Seq::<char>::empty());
    }
    let record = get_json_path(c);
    if snapshot.is_dir(src.as_str()) {
        steps.push(step(FsStepKind::CreateDir, "", dest.as_str()));
        steps.push(step(FsStepKind::CopyDir, src.as_str(), dest.as_str()));
        steps.push(step(FsStepKind::WriteRecord, "", record.as_str()));
        proof {
            assert(step_views(steps@) =~= head + seq![
                (FsStepKind::CreateDir, Seq::<char>::empty(), dest@),
                (FsStepKind::CopyDir, src@, dest@),
            ] + seq![(FsStepKind::WriteRecord, Seq::<char>::empty(), record@)]);
        }
    } else {
        steps.push(step(FsStepKind::CopyFile, src.as_str(), dest.as_str()));
        steps.push(step(FsStepKind::WriteRecord, "", record.as_str()));
        proof {
            assert(step_views(steps@) =~= head + seq![(FsStepKind::CopyFile, src@, dest@)] + seq![
                (FsStepKind::WriteRecord, Seq::<char>::empty(), record@),
            ]);
        }
    }
    steps
}

/// Whether `at` is where the first of the shortest names of `names`
/// stands.
pub open spec fn is_shortest_at(names: Seq<String>, at: int) -> bool {
    &&& 0 <= at < names.len()
    &&& forall|k: int| 0 <= k < names.len() ==> byte_len(names[at]@) <= byte_len((#[trigger] names[k])@)
    &&& forall|k: int| 0 <= k < at ==> byte_len(names[at]@) < byte_len((#[trigger] names[k])@)
}

/// The updater binary among the files of an unpacked updater release: the
/// file with the shortest name, the first of them where several are as
/// short; `None` where there is no file.
pub fn find_shipper_in_folder(names: &Vec<String>) -> (r: Option<usize>)
    ensures
        match r {
            Some(at) => is_shortest_at(names@, at as int),
            None => names@.len() == 0,
        },
{
    if names.len() == 0 {
        return None;
    }
    let mut best: usize = 0;
    let mut i: usize = 1;
    while i < names.len()
        invariant
            1 <= i <= names.len(),
            0 <= best < i,
            forall|k: int| 0 <= k < i ==> byte_len(names@[best as int]@) <= byte_len((#[trigger] names@[k])@),
            forall|k: int| 0 <= k < best ==> byte_len(names@[best as int]@) < byte_len((#[trigger] names@[k])@),
        decreases names.len() - i,
    {
        if names[i].as_str().len() < names[best].as_str().len() {
            best = i;
        }
        i += 1;
    }
    Some(best)
}

/// How a downloaded updater release is unpacked.
#[derive(Clone, Copy, Debug, PartialEq, Eq, Structural)]
pub enum IngestKind {
    /// As a zip archive.
    Zip,
    /// As a tar archive.
    Tar,
    /// As the binary itself, copied under a fixed name.
    Verbatim,
}

/// How a downloaded updater release is unpacked: a zip archive as such;
/// anything else as a tar archive on a POSIX platform and as the binary
/// itself on Windows.
pub fn ingest_kind(is_zip: bool, platform: Platform) -> (k: IngestKind)
    ensures
        k == if is_zip {
            IngestKind::Zip
        } else if platform != Platform::Windows {
            IngestKind::Tar
        } else {
            IngestKind::Verbatim
        },
{
    if is_zip {
        IngestKind::Zip
    } else {
        match platform {
            Platform::Windows => IngestKind::Verbatim,
            _ => IngestKind::Tar,
        }
    }
}

/// Whether a step that deletes, truncates or overwrites at `p` would
/// reach the install record or the presence records: `p` is the record or
/// lies above it, or `p` lies in, at or above the directory of the
/// presence records.
pub open spec fn is_protected_spec(p: Seq<char>, c: Config) -> bool {
    let record = join_spec(install_dir_pakkly_spec(c), "pakkly.installer.json"@);
    let ipc = join_spec(install_dir_pakkly_spec(c), "ipc"@);
    is_inside_spec(record, p) || is_inside_spec(ipc, p) || is_inside_spec(p, ipc)
}

/// Whether a step at `p` would reach the install record or the presence
/// records.
pub fn is_protected(p: &str, c: &Config) -> (r: bool)
    ensures
        r == is_protected_spec(p@, *c),
{
    let record = get_json_path(c);
    let ipc = get_ipc_dir(c);
    is_inside(record.as_str(), p) || is_inside(ipc.as_str(), p) || is_inside(p, ipc.as_str())
}

/// Whether none of the destinations of `paths` below `folder` is
/// protected.
pub open spec fn all_spared(folder: Seq<char>, paths: Seq<Seq<char>>, c: Config) -> bool {
    forall|i: int|
        0 <= i < paths.len() ==> !is_protected_spec(join_spec(folder, #[trigger] paths[i]), c)
}

/// How an unpacked updater release is put into place: by the planner of
/// updates, aimed at the updater's own directory with nothing tracked, so
/// that every file of the release is copied and nothing else is touched.
pub struct ShipperInstall {
    /// What is checked, prepared and copied.
    pub plan: CheckedFiles,
    /// The directory below which every file is made runnable, where the
    /// platform has permission bits.
    pub make_runnable: Option<String>,
    /// The copied file that becomes the updater binary.
    pub rename_from: String,
    /// The updater binary.
    pub rename_to: String,
}

/// The context in which the planner puts an updater release into the
/// directory `folder`: nothing is tracked.
pub open spec fn shipper_context(
    unzip_path: Seq<char>,
    folder: Seq<char>,
    scratch: FsSnapshot,
    target: FsSnapshot,
    c: Config,
) -> PlanContext {
    PlanContext {
        unzip_path,
        target_directory: folder,
        app_files: Seq::empty(),
        scratch,
        target,
        config: c,
    }
}

/// Whether the updater release with the paths `update_files` and the
/// top-level file names `names` can be put into place as `destination`:
/// it holds a file, and neither the destination nor the destination of
/// any of its paths is protected.
pub open spec fn installable(
    destination: Seq<char>,
    update_files: Seq<Seq<char>>,
    names: Seq<String>,
    c: Config,
) -> bool {
    &&& names.len() > 0
    &&& !is_protected_spec(destination, c)
    &&& all_spared(parent_spec(destination), update_files, c)
}

/// Plans how the updater release unpacked at `unzip_path` is put into
/// place as `destination_path`: every path of `update_files` is planned
/// as on a fresh install into the destination's directory, and the file
/// with the shortest of the top-level `names` is renamed to the
/// destination. The directory is not emptied: what the release does not
/// hold stays. Fails exactly where the release is not [`installable`].
pub fn install_shipper(
    destination_path: &str,
    unzip_path: &str,
    update_files: &Vec<String>,
    names: &Vec<String>,
    scratch: &FsSnapshot,
    target: &FsSnapshot,
    c: &Config,
) -> (r: Result<ShipperInstall, FormattedError>)
    ensures
        r is Ok <==> installable(destination_path@, string_views(update_files@), names@, *c),
        r is Ok ==> ({
            let folder = parent_spec(destination_path@);
            let ctx = shipper_context(unzip_path@, folder, *scratch, *target, *c);
            let paths = string_views(update_files@);
            let x = r->Ok_0;
            &&& all_planned(ctx, paths)
            &&& checked_upto(x.plan, ctx, paths, paths.len() as int)
            &&& x.rename_to@ == destination_path@
            &&& exists|at: int| #[trigger]
                is_shortest_at(names@, at) && x.rename_from@ == join_spec(folder, names@[at]@)
            &&& match x.make_runnable {
                Some(d) => c.platform != Platform::Windows && d@ == folder,
                None => c.platform == Platform::Windows,
            }
        }),
{
    let at = match find_shipper_in_folder(names) {
        Some(at) => at,
        None => {
            return Err(fail("The updater release holds no file"));
        },
    };
    if is_protected(destination_path, c) {
        return Err(fail("The updater would take the place of the install record"));
    }
    let folder = parent(destination_path);
    let ghost paths = string_views(update_files@);
    let mut i: usize = 0;
    while i < update_files.len()
        invariant
            0 <= i <= update_files.len(),
            paths == string_views(update_files@),
            folder@ == parent_spec(destination_path@),
            forall|k: int|
                0 <= k < i ==> !is_protected_spec(join_spec(folder@, #[trigger] paths[k]), *c),
        decreases update_files.len() - i,
    {
        let dst = join(folder.as_str(), update_files[i].as_str());
        assert(update_files@[i as int]@ == paths[i as int]);
        if is_protected(dst.as_str(), c) {
            return Err(fail("The updater release would overwrite the install record"));
        }
        i += 1;
    }
    let none: Vec<InstalledFile> = Vec::new();
    let ghost ctx = shipper_context(unzip_path@, folder@, *scratch, *target, *c);
    proof {
        assert(none@ =~= Seq::<InstalledFile>::empty());
        assert forall|k: int| 0 <= k < paths.len() implies plan_path(ctx, #[trigger] paths[k]) is Some by {
            lemma_fresh_install_copies_files(ctx, paths[k]);
        }
    }
    let plan = match check_files(
        update_files,
        unzip_path,
        folder.as_str(),
        &none,
        scratch,
        target,
        c,
    ) {
        Ok(p) => p,
        Err(e) => {
            return Err(e);
        },
    };
    let make_runnable = match c.platform {
        Platform::Windows => None,
        _ => Some(folder.clone()),
    };
    let rename_from = join(folder.as_str(), names[at].as_str());
    Ok(ShipperInstall { plan, make_runnable, rename_from, rename_to: destination_path.to_owned() })
}

/// Replacing the updater in place leaves the install record and the
/// presence records alone: in the plan of an installable release, no step
/// that deletes or truncates, no copy and not the final rename has a
/// protected path as its destination.
pub proof fn lemma_self_update_spares_record(
    destination: Seq<char>,
    unzip_path: Seq<char>,
    update_files: Seq<Seq<char>>,
    names: Seq<String>,
    scratch: FsSnapshot,
    target: FsSnapshot,
    c: Config,
)
    requires
        installable(destination, update_files, names, c),
    ensures
        ({
            let ctx = shipper_context(unzip_path, parent_spec(destination), scratch, target, c);
            let n = update_files.len() as int;
            &&& !is_protected_spec(destination, c)
            &&& forall|k: int|
                0 <= k < preps_upto(ctx, update_files, n).len() && (#[trigger] preps_upto(
                    ctx,
                    update_files,
                    n,
                )[k]).0 != PrepKind::CreateDirAll ==> !is_protected_spec(
                    preps_upto(ctx, update_files, n)[k].1,
                    c,
                )
            &&& forall|k: int|
                0 <= k < copies_upto(ctx, update_files, n).len() ==> !is_protected_spec(
                    (#[trigger] copies_upto(ctx, update_files, n)[k]).1,
                    c,
                )
        }),
{
    let folder = parent_spec(destination);
    let ctx = shipper_context(unzip_path, folder, scratch, target, c);
    let n = update_files.len() as int;
    assert forall|k: int|
        0 <= k < preps_upto(ctx, update_files, n).len() && (#[trigger] preps_upto(
            ctx,
            update_files,
            n,
        )[k]).0 != PrepKind::CreateDirAll implies !is_protected_spec(
        preps_upto(ctx, update_files, n)[k].1,
        c,
    ) by {
        let step = preps_upto(ctx, update_files, n)[k];
        lemma_step_has_a_path(ctx, update_files, n, k);
        let i = choose|i: int|
            0 <= i < n && (#[trigger] plan_path(ctx, update_files[i]))->Some_0.preps.contains(step);
        lemma_fresh_install_copies_files(ctx, update_files[i]);
        let here = plan_path(ctx, update_files[i])->Some_0.preps;
        let j = choose|j: int| 0 <= j < here.len() && here[j] == step;
        lemma_preps_stay_at_destination(ctx, update_files[i], j);
        assert(step.1 == join_spec(folder, update_files[i]));
    }
    assert forall|k: int| 0 <= k < copies_upto(ctx, update_files, n).len() implies !is_protected_spec(
        (#[trigger] copies_upto(ctx, update_files, n)[k]).1,
        c,
    ) by {
        lemma_copy_has_a_path(ctx, update_files, n, k);
        let i = choose|i: int|
            0 <= i < n && copies_upto(ctx, update_files, n)[k] == (
                join_spec(ctx.unzip_path, #[trigger] update_files[i]),
                join_spec(ctx.target_directory, update_files[i]),
            );
        assert(!is_protected_spec(join_spec(folder, update_files[i]), c));
    }
}

} // verus!
