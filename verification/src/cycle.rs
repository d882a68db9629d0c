//! One update cycle as a state machine. The caller carries out each step
//! the machine asks for and reports how it went; the machine decides what
//! comes next and keeps track of the crash marker on disk.
//!
//! The marker is the `installing` flag of the persisted record. It is set
//! before anything in the install is created, deleted or overwritten, and
//! cleared once every file has landed and been hashed. A cycle that fails in between leaves it set, so
//! that the next start finds the record invalid and repairs the install.
use crate::remoteinstallerdata::{LoadedRecord, StoredInstallData};
use vstd::prelude::*;

verus! {

/// Where an update cycle stands.
#[derive(Clone, Copy, Debug, PartialEq, Eq, Structural)]
pub enum UpdatePhase {
    /// Unpack the downloaded release into a scratch directory.
    Extract,
    /// Read the release manifest and find the executable it names.
    Validate,
    /// Classify every path of the release and carry out the checks, which
    /// change nothing.
    Plan,
    /// Persist the record with the crash marker set.
    MarkDirty,
    /// Carry out the preparations: delete what changed its kind, create
    /// directories and the files that are new.
    Prepare,
    /// Overwrite the planned files, one by one.
    Copy,
    /// Hash what was written.
    ResolveHashes,
    /// Persist the record with the crash marker cleared.
    MarkClean,
    /// Remove what the new release no longer holds.
    Cleanup,
    /// Make the executable runnable.
    FixPermissions,
    Done,
    Failed,
}

/// How the step that the machine asked for went.
#[derive(Clone, Copy, Debug, PartialEq, Eq, Structural)]
pub enum StepOutcome {
    Succeeded,
    /// Planning succeeded with this many files to copy.
    Planned(usize),
    /// The release does not hold the executable that its manifest names.
    ExecutableMissing,
    Failed,
}

/// What the caller is asked to do next.
#[derive(Clone, Copy, Debug, PartialEq, Eq, Structural)]
pub enum UpdateAction {
    Extract,
    Validate,
    Plan,
    /// Write the record to disk with `installing` set to this value.
    Persist(bool),
    /// Carry out the preparations of the plan, in order.
    Prepare,
    /// Copy the planned file with this index.
    Copy(usize),
    ResolveHashes,
    Cleanup,
    FixPermissions,
    /// The cycle is complete.
    Finish,
    /// The cycle has failed. Where `report` is set, the failure is sent
    /// to the developers first.
    GiveUp { report: bool },
}

/// The state of one update cycle.
#[derive(Clone, Copy, Debug, PartialEq, Eq, Structural)]
pub struct DiffUpdate {
    pub phase: UpdatePhase,
    /// Whether the previous record tracked no file.
    pub fresh_install: bool,
    pub copies_total: usize,
    pub copies_done: usize,
    /// Whether this cycle has left the crash marker set on disk.
    pub disk_marker: bool,
    /// Whether the failure that ended the cycle is reported.
    pub report: bool,
}

/// The position of a phase in the order of a cycle.
pub open spec fn phase_rank(p: UpdatePhase) -> int {
    match p {
        UpdatePhase::Extract => 0,
        UpdatePhase::Validate => 1,
        UpdatePhase::Plan => 2,
        UpdatePhase::MarkDirty => 3,
        UpdatePhase::Prepare => 4,
        UpdatePhase::Copy => 5,
        UpdatePhase::ResolveHashes => 6,
        UpdatePhase::MarkClean => 7,
        UpdatePhase::Cleanup => 8,
        UpdatePhase::FixPermissions => 9,
        UpdatePhase::Done => 10,
        UpdatePhase::Failed => 11,
    }
}

/// Whether the install is being changed or hashed in this phase.
pub open spec fn in_critical_section(p: UpdatePhase) -> bool {
    p == UpdatePhase::Prepare || p == UpdatePhase::Copy || p == UpdatePhase::ResolveHashes || p
        == UpdatePhase::MarkClean
}

/// The phase that follows planning: with nothing tracked before there is
/// no record to mark.
pub open spec fn after_plan(fresh_install: bool) -> UpdatePhase {
    if fresh_install {
        UpdatePhase::Prepare
    } else {
        UpdatePhase::MarkDirty
    }
}

/// The phase that copying starts in: hashing, where there is nothing to
/// copy.
pub open spec fn copy_or_hash(total: usize) -> UpdatePhase {
    if total == 0 {
        UpdatePhase::ResolveHashes
    } else {
        UpdatePhase::Copy
    }
}

/// The state after the step that `s` asked for went as `o` says.
pub open spec fn advance_spec(s: DiffUpdate, o: StepOutcome) -> DiffUpdate {
    let failed = DiffUpdate { phase: UpdatePhase::Failed, ..s };
    match s.phase {
        UpdatePhase::Extract => match o {
            StepOutcome::Succeeded => DiffUpdate { phase: UpdatePhase::Validate, ..s },
            _ => failed,
        },
        UpdatePhase::Validate => match o {
            StepOutcome::Succeeded => DiffUpdate { phase: UpdatePhase::Plan, ..s },
            StepOutcome::ExecutableMissing => DiffUpdate { report: true, ..failed },
            _ => failed,
        },
        UpdatePhase::Plan => match o {
            StepOutcome::Planned(n) => DiffUpdate {
                phase: after_plan(s.fresh_install),
                copies_total: n,
                copies_done: 0,
                ..s
            },
            _ => failed,
        },
        UpdatePhase::MarkDirty => match o {
            StepOutcome::Succeeded => DiffUpdate {
                phase: UpdatePhase::Prepare,
                disk_marker: true,
                ..s
            },
            _ => failed,
        },
        UpdatePhase::Prepare => match o {
            StepOutcome::Succeeded => DiffUpdate { phase: copy_or_hash(s.copies_total), ..s },
            _ => failed,
        },
        UpdatePhase::Copy => match o {
            StepOutcome::Succeeded => if s.copies_done + 1 >= s.copies_total {
                DiffUpdate { phase: UpdatePhase::ResolveHashes, copies_done: s.copies_total, ..s }
            } else {
                DiffUpdate { copies_done: (s.copies_done + 1) as usize, ..s }
            },
            _ => failed,
        },
        UpdatePhase::ResolveHashes => match o {
            StepOutcome::Succeeded => DiffUpdate {
                phase: if s.fresh_install {
                    UpdatePhase::Cleanup
                } else {
                    UpdatePhase::MarkClean
                },
                ..s
            },
            _ => failed,
        },
        UpdatePhase::MarkClean => match o {
            StepOutcome::Succeeded => DiffUpdate {
                phase: UpdatePhase::Cleanup,
                disk_marker: false,
                ..s
            },
            _ => failed,
        },
        // A cleanup that fails is no reason to give up an update that has landed.
        UpdatePhase::Cleanup => DiffUpdate { phase: UpdatePhase::FixPermissions, ..s },
        UpdatePhase::FixPermissions => match o {
            StepOutcome::Succeeded => DiffUpdate { phase: UpdatePhase::Done, ..s },
            _ => DiffUpdate { report: true, ..failed },
        },
        UpdatePhase::Done => s,
        UpdatePhase::Failed => s,
    }
}

/// What the state `s` asks the caller to do.
pub open spec fn action_spec(s: DiffUpdate) -> UpdateAction {
    match s.phase {
        UpdatePhase::Extract => UpdateAction::Extract,
        UpdatePhase::Validate => UpdateAction::Validate,
        UpdatePhase::Plan => UpdateAction::Plan,
        UpdatePhase::MarkDirty => UpdateAction::Persist(true),
        UpdatePhase::Prepare => UpdateAction::Prepare,
        UpdatePhase::Copy => UpdateAction::Copy(s.copies_done),
        UpdatePhase::ResolveHashes => UpdateAction::ResolveHashes,
        UpdatePhase::MarkClean => UpdateAction::Persist(false),
        UpdatePhase::Cleanup => UpdateAction::Cleanup,
        UpdatePhase::FixPermissions => UpdateAction::FixPermissions,
        UpdatePhase::Done => UpdateAction::Finish,
        UpdatePhase::Failed => UpdateAction::GiveUp { report: s.report },
    }
}

/// What holds of every state that a cycle can reach.
///
/// - Before the critical section the record on disk is untouched.
/// - Within it, the marker is set on disk unless nothing was installed
///   before.
/// - Once the cycle is past it, the marker is cleared.
/// - The record is marked only where something was installed before.
/// - While a file is being copied there is a next file to copy.
pub open spec fn cycle_inv(s: DiffUpdate) -> bool {
    &&& s.disk_marker ==> !s.fresh_install
    &&& s.phase == UpdatePhase::MarkDirty || s.phase == UpdatePhase::MarkClean ==> !s.fresh_install
    &&& phase_rank(s.phase) <= 3 ==> !s.disk_marker
    &&& phase_rank(s.phase) <= 4 ==> s.copies_done == 0
    &&& in_critical_section(s.phase) ==> s.disk_marker == !s.fresh_install
    &&& 8 <= phase_rank(s.phase) <= 10 ==> !s.disk_marker
    &&& s.phase == UpdatePhase::Copy ==> s.copies_done < s.copies_total
    &&& s.copies_done <= s.copies_total
}

impl DiffUpdate {
    /// The state at the start of a cycle.
    pub fn new(fresh_install: bool) -> (s: Self)
        ensures
            s == (DiffUpdate {
                phase: UpdatePhase::Extract,
                fresh_install,
                copies_total: 0,
                copies_done: 0,
                disk_marker: false,
                report: false,
            }),
            cycle_inv(s),
    {
        DiffUpdate {
            phase: UpdatePhase::Extract,
            fresh_install,
            copies_total: 0,
            copies_done: 0,
            disk_marker: false,
            report: false,
        }
    }

    /// What the caller is asked to do next.
    pub fn next_action(&self) -> (a: UpdateAction)
        ensures
            a == action_spec(*self),
    {
        match self.phase {
            UpdatePhase::Extract => UpdateAction::Extract,
            UpdatePhase::Validate => UpdateAction::Validate,
            UpdatePhase::Plan => UpdateAction::Plan,
            UpdatePhase::MarkDirty => UpdateAction::Persist(true),
            UpdatePhase::Prepare => UpdateAction::Prepare,
            UpdatePhase::Copy => UpdateAction::Copy(self.copies_done),
            UpdatePhase::ResolveHashes => UpdateAction::ResolveHashes,
            UpdatePhase::MarkClean => UpdateAction::Persist(false),
            UpdatePhase::Cleanup => UpdateAction::Cleanup,
            UpdatePhase::FixPermissions => UpdateAction::FixPermissions,
            UpdatePhase::Done => UpdateAction::Finish,
            UpdatePhase::Failed => UpdateAction::GiveUp { report: self.report },
        }
    }

    /// Takes in how the step that was asked for went.
    pub fn advance(&mut self, o: StepOutcome)
        ensures
            *final(self) == advance_spec(*old(self), o),
    {
        let s = *self;
        let next_from_copy = if s.copies_total == 0 {
            UpdatePhase::ResolveHashes
        } else {
            UpdatePhase::Copy
        };
        match (s.phase, o) {
            (UpdatePhase::Extract, StepOutcome::Succeeded) => {
                self.phase = UpdatePhase::Validate;
            },
            (UpdatePhase::Validate, StepOutcome::Succeeded) => {
                self.phase = UpdatePhase::Plan;
            },
            (UpdatePhase::Validate, StepOutcome::ExecutableMissing) => {
                self.phase = UpdatePhase::Failed;
                self.report = true;
            },
            (UpdatePhase::Plan, StepOutcome::Planned(n)) => {
                self.copies_total = n;
                self.copies_done = 0;
                self.phase = if s.fresh_install {
                    UpdatePhase::Prepare
                } else {
                    UpdatePhase::MarkDirty
                };
            },
            (UpdatePhase::MarkDirty, StepOutcome::Succeeded) => {
                self.disk_marker = true;
                self.phase = UpdatePhase::Prepare;
            },
            (UpdatePhase::Prepare, StepOutcome::Succeeded) => {
                self.phase = next_from_copy;
            },
            (UpdatePhase::Copy, StepOutcome::Succeeded) => {
                if s.copies_done >= s.copies_total || s.copies_total - s.copies_done <= 1 {
                    self.copies_done = s.copies_total;
                    self.phase = UpdatePhase::ResolveHashes;
                } else {
                    self.copies_done = s.copies_done + 1;
                }
            },
            (UpdatePhase::ResolveHashes, StepOutcome::Succeeded) => {
                self.phase = if s.fresh_install {
                    UpdatePhase::Cleanup
                } else {
                    UpdatePhase::MarkClean
                };
            },
            (UpdatePhase::MarkClean, StepOutcome::Succeeded) => {
                self.disk_marker = false;
                self.phase = UpdatePhase::Cleanup;
            },
            (UpdatePhase::Cleanup, _) => {
                self.phase = UpdatePhase::FixPermissions;
            },
            (UpdatePhase::FixPermissions, StepOutcome::Succeeded) => {
                self.phase = UpdatePhase::Done;
            },
            (UpdatePhase::FixPermissions, _) => {
                self.phase = UpdatePhase::Failed;
                self.report = true;
            },
            (UpdatePhase::Done, _) => {},
            (UpdatePhase::Failed, _) => {},
            _ => {
                self.phase = UpdatePhase::Failed;
            },
        }
    }

    /// The share of the whole update that is done, in thousandths.
    pub fn progress(&self) -> (p: u16)
        ensures
            p == progress_of(*self),
            p <= 1000,
    {
        match self.phase {
            UpdatePhase::Extract => 0,
            UpdatePhase::Validate => 500,
            UpdatePhase::Plan => 500,
            UpdatePhase::MarkDirty => 750,
            UpdatePhase::Prepare => 750,
            UpdatePhase::Copy => {
                if self.copies_done <= self.copies_total {
                    segment_progress(750, 230, self.copies_done, self.copies_total)
                } else {
                    segment_progress(750, 230, self.copies_total, self.copies_total)
                }
            },
            UpdatePhase::ResolveHashes => 980,
            UpdatePhase::MarkClean => 980,
            UpdatePhase::Cleanup => 990,
            UpdatePhase::FixPermissions => 990,
            UpdatePhase::Done => 1000,
            UpdatePhase::Failed => 0,
        }
    }

    /// Whether the cycle has ended, well or not.
    pub fn is_over(&self) -> (r: bool)
        ensures
            r == (self.phase == UpdatePhase::Done || self.phase == UpdatePhase::Failed),
    {
        match self.phase {
            UpdatePhase::Done => true,
            UpdatePhase::Failed => true,
            _ => false,
        }
    }
}

/// Every step keeps what holds of a cycle, never goes back to an earlier
/// phase, and changes the marker on disk only by the two steps that
/// persist the record.
pub proof fn lemma_advance(s: DiffUpdate, o: StepOutcome)
    requires
        cycle_inv(s),
    ensures
        cycle_inv(advance_spec(s, o)) || advance_spec(s, o).phase == UpdatePhase::Failed,
        phase_rank(advance_spec(s, o).phase) >= phase_rank(s.phase),
        advance_spec(s, o).fresh_install == s.fresh_install,
        advance_spec(s, o).disk_marker != s.disk_marker ==> (action_spec(s) == UpdateAction::Persist(
            advance_spec(s, o).disk_marker,
        ) && o == StepOutcome::Succeeded),
{
}

/// A cycle that fails leaves the marker on disk as it was when it failed:
/// cleared before the critical section, set within it.
pub proof fn lemma_failure_keeps_marker(s: DiffUpdate, o: StepOutcome)
    requires
        cycle_inv(s),
        advance_spec(s, o).phase == UpdatePhase::Failed,
    ensures
        advance_spec(s, o).disk_marker == s.disk_marker,
        in_critical_section(s.phase) && !s.fresh_install ==> advance_spec(s, o).disk_marker,
        phase_rank(s.phase) <= 3 ==> !advance_spec(s, o).disk_marker,
{
}

/// Nothing in the install is created, deleted or overwritten unless the
/// marker is set on disk or nothing was installed before: the
/// preparations and every copy are asked for in such a state only.
pub proof fn lemma_copy_is_marked(s: DiffUpdate)
    requires
        cycle_inv(s),
        action_spec(s) is Copy || action_spec(s) is Prepare,
    ensures
        s.disk_marker || s.fresh_install,
        action_spec(s) is Copy ==> action_spec(s)->Copy_0 < s.copies_total,
{
}

/// The steps that are asked for while the record on disk is untouched
/// change nothing in the install: before the marker is set, the cycle
/// asks only to unpack into the scratch directory, to read the manifest,
/// to plan and check, and to persist the marker.
pub proof fn lemma_unmarked_steps(s: DiffUpdate)
    requires
        cycle_inv(s),
        !s.fresh_install,
        !s.disk_marker,
        phase_rank(s.phase) <= 7,
    ensures
        action_spec(s) == UpdateAction::Extract || action_spec(s) == UpdateAction::Validate
            || action_spec(s) == UpdateAction::Plan || action_spec(s) == UpdateAction::Persist(true),
{
}

/// The share of the whole update that is done in the state `s`, in
/// thousandths.
pub open spec fn progress_of(s: DiffUpdate) -> int {
    match s.phase {
        UpdatePhase::Extract => 0,
        UpdatePhase::Validate => 500,
        UpdatePhase::Plan => 500,
        UpdatePhase::MarkDirty => 750,
        UpdatePhase::Prepare => 750,
        UpdatePhase::Copy => progress_spec(
            750,
            230,
            if s.copies_done <= s.copies_total {
                s.copies_done as int
            } else {
                s.copies_total as int
            },
            s.copies_total as int,
        ),
        UpdatePhase::ResolveHashes => 980,
        UpdatePhase::MarkClean => 980,
        UpdatePhase::Cleanup => 990,
        UpdatePhase::FixPermissions => 990,
        UpdatePhase::Done => 1000,
        UpdatePhase::Failed => 0,
    }
}

/// Progress never goes back and never exceeds the whole: a step that does
/// not fail leaves at least as much done as before, at most a thousand
/// thousandths, and a completed cycle has exactly that.
pub proof fn lemma_cycle_progress(s: DiffUpdate, o: StepOutcome)
    requires
        cycle_inv(s),
        advance_spec(s, o).phase != UpdatePhase::Failed,
    ensures
        progress_of(s) <= progress_of(advance_spec(s, o)) <= 1000,
        advance_spec(s, o).phase == UpdatePhase::Done ==> progress_of(advance_spec(s, o)) == 1000,
{
    let t = advance_spec(s, o);
    if s.phase == UpdatePhase::Copy {
        lemma_progress_monotone(750, 230, s.copies_done as int, s.copies_total as int, s.copies_total as int);
        if t.phase == UpdatePhase::Copy {
            lemma_progress_monotone(
                750,
                230,
                s.copies_done as int,
                t.copies_done as int,
                s.copies_total as int,
            );
            lemma_progress_monotone(
                750,
                230,
                t.copies_done as int,
                s.copies_total as int,
                s.copies_total as int,
            );
        }
    }
    if t.phase == UpdatePhase::Copy && s.phase != UpdatePhase::Copy {
        lemma_progress_monotone(750, 230, 0, 0, t.copies_total as int);
        lemma_progress_monotone(750, 230, 0, t.copies_total as int, t.copies_total as int);
        assert(progress_spec(750, 230, 0, t.copies_total as int) == 750) by {
            assert((230int * 0) / (t.copies_total as int) == 0) by (nonlinear_arith)
                requires
                    t.copies_total as int > 0,
            ;
        }
    }
}

/// Whether a record read from disk is taken as a valid install.
pub open spec fn read_accepts(loaded: LoadedRecord) -> bool {
    loaded is Parsed && !loaded->Parsed_0.installing
}

/// A process that ends while files are being overwritten leaves a record
/// that the next start rejects: where the cycle of an existing install is
/// in its critical section, a record that holds the marker as it is on
/// disk is not accepted.
pub proof fn lemma_interrupted_update_is_rejected(s: DiffUpdate, on_disk: StoredInstallData)
    requires
        cycle_inv(s),
        in_critical_section(s.phase),
        !s.fresh_install,
        on_disk.installing == s.disk_marker,
    ensures
        !read_accepts(LoadedRecord::Parsed(on_disk)),
{
}

/// A cycle that completes has cleared the marker.
pub proof fn lemma_done_is_clean(s: DiffUpdate)
    requires
        cycle_inv(s),
        s.phase == UpdatePhase::Done,
    ensures
        !s.disk_marker,
{
}

/// The share of a phase that is done after `index` of `total` items, in
/// thousandths of the whole update: the phase begins at `base` and spans
/// `span`.
pub open spec fn progress_spec(base: int, span: int, index: int, total: int) -> int {
    if total <= 0 {
        base
    } else {
        base + (span * index) / total
    }
}

/// The progress of a phase in thousandths of the whole update.
pub fn segment_progress(base: u16, span: u16, index: usize, total: usize) -> (r: u16)
    requires
        base + span <= 1000,
        index <= total,
    ensures
        r == progress_spec(base as int, span as int, index as int, total as int),
        base <= r <= base + span,
{
    if total == 0 {
        return base;
    }
    proof {
        assert(span as int * index as int <= 1000 * 0xFFFF_FFFF_FFFF_FFFF) by (nonlinear_arith)
            requires
                0 <= span <= 1000,
                0 <= index <= 0xFFFF_FFFF_FFFF_FFFF,
        ;
    }
    let num: u128 = (span as u128) * (index as u128);
    let q: u128 = num / (total as u128);
    proof {
        assert(span as int * index as int <= span as int * total as int) by (nonlinear_arith)
            requires
                index <= total,
                0 <= span,
        ;
        assert((span as int * index as int) / (total as int) <= span as int) by (nonlinear_arith)
            requires
                span as int * index as int <= span as int * total as int,
                total > 0,
                0 <= span as int * index as int,
        ;
        assert((span as int * index as int) / (total as int) >= 0) by (nonlinear_arith)
            requires
                total > 0,
                0 <= span as int * index as int,
        ;
    }
    base + (q as u16)
}

/// Progress never goes back within a phase.
pub proof fn lemma_progress_monotone(base: int, span: int, i: int, j: int, total: int)
    requires
        0 <= span,
        0 <= i <= j <= total,
    ensures
        progress_spec(base, span, i, total) <= progress_spec(base, span, j, total),
        j == total && total > 0 ==> progress_spec(base, span, j, total) == base + span,
{
    if total > 0 {
        assert(span * i <= span * j) by (nonlinear_arith)
            requires
                0 <= span,
                i <= j,
        ;
        assert((span * i) / total <= (span * j) / total) by (nonlinear_arith)
            requires
                span * i <= span * j,
                total > 0,
        ;
        if j == total {
            assert((span * total) / total == span) by (nonlinear_arith)
                requires
                    total > 0,
            ;
        }
    }
}

} // verus!
