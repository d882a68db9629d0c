use shipper::cycle::{segment_progress, DiffUpdate, StepOutcome, UpdateAction, UpdatePhase};
use shipper::shipper::{SelfUpdate, SelfUpdateAction, SelfUpdateState};
use shipper::defines::Platform;

fn run(cycle: &mut DiffUpdate, outcomes: &[StepOutcome]) -> Vec<UpdateAction> {
    let mut seen = vec![];
    for o in outcomes {
        seen.push(cycle.next_action());
        cycle.advance(*o);
    }
    seen
}

#[test]
fn an_update_of_an_existing_install_marks_the_record_around_the_copies() {
    let mut c = DiffUpdate::new(false);
    let ok = StepOutcome::Succeeded;
    let seen = run(&mut c, &[ok, ok, StepOutcome::Planned(2), ok, ok, ok, ok, ok, ok, ok, ok]);
    assert_eq!(
        seen,
        vec![
            UpdateAction::Extract,
            UpdateAction::Validate,
            UpdateAction::Plan,
            UpdateAction::Persist(true),
            UpdateAction::Prepare,
            UpdateAction::Copy(0),
            UpdateAction::Copy(1),
            UpdateAction::ResolveHashes,
            UpdateAction::Persist(false),
            UpdateAction::Cleanup,
            UpdateAction::FixPermissions,
        ]
    );
    assert_eq!(c.phase, UpdatePhase::Done);
    assert_eq!(c.next_action(), UpdateAction::Finish);
    assert!(!c.disk_marker);
    assert!(c.is_over());
    assert_eq!(c.progress(), 1000);
}

#[test]
fn progress_of_a_cycle_never_goes_back_and_ends_at_the_whole() {
    let mut c = DiffUpdate::new(false);
    let ok = StepOutcome::Succeeded;
    let mut seen = vec![c.progress()];
    for o in [ok, ok, StepOutcome::Planned(3), ok, ok, ok, ok, ok, ok, ok, ok, ok] {
        c.advance(o);
        seen.push(c.progress());
    }
    assert_eq!(seen, vec![0, 500, 500, 750, 750, 750, 826, 903, 980, 980, 990, 990, 1000]);
    assert_eq!(c.phase, UpdatePhase::Done);
}

#[test]
fn a_failure_while_preparing_leaves_the_marker_set() {
    let mut c = DiffUpdate::new(false);
    let ok = StepOutcome::Succeeded;
    run(&mut c, &[ok, ok, StepOutcome::Planned(1), ok]);
    assert_eq!(c.next_action(), UpdateAction::Prepare);
    assert!(c.disk_marker);
    c.advance(StepOutcome::Failed);
    assert_eq!(c.phase, UpdatePhase::Failed);
    assert!(c.disk_marker);
}

#[test]
fn a_fresh_install_never_marks_the_record() {
    let mut c = DiffUpdate::new(true);
    let ok = StepOutcome::Succeeded;
    let seen = run(&mut c, &[ok, ok, StepOutcome::Planned(1), ok, ok, ok, ok, ok]);
    assert_eq!(
        seen,
        vec![
            UpdateAction::Extract,
            UpdateAction::Validate,
            UpdateAction::Plan,
            UpdateAction::Prepare,
            UpdateAction::Copy(0),
            UpdateAction::ResolveHashes,
            UpdateAction::Cleanup,
            UpdateAction::FixPermissions,
        ]
    );
    assert_eq!(c.phase, UpdatePhase::Done);
}

#[test]
fn a_failure_while_copying_leaves_the_marker_set() {
    let mut c = DiffUpdate::new(false);
    let ok = StepOutcome::Succeeded;
    run(&mut c, &[ok, ok, StepOutcome::Planned(3), ok, ok, ok]);
    assert_eq!(c.phase, UpdatePhase::Copy);
    assert!(c.disk_marker);
    c.advance(StepOutcome::Failed);
    assert_eq!(c.phase, UpdatePhase::Failed);
    assert!(c.disk_marker);
    assert_eq!(c.next_action(), UpdateAction::GiveUp { report: false });
    c.advance(StepOutcome::Succeeded);
    assert_eq!(c.phase, UpdatePhase::Failed);
    assert!(c.disk_marker);
}

#[test]
fn a_failure_before_the_critical_section_leaves_the_record_alone() {
    for upto in 0..3 {
        let mut c = DiffUpdate::new(false);
        let steps = [StepOutcome::Succeeded, StepOutcome::Succeeded, StepOutcome::Planned(2)];
        run(&mut c, &steps[..upto]);
        c.advance(StepOutcome::Failed);
        assert_eq!(c.phase, UpdatePhase::Failed);
        assert!(!c.disk_marker);
    }
    let mut c = DiffUpdate::new(false);
    run(&mut c, &[StepOutcome::Succeeded, StepOutcome::Succeeded, StepOutcome::Planned(2)]);
    assert_eq!(c.next_action(), UpdateAction::Persist(true));
    c.advance(StepOutcome::Failed);
    assert!(!c.disk_marker);
}

#[test]
fn a_release_without_its_executable_is_reported() {
    let mut c = DiffUpdate::new(false);
    c.advance(StepOutcome::Succeeded);
    c.advance(StepOutcome::ExecutableMissing);
    assert_eq!(c.next_action(), UpdateAction::GiveUp { report: true });
    assert!(!c.disk_marker);
}

#[test]
fn a_failed_cleanup_does_not_fail_the_update_but_lost_permissions_do() {
    let mut c = DiffUpdate::new(true);
    let ok = StepOutcome::Succeeded;
    run(&mut c, &[ok, ok, StepOutcome::Planned(0), ok, ok]);
    assert_eq!(c.next_action(), UpdateAction::Cleanup);
    c.advance(StepOutcome::Failed);
    assert_eq!(c.next_action(), UpdateAction::FixPermissions);
    c.advance(StepOutcome::Failed);
    assert_eq!(c.next_action(), UpdateAction::GiveUp { report: true });
}

#[test]
fn an_empty_copy_plan_goes_straight_to_hashing() {
    let mut c = DiffUpdate::new(false);
    let ok = StepOutcome::Succeeded;
    let seen = run(&mut c, &[ok, ok, StepOutcome::Planned(0), ok, ok, ok, ok]);
    assert_eq!(seen[3], UpdateAction::Persist(true));
    assert_eq!(seen[4], UpdateAction::Prepare);
    assert_eq!(seen[5], UpdateAction::ResolveHashes);
    assert_eq!(seen[6], UpdateAction::Persist(false));
}

#[test]
fn progress_in_thousandths() {
    assert_eq!(segment_progress(0, 500, 0, 4), 0);
    assert_eq!(segment_progress(0, 500, 1, 4), 125);
    assert_eq!(segment_progress(500, 250, 2, 4), 625);
    assert_eq!(segment_progress(750, 230, 3, 3), 980);
    assert_eq!(segment_progress(750, 230, 1, 3), 826);
    assert_eq!(segment_progress(750, 230, 0, 0), 750);
    assert_eq!(segment_progress(990, 10, 1, 1), 1000);
    let mut last = 0;
    for i in 0..=17 {
        let p = segment_progress(500, 250, i, 17);
        assert!(p >= last);
        last = p;
    }
    assert_eq!(last, 750);
}

#[test]
fn the_direct_path_installs_in_place() {
    let mut s = SelfUpdate::start(Platform::Linux, true, false);
    assert_eq!(s.state, SelfUpdateState::FetchPending);
    assert_eq!(s.next_action(), SelfUpdateAction::Download);
    s.advance(true);
    assert_eq!(s.next_action(), SelfUpdateAction::InstallInPlace);
    s.advance(true);
    assert_eq!(s.state, SelfUpdateState::Complete);
    assert_eq!(s.next_action(), SelfUpdateAction::Continue);
}

#[test]
fn the_indirect_path_stages_hands_over_and_replaces() {
    let mut s = SelfUpdate::start(Platform::Windows, true, false);
    let mut seen = vec![];
    for _ in 0..4 {
        seen.push((s.state, s.next_action()));
        s.advance(true);
    }
    assert_eq!(
        seen,
        vec![
            (SelfUpdateState::FetchPending, SelfUpdateAction::Download),
            (SelfUpdateState::StagingInstall, SelfUpdateAction::InstallStaged),
            (SelfUpdateState::AwaitingHandoff, SelfUpdateAction::SpawnStagedAndExit),
            (SelfUpdateState::IndirectFinalizing, SelfUpdateAction::ReplaceResident),
        ]
    );
    assert_eq!(s.state, SelfUpdateState::Complete);
    let staged = SelfUpdate::start(Platform::Windows, false, true);
    assert_eq!(staged.state, SelfUpdateState::IndirectFinalizing);
    assert!(staged.staged_process);
    assert_eq!(staged.next_action(), SelfUpdateAction::ReplaceResident);
}

#[test]
fn a_failed_self_update_goes_on_as_the_resident_updater() {
    let mut s = SelfUpdate::start(Platform::Windows, true, false);
    s.advance(true);
    s.advance(false);
    assert_eq!(s.state, SelfUpdateState::Failed);
    assert_eq!(s.next_action(), SelfUpdateAction::Continue);
    let none = SelfUpdate::start(Platform::Macos, false, false);
    assert_eq!(none.state, SelfUpdateState::NotNeeded);
    assert_eq!(none.next_action(), SelfUpdateAction::Continue);
}
