use shipper::decimal::{format_u64, parse_u64};
use shipper::defines::{Config, Platform};
use shipper::hooks::{duplicate_process_hook, DuplicateOutcome};
use shipper::ipc::{
    alert_after_focus, enumerate, focus, launch_decision, other_running, pid_to_file, running_map,
    ExternalIPCInfo, FocusRequest, IPCInfo, LaunchDecision, PresenceFile,
};
use shipper::shipperfile::InstanceMode;

fn config() -> Config {
    Config {
        data_local_dir: "/data".to_string(),
        pakkly_id: "abc".to_string(),
        shipper_version: "1.0.0".to_string(),
        shipper_channel: "stable".to_string(),
        remote_url: "https://example.invalid".to_string(),
        platform: Platform::Linux,
        fresh_install: false,
    }
}

fn record(pid: &str) -> PresenceFile {
    PresenceFile { file_name: format!("{}.json", pid), pid: Some(pid.to_string()) }
}

fn pids(v: &[ExternalIPCInfo]) -> Vec<String> {
    v.iter().map(|p| p.pid.clone()).collect()
}

#[test]
fn of_two_updaters_started_in_turn_only_the_first_goes_on() {
    // The first starts alone.
    let first = enumerate(&vec![record("100")], "100", &vec![100]).unwrap();
    assert!(first.is_empty());
    assert_eq!(other_running(&first).unwrap(), false);
    assert!(matches!(
        launch_decision(InstanceMode::single_instance, Some(&first)),
        LaunchDecision::Launch
    ));
    assert_eq!(duplicate_process_hook(Some(first.len()), false), DuplicateOutcome::Continue);
    // The second finds the first alive.
    let second = enumerate(&vec![record("100"), record("200")], "200", &vec![100, 200]).unwrap();
    assert_eq!(pids(&second), vec!["100".to_string()]);
    assert_eq!(other_running(&second).unwrap(), true);
    assert_eq!(
        duplicate_process_hook(Some(second.len()), false),
        DuplicateOutcome::LaunchWithoutUpdate
    );
    match launch_decision(InstanceMode::single_instance, Some(&second)) {
        LaunchDecision::FocusThenExit(pid) => assert_eq!(pid, "100"),
        _ => panic!("the second updater must yield"),
    }
}

#[test]
fn records_of_dead_processes_and_other_files_are_ignored() {
    let files = vec![
        record("1"),
        PresenceFile { file_name: "notes.txt".to_string(), pid: None },
        record("2"),
        record("3"),
        record("42"),
    ];
    let peers = enumerate(&files, "42", &vec![3, 1, 77]).unwrap();
    assert_eq!(pids(&peers), vec!["1".to_string(), "3".to_string()]);
}

#[test]
fn an_unreadable_record_fails_the_enumeration() {
    let broken = PresenceFile { file_name: "9.json".to_string(), pid: None };
    assert!(enumerate(&vec![record("1"), broken], "5", &vec![1]).is_err());
    for bad in ["", "abc", "007", "-5", "+5", "1 ", "99999999999999999999"] {
        let f = PresenceFile { file_name: "x.json".to_string(), pid: Some(bad.to_string()) };
        assert!(enumerate(&vec![f], "5", &vec![]).is_err(), "{:?}", bad);
    }
    // This process's own record is skipped before its id is read.
    let own = PresenceFile { file_name: "x.json".to_string(), pid: Some("self".to_string()) };
    assert!(enumerate(&vec![own], "self", &vec![]).unwrap().is_empty());
}

#[test]
fn many_instances_never_yield() {
    let peers = vec![ExternalIPCInfo { pid: "1".to_string() }];
    assert!(matches!(
        launch_decision(InstanceMode::multi_instance, Some(&peers)),
        LaunchDecision::Launch
    ));
    assert!(matches!(launch_decision(InstanceMode::multi_instance, None), LaunchDecision::Launch));
    assert!(matches!(
        launch_decision(InstanceMode::single_instance, None),
        LaunchDecision::AlertAndExit
    ));
    assert!(alert_after_focus(InstanceMode::single_instance, false));
    assert!(!alert_after_focus(InstanceMode::single_instance, true));
    assert!(!alert_after_focus(InstanceMode::multi_instance, false));
}

#[test]
fn an_uninstall_is_refused_while_the_application_runs() {
    assert_eq!(duplicate_process_hook(Some(1), true), DuplicateOutcome::RefuseUninstall);
    assert_eq!(duplicate_process_hook(Some(0), true), DuplicateOutcome::Continue);
    assert_eq!(duplicate_process_hook(None, true), DuplicateOutcome::LaunchWithoutUpdate);
}

#[test]
fn running_map_marks_every_live_pid() {
    assert_eq!(running_map(&vec![5, 6, 5, 7], &vec![7, 5]), vec![true, false, true, true]);
    assert_eq!(running_map(&vec![], &vec![1]), Vec::<bool>::new());
}

#[test]
fn focus_needs_a_platform_that_can_do_it() {
    let t = ExternalIPCInfo { pid: "4242".to_string() };
    assert_eq!(focus(&t, Platform::Macos).unwrap(), FocusRequest::Macos(4242));
    assert_eq!(focus(&t, Platform::Windows).unwrap(), FocusRequest::Windows(4242));
    assert_eq!(focus(&t, Platform::Linux).unwrap_err().msg, "No focus for OS linux");
    let big = ExternalIPCInfo { pid: "4294967296".to_string() };
    assert!(focus(&big, Platform::Windows).is_err());
    assert_eq!(focus(&big, Platform::Macos).unwrap(), FocusRequest::Macos(4294967296));
    let huge = ExternalIPCInfo { pid: "9223372036854775808".to_string() };
    assert!(focus(&huge, Platform::Macos).is_err());
    assert!(focus(&ExternalIPCInfo { pid: "x".to_string() }, Platform::Macos).is_err());
}

#[test]
fn presence_records_are_named_after_the_process() {
    let c = config();
    assert_eq!(pid_to_file("77", &c), "/data/pakked_abc/runner/ipc/77.json");
    let own = IPCInfo::new(None, 31337);
    assert_eq!(own.ipc_data.pid, "31337");
    assert_eq!(own.file(&c), "/data/pakked_abc/runner/ipc/31337.json");
    let child = IPCInfo::new(Some("12".to_string()), 31337);
    assert_eq!(child.ipc_data.pid, "12");
}

#[test]
fn decimal_text_round_trips() {
    for n in [0u64, 1, 9, 10, 11, 99, 100, 4294967295, u64::MAX] {
        assert_eq!(format_u64(n), n.to_string());
        assert_eq!(parse_u64(&n.to_string()), Some(n));
    }
    assert_eq!(parse_u64("18446744073709551616"), None);
    assert_eq!(parse_u64("18446744073709551615"), Some(u64::MAX));
    assert_eq!(parse_u64("00"), None);
    assert_eq!(parse_u64("0"), Some(0));
    assert_eq!(parse_u64("12a"), None);
    assert_eq!(parse_u64("١٢"), None);
}
