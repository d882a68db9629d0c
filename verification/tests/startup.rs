use shipper::common::{
    escape_quotes, path_str, set_scene_direct,
    all_absolute_files_in_folder_recursive, all_relative_files_in_folder_recursive, arch_name,
    crashlog_url, execute_program_and_terminate, find_executable_path, find_file_joined,
    get_standard_timeout, get_update_info, is_hash_whitelisted, is_inside, os_name, random_hash,
    submit_basic_crash, submit_critical_error, CrashState, InstallProgressSegment, SceneID,
    update_info_url,
};
use shipper::defines::{Arch, Config, Platform};
use shipper::fslog::{FsEntry, FsSnapshot};
use shipper::hooks::{
    after_install_window, arg_flag_set, arg_value_set, crash_state_of, deliver_progress,
    force_update_hook, install_indirect_exit_hook, install_quiet_exit_hook, repair_shipper_hook,
    selfupdate_hook, should_app_update, uninstall_exit_hook, unwrap_fe, update_timer_exit_hook,
    warn_unwrap, AfterWindow, UninstallRequest,
};
use shipper::error::FormattedError;
use shipper::paths::{
    get_install_dir_pakkly, get_install_dir_pakkly_update, get_install_file_pakkly,
    get_install_file_pakkly_update, get_install_path, get_install_root, get_install_subdir,
    get_ipc_dir, get_json_path, join, parent,
};
use shipper::remoteinstallerdata::{
    DownloadParams, InstallerColor, PakklyMetaRemote, StoredInstallData,
};
use shipper::shipperfile::{InstanceMode, Shipperfile, ShipperfileGenerated};
use shipper::sorting::stable_order_desc;
use shipper::text::{
    remove_char, replace_char, str_concat, str_concat3, str_contains, str_ends_with, str_eq,
    str_starts_with, substring, to_chars, from_chars,
};

fn config(platform: Platform) -> Config {
    Config {
        data_local_dir: "/data".to_string(),
        pakkly_id: "abc".to_string(),
        shipper_version: "1.0.0".to_string(),
        shipper_channel: "stable".to_string(),
        remote_url: "https://example.invalid".to_string(),
        platform,
        fresh_install: false,
    }
}

fn record() -> StoredInstallData {
    StoredInstallData {
        background_color: InstallerColor { r: 0, g: 0, b: 0, a: 255 },
        installed_files: vec![],
        installed_files_meta: vec![],
        fetched_meta: PakklyMetaRemote {
            background_color: "#000000ff".to_string(),
            description: None,
            shipper: DownloadParams { url: "s".to_string(), version: "1.0.0".to_string() },
            app: DownloadParams { url: "a".to_string(), version: "7".to_string() },
            app_name: "My App".to_string(),
            company_name: None,
        },
        installed_date: 0,
        last_launch: 0,
        last_ucheck: 0,
        installing: false,
        shipperfile: Some(Shipperfile {
            app_id: "abc".to_string(),
            program_path_to_binary: "bin/app".to_string(),
            program_arguments: None,
            program_working_subdirectory: None,
            instance_mode: None,
            _generated: ShipperfileGenerated { icon: "".to_string() },
        }),
        installed_app_info: DownloadParams { url: "a".to_string(), version: "6".to_string() },
    }
}

fn node(path: &str, is_dir: bool) -> FsEntry {
    FsEntry {
        path: path.to_string(),
        is_symlink: false,
        is_dir,
        is_file: !is_dir,
        size: 3,
        hash: if is_dir { None } else { Some(7) },
    }
}

fn args(v: &[&str]) -> Vec<String> {
    v.iter().map(|s| s.to_string()).collect()
}

#[test]
fn paths_below_the_install_root() {
    let c = config(Platform::Linux);
    assert_eq!(get_install_root(&c), "/data/pakked_abc");
    assert_eq!(get_install_subdir(&c, "x"), "/data/pakked_abc/x");
    assert_eq!(get_install_path(&c), "/data/pakked_abc/program");
    assert_eq!(get_install_dir_pakkly(&c), "/data/pakked_abc/runner");
    assert_eq!(get_install_dir_pakkly_update(&c), "/data/pakked_abc/runner_update");
    assert_eq!(get_ipc_dir(&c), "/data/pakked_abc/runner/ipc");
    assert_eq!(get_json_path(&c), "/data/pakked_abc/runner/pakkly.installer.json");
    let d = record();
    assert_eq!(get_install_file_pakkly(&c, &d), "/data/pakked_abc/runner/My_App");
    assert_eq!(get_install_file_pakkly_update(&c, &d), "/data/pakked_abc/runner_update/My App");
    let w = config(Platform::Windows);
    assert_eq!(get_install_file_pakkly(&w, &d), "/data/pakked_abc/runner/My App.exe");
    assert_eq!(get_install_file_pakkly_update(&w, &d), "/data/pakked_abc/runner_update/My App.exe");
    let m = config(Platform::Macos);
    assert_eq!(get_install_file_pakkly(&m, &d), "/data/pakked_abc/runner/My App.app");
}

#[test]
fn joining_and_splitting_paths() {
    assert_eq!(join("/a", "b"), "/a/b");
    assert_eq!(join("/a/", "b"), "/a/b");
    assert_eq!(join("/a", "/b"), "/b");
    assert_eq!(join("", "b"), "b");
    assert_eq!(join("/a", ""), "/a/");
    assert_eq!(parent("/a/b/c.txt"), "/a/b");
    assert_eq!(parent("/a/b/"), "/a/b");
    assert_eq!(parent("c.txt"), "");
    assert_eq!(parent("/c"), "");
    assert_eq!(parent(""), "");
}

#[test]
fn which_paths_are_exempt_from_hash_comparison() {
    let c = config(Platform::Linux);
    assert!(is_hash_whitelisted("node_modules/a.js", &c));
    assert!(is_hash_whitelisted("/x/node_modules", &c));
    assert!(is_hash_whitelisted("/data/pakked_abc/runner", &c));
    assert!(is_hash_whitelisted("/data/pakked_abc/runner/ipc/1.json", &c));
    assert!(!is_hash_whitelisted("/data/pakked_abc/runner_update/a", &c));
    assert!(!is_hash_whitelisted("/data/pakked_abc/program/a", &c));
    assert!(!is_hash_whitelisted("node_module/a.js", &c));
    assert!(is_inside("/a/b", "/a"));
    assert!(is_inside("/a", "/a"));
    assert!(!is_inside("/ab", "/a"));
}

#[test]
fn the_executable_is_looked_for_where_the_manifest_says() {
    let c = config(Platform::Linux);
    let snap = FsSnapshot {
        entries: vec![node("/data/pakked_abc/program/bin/app", false), node("/s/bin", true)],
    };
    let d = record();
    assert_eq!(
        find_executable_path(&d, None, &c, &snap).unwrap(),
        Some("/data/pakked_abc/program/bin/app".to_string())
    );
    assert_eq!(find_executable_path(&d, Some(&"/s".to_string()), &c, &snap).unwrap(), None);
    assert_eq!(find_file_joined("bin", "/s", &snap), None);
    let mut none = record();
    none.shipperfile = None;
    let e = find_executable_path(&none, None, &c, &snap).unwrap_err();
    assert_eq!(e.msg, "find_executable_path called without pakklyfile!");
}

#[test]
fn the_application_is_launched_as_the_manifest_says() {
    let c = config(Platform::Linux);
    let snap = FsSnapshot { entries: vec![node("/data/pakked_abc/program/bin/app", false)] };
    let plan = execute_program_and_terminate(&record(), &c, &snap).unwrap();
    assert_eq!(plan.executable, "/data/pakked_abc/program/bin/app");
    assert_eq!(plan.working_dir, "/data/pakked_abc/program/bin");
    assert!(plan.args.is_empty());
    let mut d = record();
    if let Some(pf) = d.shipperfile.as_mut() {
        pf.program_arguments = Some(args(&["--x", "y"]));
        pf.program_working_subdirectory = Some("/work".to_string());
        pf.instance_mode = Some(InstanceMode::single_instance);
        assert_eq!(pf.effective_mode(), InstanceMode::single_instance);
    }
    let plan = execute_program_and_terminate(&d, &c, &snap).unwrap();
    assert_eq!(plan.working_dir, "/work");
    assert_eq!(plan.args, args(&["--x", "y"]));
    assert!(execute_program_and_terminate(&d, &c, &FsSnapshot { entries: vec![] }).is_err());
    d.shipperfile = None;
    let e = execute_program_and_terminate(&d, &c, &snap).unwrap_err();
    assert_eq!(e.msg, "execute_program_and_terminate called without pakklyfile!");
    assert_eq!(record().shipperfile.unwrap().effective_mode(), InstanceMode::multi_instance);
}

#[test]
fn everything_below_a_directory_is_listed() {
    let snap = FsSnapshot {
        entries: vec![
            node("/s", true),
            node("/s/a", false),
            node("/s/sub", true),
            node("/sx/no", false),
            node("/s/sub/b", false),
        ],
    };
    assert_eq!(all_absolute_files_in_folder_recursive("/s", &snap), args(&["/s/a", "/s/sub", "/s/sub/b"]));
    assert_eq!(all_relative_files_in_folder_recursive("/s", &snap), args(&["a", "sub", "sub/b"]));
    assert_eq!(all_relative_files_in_folder_recursive("/s/", &snap), args(&["a", "sub", "sub/b"]));
    assert!(all_relative_files_in_folder_recursive("/none", &snap).is_empty());
}

#[test]
fn flags_and_values_on_the_command_line() {
    let a = args(&["prog", "--pakkly_install_quiet", "--pakkly_installexact_app", "1.2", "--last"]);
    assert!(arg_flag_set(&a, "--pakkly_install_quiet"));
    assert!(!arg_flag_set(&a, "--pakkly_install"));
    assert!(install_quiet_exit_hook(&a));
    assert!(!install_indirect_exit_hook(&a));
    assert!(install_indirect_exit_hook(&args(&["p", "--pakkly_install"])));
    assert_eq!(arg_value_set(&a, "--pakkly_installexact_app").unwrap(), Some("1.2".to_string()));
    assert_eq!(arg_value_set(&a, "--pakkly_installexact_shipper").unwrap(), None);
    assert_eq!(arg_value_set(&a, "--last").unwrap_err().msg, "--last CLI needs a value!");
    let twice = args(&["-k", "-k", "v"]);
    assert_eq!(arg_value_set(&twice, "-k").unwrap(), Some("-k".to_string()));
}

#[test]
fn what_the_uninstall_flags_lead_to() {
    assert_eq!(uninstall_exit_hook(&args(&["p"]), true), UninstallRequest::NotRequested);
    assert_eq!(
        uninstall_exit_hook(&args(&["p", "--pakkly_uninstall"]), true),
        UninstallRequest::Uninstall { quiet: false }
    );
    assert_eq!(
        uninstall_exit_hook(&args(&["p", "--pakkly_uninstall_quiet"]), true),
        UninstallRequest::Uninstall { quiet: true }
    );
    assert_eq!(
        uninstall_exit_hook(&args(&["p", "--pakkly_uninstall"]), false),
        UninstallRequest::NothingInstalled
    );
}

#[test]
fn when_the_application_and_the_updater_are_updated() {
    let mut d = record();
    assert!(should_app_update(&d, false));
    assert!(should_app_update(&d, true));
    d.installed_app_info.version = "7".to_string();
    assert!(!should_app_update(&d, false));
    assert!(should_app_update(&d, true));
    let mut c = config(Platform::Linux);
    assert!(!selfupdate_hook(&d, &c));
    d.fetched_meta.shipper.version = "1.0.1".to_string();
    assert!(selfupdate_hook(&d, &c));
    c.fresh_install = true;
    assert!(!selfupdate_hook(&d, &c));
    assert!(repair_shipper_hook(false, false, false));
    assert!(!repair_shipper_hook(true, false, false));
    assert!(!repair_shipper_hook(false, true, false));
    assert!(!repair_shipper_hook(false, false, true));
    assert!(force_update_hook(&Some("1".to_string()), &None));
    assert!(force_update_hook(&None, &Some("1".to_string())));
    assert!(!force_update_hook(&None, &None));
}

#[test]
fn the_update_check_is_skipped_within_the_cache_time() {
    assert!(update_timer_exit_hook(1000, 1059, false));
    assert!(!update_timer_exit_hook(1000, 1060, false));
    assert!(!update_timer_exit_hook(1000, 1059, true));
    assert!(update_timer_exit_hook(2000, 1000, false));
    assert!(!update_timer_exit_hook(i64::MIN, i64::MAX, false));
    assert!(update_timer_exit_hook(i64::MAX, i64::MAX, false));
    assert_eq!(get_standard_timeout(true), 60);
    assert_eq!(get_standard_timeout(false), 3);
}

#[test]
fn what_follows_the_installer_window() {
    assert_eq!(crash_state_of(&Ok(())), CrashState::NoError);
    assert_eq!(crash_state_of(&Err(FormattedError::from_network("n".to_string()))), CrashState::NetworkError);
    assert_eq!(crash_state_of(&Err(FormattedError::from_str("x".to_string()))), CrashState::InstallFailed);
    assert_eq!(after_install_window(CrashState::UserAbort, true), AfterWindow::Exit);
    assert_eq!(after_install_window(CrashState::FatalError, false), AfterWindow::LaunchPrevious);
    assert_eq!(after_install_window(CrashState::InstallFailed, true), AfterWindow::ReportAndExit);
    assert_eq!(after_install_window(CrashState::NetworkError, true), AfterWindow::AlertThenExit);
    assert_eq!(
        after_install_window(CrashState::NetworkError, false),
        AfterWindow::AlertThenLaunchPrevious
    );
    assert_eq!(after_install_window(CrashState::NoError, false), AfterWindow::LaunchInstalled);
    assert!(deliver_progress(true, Some(0)));
    assert!(!deliver_progress(false, Some(199)));
    assert!(deliver_progress(false, Some(200)));
    assert!(deliver_progress(false, None));
    assert_eq!(SceneID::InstallProgress.code(), 1);
    assert_eq!(SceneID::InstallPrompt.code(), 0);
    assert_eq!(InstallProgressSegment::Installing.code(), 1);
    assert_eq!(InstallProgressSegment::Downloading.code(), 0);
}

#[test]
fn results_are_unwrapped_or_warned_about() {
    assert_eq!(unwrap_fe(Ok::<u8, FormattedError>(5)), 5);
    assert_eq!(warn_unwrap(Ok::<u8, FormattedError>(5)), None);
    assert_eq!(
        warn_unwrap(Err::<u8, FormattedError>(FormattedError::from_str("w".to_string()))),
        Some("w".to_string())
    );
}

#[test]
fn the_request_for_update_information() {
    let c = config(Platform::Linux);
    assert_eq!(update_info_url(&c), "https://example.invalid/api/v1/shipper/info");
    assert_eq!(crashlog_url(&c), "https://example.invalid/api/v1/shipper/error");
    let q = get_update_info(&c, Arch::X86_64, None, &None, &None).unwrap();
    let got: Vec<(String, String)> = q.iter().map(|p| (p.name.clone(), p.value.clone())).collect();
    let s = |a: &str, b: &str| (a.to_string(), b.to_string());
    assert_eq!(
        got,
        vec![s("app_id", "abc"), s("platform_type", "4"), s("shipper_version", "1.0.0"), s("channel", "stable")]
    );
    let d = record();
    let m = config(Platform::Macos);
    assert!(get_update_info(&m, Arch::X86, None, &None, &None).is_none());
    let q = get_update_info(&m, Arch::Aarch64, Some(&d), &Some("9".to_string()), &Some("2.0".to_string()))
        .unwrap();
    let got: Vec<(String, String)> = q.iter().map(|p| (p.name.clone(), p.value.clone())).collect();
    assert_eq!(
        got,
        vec![
            s("app_id", "abc"),
            s("platform_type", "7"),
            s("shipper_version", "1.0.0"),
            s("channel", "stable"),
            s("app_version", "6"),
            s("new_app_version", "9"),
            s("new_shipper_version", "2.0"),
        ]
    );
}

#[test]
fn reports_of_failures() {
    let c = config(Platform::Macos);
    let r = submit_basic_crash("Cannot find executable in new update", &c, Arch::Aarch64);
    assert_eq!(r.kind, "basic");
    assert_eq!(r.data, "Cannot find executable in new update");
    assert_eq!((r.os.as_str(), r.architecture.as_str()), ("macos", "arm_64"));
    assert_eq!((r.app_id.as_str(), r.shipper_version.as_str()), ("abc", "1.0.0"));
    let r = submit_critical_error(&[0x00, 0x0f, 0xa5, 0xff], &c, Arch::X86_64);
    assert_eq!(r.kind, "dump");
    assert_eq!(r.data, "000fa5ff");
    assert_eq!(os_name(Platform::Windows), "windows");
    assert_eq!(os_name(Platform::Linux), "linux");
    assert_eq!(arch_name(Arch::X86), "x86");
    assert_eq!(arch_name(Arch::X86_64), "x86_64");
    assert_eq!(random_hash(b"1700000000.5"), hex::encode("1700000000.5"));
    assert_eq!(random_hash(b"az"), "617a");
}

#[test]
fn scripts_for_the_installer_window() {
    assert_eq!(set_scene_direct(SceneID::InstallProgress, "App"), "setSceneID(1,\"App\")");
    assert_eq!(
        set_scene_direct(SceneID::InstallPrompt, "The \"Best\" App"),
        "setSceneID(0,\"The \\\"Best\\\" App\")"
    );
    assert_eq!(escape_quotes("a\"b"), "a\\\"b");
    assert_eq!(escape_quotes(""), "");
    assert_eq!(path_str("/a/b"), "/a/b");
}

#[test]
fn operations_on_text() {
    assert!(str_eq("a", "a") && !str_eq("a", "b"));
    assert!(str_contains("hello", "ell") && str_contains("hello", "") && !str_contains("hello", "elo"));
    assert!(str_contains("ü-node_modules", "node_modules"));
    assert!(str_starts_with("hello", "he") && !str_starts_with("hello", "el"));
    assert!(str_ends_with("a.json", ".json") && !str_ends_with("json", ".json"));
    assert_eq!(str_concat("a", "b"), "ab");
    assert_eq!(str_concat3("a", "b", "c"), "abc");
    assert_eq!(substring("héllo", 1, 3), "él");
    assert_eq!(replace_char("a b c", ' ', '_'), "a_b_c");
    assert_eq!(remove_char("a\0b\0", '\0'), "ab");
    assert_eq!(from_chars(&to_chars("héllo")), "héllo");
}

#[test]
fn positions_by_descending_key_keep_ties_in_order() {
    assert_eq!(stable_order_desc(&vec![3, 9, 3, 1, 9]), vec![1, 4, 0, 2, 3]);
    assert_eq!(stable_order_desc(&vec![]), Vec::<usize>::new());
    assert_eq!(stable_order_desc(&vec![1, 2, 3]), vec![2, 1, 0]);
}
