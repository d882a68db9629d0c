use shipper::defines::{Config, Platform};
use shipper::fslog::{FsEntry, FsSnapshot};
use shipper::installer_tools::{
    uninstall_regkey, windows_registry_setup, RegistryData,
    add_installer_meta, decode_icon, desktop_entry, estimated_size_kb, installer_meta_paths,
    trim_start_matches, uninstall_batch, uninstall_script,
};
use shipper::remoteinstallerdata::{
    DownloadParams, InstalledFile, InstallerColor, PakklyMetaRemote, StoredInstallData,
};
use shipper::installer::PrepKind;
use shipper::shipper::{
    find_shipper_in_folder, indirect_update, ingest_kind, install_shipper, is_protected,
    record_staged, update_shipper, FsStepKind, IngestKind, UpdateRoute,
};
use shipper::sudo::{join_with_spaces, sudo_outcome, LinuxSudo};

fn config(platform: Platform) -> Config {
    Config {
        data_local_dir: "/data".to_string(),
        pakkly_id: "abc".to_string(),
        shipper_version: "1.0.0".to_string(),
        shipper_channel: "stable".to_string(),
        remote_url: "https://example.invalid".to_string(),
        platform,
        fresh_install: false,
    }
}

fn record() -> StoredInstallData {
    StoredInstallData {
        background_color: InstallerColor { r: 0, g: 0, b: 0, a: 255 },
        installed_files: vec![],
        installed_files_meta: vec![],
        fetched_meta: PakklyMetaRemote {
            background_color: "#000000ff".to_string(),
            description: None,
            shipper: DownloadParams { url: "s".to_string(), version: "1.0.1".to_string() },
            app: DownloadParams { url: "a".to_string(), version: "7".to_string() },
            app_name: "My App".to_string(),
            company_name: None,
        },
        installed_date: 0,
        last_launch: 0,
        last_ucheck: 0,
        installing: false,
        shipperfile: None,
        installed_app_info: DownloadParams { url: "a".to_string(), version: "6".to_string() },
    }
}

fn node(path: &str, is_dir: bool) -> FsEntry {
    FsEntry {
        path: path.to_string(),
        is_symlink: false,
        is_dir,
        is_file: !is_dir,
        size: 3,
        hash: if is_dir { None } else { Some(7) },
    }
}

fn steps(v: &[shipper::shipper::FsStep]) -> Vec<(FsStepKind, String, String)> {
    v.iter().map(|s| (s.kind, s.from.clone(), s.to.clone())).collect()
}

#[test]
fn the_route_of_a_new_updater_follows_the_platform() {
    match update_shipper(&record(), &config(Platform::Linux)) {
        UpdateRoute::Direct { destination } => {
            assert_eq!(destination, "/data/pakked_abc/runner/My_App")
        }
        _ => panic!("linux replaces in place"),
    }
    match update_shipper(&record(), &config(Platform::Macos)) {
        UpdateRoute::Direct { destination } => {
            assert_eq!(destination, "/data/pakked_abc/runner/My App.app")
        }
        _ => panic!("macos replaces in place"),
    }
    match update_shipper(&record(), &config(Platform::Windows)) {
        UpdateRoute::Indirect { staged_binary, staged_dir, flag } => {
            assert_eq!(staged_dir, "/data/pakked_abc/runner_update");
            assert_eq!(staged_binary, "/data/pakked_abc/runner_update/My App.exe");
            assert_eq!(flag, "--pakkly_install");
        }
        _ => panic!("windows stages"),
    }
}

#[test]
fn the_staged_files_are_added_to_the_record() {
    let c = config(Platform::Windows);
    let snap = FsSnapshot {
        entries: vec![
            node("/data/pakked_abc/runner_update", true),
            node("/data/pakked_abc/runner_update/My App.exe", false),
        ],
    };
    let mut d = record();
    d.installed_files_meta.push(InstalledFile {
        dst_path: "/x".to_string(),
        dst_path_human: "/x".to_string(),
        hash: "00".to_string(),
        size: 1,
        root: None,
    });
    record_staged(&mut d, &snap, &c).unwrap();
    assert_eq!(d.installed_files_meta.len(), 3);
    assert_eq!(d.installed_files_meta[0].dst_path, "/x");
    assert_eq!(d.installed_files_meta[1].dst_path, "/data/pakked_abc/runner_update/My App.exe");
    assert_eq!(d.installed_files_meta[1].hash, "0700000000000000");
    assert_eq!(d.installed_files_meta[2].dst_path, "/data/pakked_abc/runner_update");
    assert_eq!(d.installed_files_meta[2].hash, "DIRECTORY");
    let mut e = record();
    assert!(record_staged(&mut e, &FsSnapshot { entries: vec![] }, &c).is_err());
    assert!(e.installed_files_meta.is_empty());
}

#[test]
fn the_staged_updater_replaces_the_resident_one() {
    let c = config(Platform::Windows);
    let snap = FsSnapshot {
        entries: vec![
            node("/data/pakked_abc/runner", true),
            node("/data/pakked_abc/runner_update/My App.exe", false),
        ],
    };
    assert_eq!(
        steps(&indirect_update(&record(), &c, &snap)),
        vec![
            (FsStepKind::RemoveDirAll, "".to_string(), "/data/pakked_abc/runner".to_string()),
            (FsStepKind::CreateDirAll, "".to_string(), "/data/pakked_abc/runner".to_string()),
            (
                FsStepKind::CopyFile,
                "/data/pakked_abc/runner_update/My App.exe".to_string(),
                "/data/pakked_abc/runner/My App.exe".to_string()
            ),
            (
                FsStepKind::WriteRecord,
                "".to_string(),
                "/data/pakked_abc/runner/pakkly.installer.json".to_string()
            ),
        ]
    );
    let bundle = FsSnapshot { entries: vec![node("/data/pakked_abc/runner_update/My App.exe", true)] };
    assert_eq!(
        steps(&indirect_update(&record(), &c, &bundle)),
        vec![
            (FsStepKind::CreateDirAll, "".to_string(), "/data/pakked_abc/runner".to_string()),
            (FsStepKind::CreateDir, "".to_string(), "/data/pakked_abc/runner/My App.exe".to_string()),
            (
                FsStepKind::CopyDir,
                "/data/pakked_abc/runner_update/My App.exe".to_string(),
                "/data/pakked_abc/runner/My App.exe".to_string()
            ),
            (
                FsStepKind::WriteRecord,
                "".to_string(),
                "/data/pakked_abc/runner/pakkly.installer.json".to_string()
            ),
        ]
    );
}

#[test]
fn the_updater_binary_is_the_file_with_the_shortest_name() {
    let names: Vec<String> =
        ["helper.dll", "run", "abc", "readme.txt"].iter().map(|s| s.to_string()).collect();
    assert_eq!(find_shipper_in_folder(&names), Some(1));
    assert_eq!(find_shipper_in_folder(&vec![]), None);
    assert_eq!(find_shipper_in_folder(&vec!["é".to_string(), "ab".to_string()]), Some(0));
    assert_eq!(find_shipper_in_folder(&vec!["éé".to_string(), "abc".to_string()]), Some(1));
}

#[test]
fn an_unpacked_updater_is_put_into_place_without_emptying_its_directory() {
    let c = config(Platform::Linux);
    let names = vec!["libs.so".to_string(), "pak".to_string()];
    let files = vec!["libs.so".to_string(), "pak".to_string(), "res".to_string(), "res/i.png".to_string()];
    let scratch = FsSnapshot {
        entries: vec![
            node("/tmp/u/libs.so", false),
            node("/tmp/u/pak", false),
            node("/tmp/u/res", true),
            node("/tmp/u/res/i.png", false),
        ],
    };
    let target = FsSnapshot {
        entries: vec![
            node("/data/pakked_abc/runner", true),
            node("/data/pakked_abc/runner/pakkly.installer.json", false),
            node("/data/pakked_abc/runner/ipc", true),
            node("/data/pakked_abc/runner/libs.so", false),
        ],
    };
    let got = install_shipper("/data/pakked_abc/runner/My_App", "/tmp/u", &files, &names, &scratch, &target, &c)
        .unwrap();
    let touched: Vec<(PrepKind, String)> =
        got.plan.preparations.iter().map(|p| (p.kind, p.path.clone())).collect();
    assert_eq!(
        touched,
        vec![
            (PrepKind::CreateDirAll, "/data/pakked_abc/runner".to_string()),
            (PrepKind::CreateFile, "/data/pakked_abc/runner/libs.so".to_string()),
            (PrepKind::CreateDirAll, "/data/pakked_abc/runner".to_string()),
            (PrepKind::CreateFile, "/data/pakked_abc/runner/pak".to_string()),
            (PrepKind::CreateDirAll, "/data/pakked_abc/runner/res".to_string()),
            (PrepKind::CreateDirAll, "/data/pakked_abc/runner/res".to_string()),
            (PrepKind::CreateFile, "/data/pakked_abc/runner/res/i.png".to_string()),
        ]
    );
    let copies: Vec<(String, String)> =
        got.plan.update_list.iter().map(|u| (u.from_path.clone(), u.to_path.clone())).collect();
    assert_eq!(
        copies,
        vec![
            ("/tmp/u/libs.so".to_string(), "/data/pakked_abc/runner/libs.so".to_string()),
            ("/tmp/u/pak".to_string(), "/data/pakked_abc/runner/pak".to_string()),
            ("/tmp/u/res/i.png".to_string(), "/data/pakked_abc/runner/res/i.png".to_string()),
        ]
    );
    assert!(got
        .plan
        .preparations
        .iter()
        .all(|p| p.kind != PrepKind::RemoveDirAll && p.kind != PrepKind::RemoveFile));
    assert_eq!(got.make_runnable, Some("/data/pakked_abc/runner".to_string()));
    assert_eq!(got.rename_from, "/data/pakked_abc/runner/pak");
    assert_eq!(got.rename_to, "/data/pakked_abc/runner/My_App");
    let win = install_shipper(
        "/data/pakked_abc/runner_update/A.exe",
        "/tmp/u",
        &files,
        &names,
        &scratch,
        &FsSnapshot { entries: vec![] },
        &config(Platform::Windows),
    )
    .unwrap();
    assert_eq!(win.make_runnable, None);
    assert_eq!(win.rename_from, "/data/pakked_abc/runner_update/pak");
}

#[test]
fn an_updater_release_that_would_reach_the_record_is_refused() {
    let c = config(Platform::Linux);
    let names = vec!["pak".to_string()];
    let scratch = FsSnapshot { entries: vec![] };
    let target = FsSnapshot { entries: vec![] };
    let dest = "/data/pakked_abc/runner/My_App";
    for bad in ["pakkly.installer.json", "ipc", "ipc/1.json", "/data/pakked_abc/runner", "/data"] {
        let files = vec!["pak".to_string(), bad.to_string()];
        assert!(install_shipper(dest, "/tmp/u", &files, &names, &scratch, &target, &c).is_err(), "{}", bad);
    }
    let fine = vec!["pak".to_string(), "ipc2".to_string(), "pakkly.installer.json.bak".to_string()];
    assert!(install_shipper(dest, "/tmp/u", &fine, &names, &scratch, &target, &c).is_ok());
    assert!(install_shipper(
        "/data/pakked_abc/runner/pakkly.installer.json",
        "/tmp/u",
        &fine,
        &names,
        &scratch,
        &target,
        &c
    )
    .is_err());
    assert!(install_shipper(dest, "/tmp/u", &fine, &vec![], &scratch, &target, &c).is_err());
    assert!(is_protected("/data/pakked_abc/runner/ipc/7.json", &c));
    assert!(!is_protected("/data/pakked_abc/runner/My_App", &c));
}

#[test]
fn a_download_is_unpacked_by_its_kind() {
    assert_eq!(ingest_kind(true, Platform::Linux), IngestKind::Zip);
    assert_eq!(ingest_kind(true, Platform::Windows), IngestKind::Zip);
    assert_eq!(ingest_kind(false, Platform::Linux), IngestKind::Tar);
    assert_eq!(ingest_kind(false, Platform::Macos), IngestKind::Tar);
    assert_eq!(ingest_kind(false, Platform::Windows), IngestKind::Verbatim);
}

#[test]
fn collected_commands_become_one_command_line() {
    let mut s = LinuxSudo::new();
    let c = FsSnapshot { entries: vec![node("/usr/bin/kdesudo", false), node("/usr/bin/gksudo", false)] };
    assert_eq!(s.flush(&c).unwrap_err().msg, "Sudo cmdbuffer cannot be length 0");
    assert!(!s.flush(&c).unwrap_err().is_missing_sudo);
    s.command("rm".to_string(), vec!["-f".to_string(), "/a".to_string()]);
    s.command("ln".to_string(), vec!["-s".to_string(), "/b".to_string(), "/a".to_string()]);
    s.write_file("/tmp/x/file".to_string(), "/etc/y".to_string());
    s.command("true".to_string(), vec![]);
    let inv = s.flush(&c).unwrap();
    assert_eq!(inv.helper, "/usr/bin/kdesudo");
    assert_eq!(inv.megacommand, "rm -f /a && ln -s /b /a && cp /tmp/x/file /etc/y && true");
    let none = s.flush(&FsSnapshot { entries: vec![] }).unwrap_err();
    assert!(none.is_missing_sudo);
    assert_eq!(none.msg, "No Sudo Found");
    let first = FsSnapshot { entries: vec![node("/usr/bin/gksudo", false), node("/usr/bin/pkexec", false)] };
    assert_eq!(s.flush(&first).unwrap().helper, "/usr/bin/pkexec");
    assert!(sudo_outcome(true).is_ok());
    assert!(sudo_outcome(false).unwrap_err().is_missing_sudo);
    assert_eq!(join_with_spaces(&vec![]), "");
    assert_eq!(join_with_spaces(&vec!["one".to_string()]), "one");
}

#[test]
fn the_icon_is_decoded_from_its_data_uri() {
    assert_eq!(decode_icon("data:image/png;base64,iVBORw0KGgo=").unwrap(), b"\x89PNG\r\n\x1a\n".to_vec());
    assert_eq!(decode_icon("data:image/png;base64,").unwrap(), Vec::<u8>::new());
    assert_eq!(
        decode_icon("data:image/png;base64,data:image/png;base64,QQ==").unwrap(),
        b"A".to_vec()
    );
    let e = decode_icon("data:image/jpeg;base64,QQ==").unwrap_err();
    assert_eq!(e.msg, "Missing data type for icon. Expected: data:image/png;base64,");
    assert!(decode_icon("data:image/png;base64,@@@").is_err());
    assert!(decode_icon("data:image/png;base64,QQ").is_err());
    assert_eq!(trim_start_matches("ababc", "ab"), "c");
    assert_eq!(trim_start_matches("abc", ""), "abc");
    assert_eq!(trim_start_matches("xab", "ab"), "xab");
}

#[test]
fn texts_of_the_launcher_entry_and_the_uninstall_scripts() {
    assert_eq!(
        desktop_entry("App", "Does things", "/r/App", "/i.png"),
        "[Desktop Entry]\nEncoding=UTF-8\nType=Application\nName=App\nComment=Does things\nExec=/r/App\nIcon=/i.png\nTerminal=false\nCategories=GNOME;Application;\nStartupNotify=true"
    );
    assert_eq!(uninstall_script("/r/App"), "sudo /r/App --pakkly_uninstall");
    assert_eq!(uninstall_batch("C:\\u.lnk"), "@echo off\r\nstart \"\" \"C:\\u.lnk\"");
}

#[test]
fn the_updater_tracks_its_own_files() {
    let c = config(Platform::Linux);
    let d = record();
    let paths = installer_meta_paths(&d, &c);
    assert_eq!(
        paths,
        vec![
            "/data/pakked_abc/runner/My_App".to_string(),
            "/data/pakked_abc/runner".to_string(),
            "/data/pakked_abc/program".to_string(),
            "/data/pakked_abc".to_string(),
            "/data/pakked_abc/runner/pakkly.installer.json".to_string(),
        ]
    );
    let snap = FsSnapshot {
        entries: vec![
            node("/data/pakked_abc/runner/My_App", false),
            node("/data/pakked_abc/runner", true),
            node("/data/pakked_abc/program", true),
            node("/data/pakked_abc", true),
            node("/data/pakked_abc/runner/pakkly.installer.json", false),
        ],
    };
    let mut d = record();
    add_installer_meta(&mut d, &c, &snap).unwrap();
    let got: Vec<(String, String)> =
        d.installed_files_meta.iter().map(|f| (f.dst_path.clone(), f.hash.clone())).collect();
    assert_eq!(
        got,
        vec![
            ("/data/pakked_abc/runner/My_App".to_string(), "ALWAYS".to_string()),
            ("/data/pakked_abc/runner".to_string(), "DIRECTORY".to_string()),
            ("/data/pakked_abc/program".to_string(), "DIRECTORY".to_string()),
            ("/data/pakked_abc".to_string(), "DIRECTORY".to_string()),
            ("/data/pakked_abc/runner/pakkly.installer.json".to_string(), "ALWAYS".to_string()),
        ]
    );
    let mut e = record();
    assert!(add_installer_meta(&mut e, &c, &FsSnapshot { entries: vec![] }).is_err());
}

#[test]
fn what_windows_lists_for_the_removal_of_the_application() {
    let c = config(Platform::Windows);
    assert_eq!(
        uninstall_regkey(&c),
        "SOFTWARE\\Microsoft\\Windows\\CurrentVersion\\Uninstall\\pakked_abc"
    );
    let mut d = record();
    d.installed_files.push(InstalledFile {
        dst_path: "a".to_string(),
        dst_path_human: "a".to_string(),
        hash: "00".to_string(),
        size: 4096,
        root: None,
    });
    let show = |v: &[shipper::installer_tools::RegistryValue]| -> Vec<(String, String)> {
        v.iter()
            .map(|x| {
                (
                    x.name.clone(),
                    match &x.data {
                        RegistryData::Text(t) => t.clone(),
                        RegistryData::Number(n) => format!("#{}", n),
                    },
                )
            })
            .collect()
    };
    let s = |a: &str, b: &str| (a.to_string(), b.to_string());
    assert_eq!(
        show(&windows_registry_setup(&d, &c, "C:/p/app.exe")),
        vec![
            s("DisplayIcon", "C:/p/app.exe"),
            s("DisplayName", "My App"),
            s("EstimatedSize", "#4"),
            s("NoModify", "#1"),
            s("NoRepair", "#1"),
            s("UninstallString", "\"/data/pakked_abc/runner/uninstall.bat\""),
            s("QuietUninstallString", "\"/data/pakked_abc/runner/My App.exe\" --pakkly_uninstall_quiet"),
        ]
    );
    d.fetched_meta.company_name = Some("ACME".to_string());
    let with = show(&windows_registry_setup(&d, &c, "x"));
    assert_eq!(with.len(), 8);
    assert_eq!(with[5], s("Publisher", "ACME"));
}

#[test]
fn the_size_of_the_install_in_kibibytes() {
    let f = |size: u64| InstalledFile {
        dst_path: "a".to_string(),
        dst_path_human: "a".to_string(),
        hash: "00".to_string(),
        size,
        root: None,
    };
    assert_eq!(estimated_size_kb(&vec![]), 0);
    assert_eq!(estimated_size_kb(&vec![f(1023)]), 0);
    assert_eq!(estimated_size_kb(&vec![f(1023), f(1)]), 1);
    assert_eq!(estimated_size_kb(&vec![f(5 * 1024 + 7), f(3 * 1024)]), 8);
    assert_eq!(estimated_size_kb(&vec![f(u64::MAX), f(u64::MAX)]), u32::MAX);
}
