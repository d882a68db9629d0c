use shipper::defines::{Config, Platform};
use shipper::fslog::{FsEntry, FsSnapshot};
use shipper::installer_tools::track_paths;
use shipper::remoteinstallerdata::{
    DownloadParams, InstallerColor, PakklyMetaRemote, StoredInstallData,
};
use shipper::shell::{place_icons_and_shortcuts, UserDirs};
use shipper::shipperfile::{Shipperfile, ShipperfileGenerated};

fn config(platform: Platform) -> Config {
    Config {
        data_local_dir: "/data".to_string(),
        pakkly_id: "abc".to_string(),
        shipper_version: "1.0.0".to_string(),
        shipper_channel: "stable".to_string(),
        remote_url: "https://example.invalid".to_string(),
        platform,
        fresh_install: true,
    }
}

fn record(icon: &str) -> StoredInstallData {
    StoredInstallData {
        background_color: InstallerColor { r: 0, g: 0, b: 0, a: 255 },
        installed_files: vec![],
        installed_files_meta: vec![],
        fetched_meta: PakklyMetaRemote {
            background_color: "#000000ff".to_string(),
            description: Some("Does things".to_string()),
            shipper: DownloadParams { url: "s".to_string(), version: "1".to_string() },
            app: DownloadParams { url: "a".to_string(), version: "7".to_string() },
            app_name: "My App".to_string(),
            company_name: None,
        },
        installed_date: 0,
        last_launch: 0,
        last_ucheck: 0,
        installing: false,
        shipperfile: Some(Shipperfile {
            app_id: "abc".to_string(),
            program_path_to_binary: "bin/app.exe".to_string(),
            program_arguments: None,
            program_working_subdirectory: None,
            instance_mode: None,
            _generated: ShipperfileGenerated { icon: icon.to_string() },
        }),
        installed_app_info: DownloadParams { url: "a".to_string(), version: "6".to_string() },
    }
}

fn dirs() -> UserDirs {
    UserDirs { desktop: "/u/Desktop".to_string(), start_menu: "/u/Start".to_string() }
}

fn node(path: &str, is_dir: bool) -> FsEntry {
    FsEntry {
        path: path.to_string(),
        is_symlink: false,
        is_dir,
        is_file: !is_dir,
        size: 3,
        hash: if is_dir { None } else { Some(7) },
    }
}

fn strings(v: &[&str]) -> Vec<String> {
    v.iter().map(|s| s.to_string()).collect()
}

#[test]
fn a_first_install_on_linux_places_icon_launcher_entry_and_script() {
    let c = config(Platform::Linux);
    let d = record("data:image/png;base64,iVBORw0KGgo=");
    let none = FsSnapshot { entries: vec![] };
    let plan = place_icons_and_shortcuts(&d, &c, true, false, "MIT", &dirs(), &none).unwrap();
    let paths: Vec<(String, bool)> = plan.writes.iter().map(|w| (w.path.clone(), w.runnable)).collect();
    assert_eq!(
        paths,
        vec![
            ("/data/pakked_abc/runner/OSS_LICENSES.txt".to_string(), false),
            ("/data/pakked_abc/runner/icon.png".to_string(), false),
            ("/data/pakked_abc/runner/linux.desktop".to_string(), false),
            ("/data/pakked_abc/runner/uninstall.sh".to_string(), true),
        ]
    );
    assert_eq!(plan.writes[0].content, b"MIT".to_vec());
    assert_eq!(plan.writes[1].content, b"\x89PNG\r\n\x1a\n".to_vec());
    assert_eq!(
        String::from_utf8(plan.writes[2].content.clone()).unwrap(),
        "[Desktop Entry]\nEncoding=UTF-8\nType=Application\nName=My App\nComment=Does things\nExec=/data/pakked_abc/runner/My_App\nIcon=/usr/share/icons/hicolor/256x256/apps/pak_abc.png\nTerminal=false\nCategories=GNOME;Application;\nStartupNotify=true"
    );
    assert_eq!(
        plan.writes[3].content,
        b"sudo /data/pakked_abc/runner/My_App --pakkly_uninstall".to_vec()
    );
    let commands: Vec<Vec<String>> = plan
        .elevated
        .iter()
        .map(|cmd| {
            let mut w = vec![cmd.command.clone()];
            w.extend(cmd.args.iter().cloned());
            w
        })
        .collect();
    assert_eq!(
        commands,
        vec![
            strings(&["rm", "-f", "/usr/share/icons/hicolor/256x256/apps/pak_abc.png"]),
            strings(&[
                "ln",
                "-s",
                "/data/pakked_abc/runner/icon.png",
                "/usr/share/icons/hicolor/256x256/apps/pak_abc.png"
            ]),
            strings(&["rm", "-f", "/usr/share/applications/pak_abc.desktop"]),
            strings(&[
                "ln",
                "-s",
                "/data/pakked_abc/runner/linux.desktop",
                "/usr/share/applications/pak_abc.desktop"
            ]),
        ]
    );
    assert_eq!(
        plan.tracked_paths,
        strings(&[
            "/data/pakked_abc/runner/OSS_LICENSES.txt",
            "/data/pakked_abc/runner/uninstall.sh",
            "/usr/share/icons/hicolor/256x256/apps/pak_abc.png",
            "/usr/share/applications/pak_abc.desktop",
            "/data/pakked_abc/runner/icon.png",
            "/data/pakked_abc/runner/linux.desktop",
        ])
    );
    assert!(plan.symlink.is_none() && plan.shortcuts.is_empty());
}

#[test]
fn an_update_on_linux_runs_nothing_elevated() {
    let c = config(Platform::Linux);
    let d = record("data:image/png;base64,iVBORw0KGgo=");
    let none = FsSnapshot { entries: vec![] };
    let plan = place_icons_and_shortcuts(&d, &c, false, false, "MIT", &dirs(), &none).unwrap();
    assert!(plan.elevated.is_empty());
    assert_eq!(plan.writes.len(), 4);
    let bare = place_icons_and_shortcuts(&d, &c, true, true, "MIT", &dirs(), &none).unwrap();
    assert_eq!(bare.writes.len(), 1);
    assert_eq!(bare.tracked_paths, strings(&["/data/pakked_abc/runner/OSS_LICENSES.txt"]));
    assert!(bare.elevated.is_empty());
}

#[test]
fn an_icon_that_is_no_png_data_uri_fails_on_linux_only() {
    let d = record("data:image/gif;base64,AAAA");
    let none = FsSnapshot { entries: vec![] };
    let e = place_icons_and_shortcuts(&d, &config(Platform::Linux), true, false, "", &dirs(), &none)
        .unwrap_err();
    assert_eq!(e.msg, "Missing data type for icon. Expected: data:image/png;base64,");
    assert!(place_icons_and_shortcuts(&d, &config(Platform::Linux), true, true, "", &dirs(), &none).is_ok());
    assert!(place_icons_and_shortcuts(&d, &config(Platform::Macos), true, false, "", &dirs(), &none).is_ok());
    let mut bare = record("");
    bare.shipperfile = None;
    let e = place_icons_and_shortcuts(&bare, &config(Platform::Macos), true, false, "", &dirs(), &none)
        .unwrap_err();
    assert_eq!(e.msg, "place_icons_and_shortcuts called without shipperfile");
}

#[test]
fn macos_links_the_application_once() {
    let c = config(Platform::Macos);
    let d = record("");
    let none = FsSnapshot { entries: vec![] };
    let plan = place_icons_and_shortcuts(&d, &c, true, false, "L", &dirs(), &none).unwrap();
    let link = plan.symlink.unwrap();
    assert_eq!(link.target, "/data/pakked_abc/runner/My App.app");
    assert_eq!(link.into, "/Applications");
    assert_eq!(
        plan.tracked_paths,
        strings(&["/data/pakked_abc/runner/OSS_LICENSES.txt", "/Applications/My App.app"])
    );
    let there = FsSnapshot { entries: vec![node("/Applications/My App.app", true)] };
    assert!(place_icons_and_shortcuts(&d, &c, true, false, "L", &dirs(), &there).unwrap().symlink.is_none());
    assert!(place_icons_and_shortcuts(&d, &c, false, false, "L", &dirs(), &none).unwrap().symlink.is_none());
}

#[test]
fn windows_gets_three_shortcuts_and_a_batch_file() {
    let c = config(Platform::Windows);
    let d = record("");
    let seen = FsSnapshot { entries: vec![node("/data/pakked_abc/program/bin/app.exe", false)] };
    let plan = place_icons_and_shortcuts(&d, &c, true, false, "L", &dirs(), &seen).unwrap();
    let got: Vec<(String, String, String, String, bool)> = plan
        .shortcuts
        .iter()
        .map(|s| (s.link_to.clone(), s.write_file.clone(), s.icon.clone(), s.args.clone(), s.admin))
        .collect();
    let updater = "/data/pakked_abc/runner/My App.exe".to_string();
    let exe = "/data/pakked_abc/program/bin/app.exe".to_string();
    assert_eq!(
        got,
        vec![
            (updater.clone(), "/u/Desktop/My App.lnk".to_string(), exe.clone(), "".to_string(), false),
            (updater.clone(), "/u/Start/My App.lnk".to_string(), exe.clone(), "".to_string(), false),
            (
                updater,
                "/data/pakked_abc/runner/Uninstall My App.lnk".to_string(),
                exe,
                "--pakkly_uninstall".to_string(),
                true
            ),
        ]
    );
    assert_eq!(plan.writes[1].path, "/data/pakked_abc/runner/uninstall.bat");
    assert_eq!(
        plan.writes[1].content,
        b"@echo off\r\nstart \"\" \"/data/pakked_abc/runner/Uninstall My App.lnk\"".to_vec()
    );
    assert_eq!(
        plan.tracked_paths,
        strings(&[
            "/data/pakked_abc/runner/OSS_LICENSES.txt",
            "/data/pakked_abc/runner/uninstall.bat",
            "/u/Desktop/My App.lnk",
            "/data/pakked_abc/runner/Uninstall My App.lnk",
            "/u/Start/My App.lnk",
        ])
    );
    let none = FsSnapshot { entries: vec![] };
    assert!(place_icons_and_shortcuts(&d, &c, true, false, "L", &dirs(), &none).is_err());
}

#[test]
fn placed_paths_are_tracked_as_the_snapshot_shows_them() {
    let c = config(Platform::Linux);
    let mut d = record("");
    let seen = FsSnapshot { entries: vec![node("/x/a", false), node("/x", true)] };
    track_paths(&mut d, &strings(&["/x/a", "/x"]), &c, &seen).unwrap();
    let got: Vec<(String, String, u64)> =
        d.installed_files_meta.iter().map(|f| (f.dst_path.clone(), f.hash.clone(), f.size)).collect();
    assert_eq!(
        got,
        vec![
            ("/x/a".to_string(), "0700000000000000".to_string(), 3),
            ("/x".to_string(), "DIRECTORY".to_string(), 0)
        ]
    );
    assert!(track_paths(&mut d, &strings(&["/nope"]), &c, &seen).is_err());
    assert_eq!(d.installed_files_meta.len(), 2);
}
