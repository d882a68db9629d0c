use shipper::defines::{Config, Platform};
use shipper::fslog::{FsEntry, FsSnapshot};
use shipper::hasher::hash_text;
use shipper::remoteinstallerdata::{
    DownloadParams, InstalledFile, InstallerColor, PakklyMetaRemote, StoredInstallData,
};
use shipper::uninstaller::{decide_file, sort_longest_first, uninstall_list, uninstall_procedure, InstallerInfoPathed};

fn config() -> Config {
    Config {
        data_local_dir: "/data".to_string(),
        pakkly_id: "abc".to_string(),
        shipper_version: "1.0.0".to_string(),
        shipper_channel: "stable".to_string(),
        remote_url: "https://example.invalid".to_string(),
        platform: Platform::Linux,
        fresh_install: false,
    }
}

fn known(path: &str, root: Option<&str>, hash: &str) -> InstalledFile {
    InstalledFile {
        dst_path: path.to_string(),
        dst_path_human: path.to_string(),
        hash: hash.to_string(),
        size: 0,
        root: root.map(|r| r.to_string()),
    }
}

fn record(files: Vec<InstalledFile>, meta: Vec<InstalledFile>) -> StoredInstallData {
    StoredInstallData {
        background_color: InstallerColor { r: 0, g: 0, b: 0, a: 255 },
        installed_files: files,
        installed_files_meta: meta,
        fetched_meta: PakklyMetaRemote {
            background_color: "#000000ff".to_string(),
            description: None,
            shipper: DownloadParams { url: "s".to_string(), version: "1".to_string() },
            app: DownloadParams { url: "a".to_string(), version: "7".to_string() },
            app_name: "App".to_string(),
            company_name: None,
        },
        installed_date: 0,
        last_launch: 0,
        last_ucheck: 0,
        installing: false,
        shipperfile: None,
        installed_app_info: DownloadParams { url: "a".to_string(), version: "6".to_string() },
    }
}

fn file(path: &str, hash: Option<u64>) -> FsEntry {
    FsEntry { path: path.to_string(), is_symlink: false, is_dir: false, is_file: true, size: 1, hash }
}

fn dir(path: &str) -> FsEntry {
    FsEntry { path: path.to_string(), is_symlink: false, is_dir: true, is_file: false, size: 0, hash: None }
}

#[test]
fn an_uninstall_removes_files_then_directories_longest_path_first() {
    let c = config();
    let d = record(
        vec![
            known("a", Some("/p"), "DIRECTORY"),
            known("a/b", Some("/p"), "DIRECTORY"),
            known("a/b/c.txt", Some("/p"), &hash_text(5)),
            known("a/same.txt", Some("/p"), &hash_text(6)),
        ],
        vec![known("/l/link", None, "ALWAYS"), known("/gone", None, &hash_text(1))],
    );
    let mut link = file("/l/link", None);
    link.is_symlink = true;
    link.is_file = false;
    let snap = FsSnapshot {
        entries: vec![
            dir("/p/a"),
            dir("/p/a/b"),
            file("/p/a/b/c.txt", Some(5)),
            file("/p/a/same.txt", Some(6)),
            link,
        ],
    };
    let plan = uninstall_procedure(&d, &snap, &c).unwrap();
    assert_eq!(plan.ipc_dir, "/data/pakked_abc/runner/ipc");
    assert_eq!(
        plan.files,
        vec!["/p/a/same.txt".to_string(), "/p/a/b/c.txt".to_string(), "/l/link".to_string()]
    );
    assert_eq!(plan.dirs, vec!["/p/a/b".to_string(), "/p/a".to_string()]);
}

#[test]
fn a_file_that_was_changed_since_the_install_is_left_alone() {
    let c = config();
    let d = record(
        vec![known("kept.txt", Some("/p"), &hash_text(5)), known("same.txt", Some("/p"), &hash_text(5))],
        vec![],
    );
    let snap = FsSnapshot { entries: vec![file("/p/kept.txt", Some(6)), file("/p/same.txt", Some(5))] };
    let plan = uninstall_procedure(&d, &snap, &c).unwrap();
    assert_eq!(plan.files, vec!["/p/same.txt".to_string()]);
}

#[test]
fn exempt_files_are_removed_whatever_they_hold() {
    let c = config();
    let d = record(
        vec![known("node_modules/m.js", Some("/p"), &hash_text(5))],
        vec![known("/data/pakked_abc/runner/App", None, "ALWAYS")],
    );
    let snap = FsSnapshot {
        entries: vec![file("/p/node_modules/m.js", Some(99)), file("/data/pakked_abc/runner/App", None)],
    };
    let plan = uninstall_procedure(&d, &snap, &c).unwrap();
    assert_eq!(
        plan.files,
        vec!["/data/pakked_abc/runner/App".to_string(), "/p/node_modules/m.js".to_string()]
    );
}

#[test]
fn what_cannot_be_decided_fails_the_uninstall() {
    let c = config();
    let unreadable = record(vec![known("a", Some("/p"), &hash_text(5))], vec![]);
    let snap = FsSnapshot { entries: vec![file("/p/a", None)] };
    assert!(uninstall_procedure(&unreadable, &snap, &c).is_err());
    let no_hex = record(vec![known("a", Some("/p"), "DEFER")], vec![]);
    let snap = FsSnapshot { entries: vec![file("/p/a", Some(5))] };
    assert!(uninstall_procedure(&no_hex, &snap, &c).is_err());
    let item = InstallerInfoPathed { file: known("a", Some("/p"), "DEFER"), path: "/p/a".to_string() };
    assert!(decide_file(&item, &snap, &c).is_err());
    assert_eq!(decide_file(&item, &FsSnapshot { entries: vec![] }, &c).unwrap(), false);
}

#[test]
fn the_uninstall_list_holds_the_application_then_the_updater() {
    let d = record(
        vec![known("a", Some("/p"), "00"), known("bb", Some("/p/"), "00")],
        vec![known("/m", None, "00")],
    );
    let list = uninstall_list(&d);
    let paths: Vec<String> = list.iter().map(|i| i.path.clone()).collect();
    assert_eq!(paths, vec!["/p/a".to_string(), "/p/bb".to_string(), "/m".to_string()]);
    let sorted = sort_longest_first(&list);
    let paths: Vec<String> = sorted.iter().map(|i| i.path.clone()).collect();
    assert_eq!(paths, vec!["/p/bb".to_string(), "/p/a".to_string(), "/m".to_string()]);
    assert_eq!(sorted[0].file.dst_path, "bb");
}
