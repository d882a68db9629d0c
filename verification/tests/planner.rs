use shipper::defines::{Config, Platform, HASH_ALWAYS_REPLACE, HASH_DEFER, HASH_DIRECTORY};
use shipper::fslog::{FsEntry, FsSnapshot};
use shipper::hasher::{get_file_hash, hash_text};
use shipper::installer::{
    check_files, cleanup_obsolete_files, diff_update, finish_diff_update, install, resolve_hashes,
    PrepKind,
};
use shipper::remoteinstallerdata::{
    DownloadParams, InstalledFile, InstallerColor, PakklyMetaRemote, StoredInstallData,
};

fn config() -> Config {
    Config {
        data_local_dir: "/home/u/.local/share".to_string(),
        pakkly_id: "abc".to_string(),
        shipper_version: "1.0.0".to_string(),
        shipper_channel: "stable".to_string(),
        remote_url: "https://example.invalid".to_string(),
        platform: Platform::Linux,
        fresh_install: true,
    }
}

fn file(path: &str, content: &[u8]) -> FsEntry {
    let (h, _) = get_file_hash(&vec![content.to_vec()]);
    FsEntry {
        path: path.to_string(),
        is_symlink: false,
        is_dir: false,
        is_file: true,
        size: content.len() as u64,
        hash: Some(h),
    }
}

fn dir(path: &str) -> FsEntry {
    FsEntry { path: path.to_string(), is_symlink: false, is_dir: true, is_file: false, size: 0, hash: None }
}

fn known(rel: &str, hash: &str) -> InstalledFile {
    InstalledFile {
        dst_path: rel.to_string(),
        dst_path_human: rel.to_string(),
        hash: hash.to_string(),
        size: 0,
        root: Some("/t".to_string()),
    }
}

fn text_hash(content: &[u8]) -> String {
    hash_text(get_file_hash(&vec![content.to_vec()]).0)
}

fn record() -> StoredInstallData {
    StoredInstallData {
        background_color: InstallerColor { r: 0, g: 0, b: 0, a: 255 },
        installed_files: vec![],
        installed_files_meta: vec![],
        fetched_meta: PakklyMetaRemote {
            background_color: "#000000ff".to_string(),
            description: None,
            shipper: DownloadParams { url: "s".to_string(), version: "1.0.0".to_string() },
            app: DownloadParams { url: "a".to_string(), version: "7".to_string() },
            app_name: "My App".to_string(),
            company_name: None,
        },
        installed_date: 0,
        last_launch: 0,
        last_ucheck: 0,
        installing: false,
        shipperfile: None,
        installed_app_info: DownloadParams { url: "a".to_string(), version: "6".to_string() },
    }
}

#[test]
fn fresh_install_of_two_files_copies_both_and_resolves_their_hashes() {
    let c = config();
    let scratch = FsSnapshot { entries: vec![file("/s/a.txt", b"alpha"), file("/s/b.txt", b"")] };
    let target = FsSnapshot { entries: vec![] };
    let mut params = record();
    let cycle = diff_update(&params);
    assert!(cycle.fresh_install);
    let paths = vec!["a.txt".to_string(), "b.txt".to_string()];
    let res = check_files(&paths, "/s", "/t", &vec![], &scratch, &target, &c).unwrap();
    assert_eq!(res.update_list.len(), 2);
    assert_eq!(res.update_list[0].from_path, "/s/a.txt");
    assert_eq!(res.update_list[0].to_path, "/t/a.txt");
    assert_eq!(res.update_list[1].from_path, "/s/b.txt");
    assert_eq!(res.update_list[1].to_path, "/t/b.txt");
    assert_eq!(res.updated_file_list.len(), 2);
    assert!(res.updated_file_list.iter().all(|f| f.hash == HASH_DEFER));
    let checks: Vec<(PrepKind, String)> = res.checks.iter().map(|p| (p.kind, p.path.clone())).collect();
    assert_eq!(
        checks,
        vec![
            (PrepKind::CheckReadable, "/s/a.txt".to_string()),
            (PrepKind::CheckReadable, "/s/b.txt".to_string())
        ]
    );
    let kinds: Vec<PrepKind> = res.preparations.iter().map(|p| p.kind).collect();
    assert_eq!(
        kinds,
        vec![PrepKind::CreateDirAll, PrepKind::CreateFile, PrepKind::CreateDirAll, PrepKind::CreateFile]
    );
    assert_eq!(res.preparations[0].path, "/t");
    assert_eq!(res.preparations[1].path, "/t/a.txt");

    let after = FsSnapshot { entries: vec![file("/t/a.txt", b"alpha"), file("/t/b.txt", b"")] };
    let mut files = res.updated_file_list;
    resolve_hashes(&mut files, &after, &c).unwrap();
    assert_eq!(files.len(), 2);
    assert_eq!(files[0].hash, text_hash(b"alpha"));
    assert_eq!(files[0].size, 5);
    assert_eq!(files[1].hash, text_hash(b""));
    assert_ne!(files[1].hash, HASH_DEFER);
    finish_diff_update(&mut params, files);
    install(&mut params, 1234);
    assert_eq!(params.installed_files.len(), 2);
    assert_eq!(params.installed_date, 1234);
    assert_eq!(params.installed_app_info.version, "7");
    assert!(!params.installing);
    assert!(params.write_json().is_ok());
}

#[test]
fn rerun_on_an_unchanged_release_plans_no_copy() {
    let c = config();
    let scratch = FsSnapshot {
        entries: vec![dir("/s/sub"), file("/s/a.txt", b"alpha"), file("/s/sub/b.txt", b"beta")],
    };
    let target = FsSnapshot {
        entries: vec![dir("/t/sub"), file("/t/a.txt", b"alpha"), file("/t/sub/b.txt", b"beta")],
    };
    let old = vec![
        known("sub", HASH_DIRECTORY),
        known("a.txt", &text_hash(b"alpha")),
        known("sub/b.txt", &text_hash(b"beta")),
    ];
    let paths = vec!["sub".to_string(), "a.txt".to_string(), "sub/b.txt".to_string()];
    let res = check_files(&paths, "/s", "/t", &old, &scratch, &target, &c).unwrap();
    assert_eq!(res.update_list.len(), 0);
    assert_eq!(res.preparations.len(), 0);
    assert_eq!(res.checks.len(), 0);
    assert_eq!(res.updated_file_list.len(), 3);
    assert_eq!(res.updated_file_list[0].hash, HASH_DIRECTORY);
    assert_eq!(res.updated_file_list[0].size, 0);
    assert_eq!(res.updated_file_list[1].hash, text_hash(b"alpha"));
    assert_eq!(res.updated_file_list[1].size, 5);
    assert_eq!(res.updated_file_list[2].hash, text_hash(b"beta"));
    assert_eq!(res.updated_file_list[2].size, 4);
}

#[test]
fn a_skipped_file_keeps_its_recorded_hash_and_takes_the_installed_size() {
    let c = config();
    let scratch = FsSnapshot { entries: vec![file("/s/a.txt", b"alpha")] };
    let mut installed = file("/t/a.txt", b"alpha");
    installed.size = 4711;
    let target = FsSnapshot { entries: vec![installed] };
    let upper = text_hash(b"alpha").to_uppercase();
    let old = vec![known("a.txt", &upper)];
    let res = check_files(&vec!["a.txt".to_string()], "/s", "/t", &old, &scratch, &target, &c).unwrap();
    assert!(res.update_list.is_empty());
    assert_eq!(res.updated_file_list[0].hash, upper);
    assert_eq!(res.updated_file_list[0].size, 4711);
}

#[test]
fn exempt_paths_are_copied_even_when_unchanged() {
    let c = config();
    let scratch = FsSnapshot { entries: vec![file("/s/node_modules/x.js", b"x")] };
    let target = FsSnapshot { entries: vec![file("/t/node_modules/x.js", b"x")] };
    let old = vec![known("node_modules/x.js", &text_hash(b"x"))];
    let paths = vec!["node_modules/x.js".to_string()];
    let res = check_files(&paths, "/s", "/t", &old, &scratch, &target, &c).unwrap();
    assert_eq!(res.update_list.len(), 1);
    assert_eq!(res.updated_file_list[0].hash, HASH_DEFER);
    let kinds: Vec<PrepKind> = res.checks.iter().map(|p| p.kind).collect();
    assert_eq!(kinds, vec![PrepKind::CheckReadable, PrepKind::CheckWritable]);
    assert!(res.preparations.is_empty());
}

#[test]
fn changed_and_missing_files_are_copied() {
    let c = config();
    let scratch = FsSnapshot { entries: vec![file("/s/a.txt", b"new"), file("/s/gone.txt", b"g")] };
    let target = FsSnapshot { entries: vec![file("/t/a.txt", b"old")] };
    let old = vec![known("a.txt", &text_hash(b"old")), known("gone.txt", &text_hash(b"g"))];
    let paths = vec!["a.txt".to_string(), "gone.txt".to_string()];
    let res = check_files(&paths, "/s", "/t", &old, &scratch, &target, &c).unwrap();
    assert_eq!(res.update_list.len(), 2);
    // Whatever is copied is deferred: hash and size are taken once the copy has landed.
    assert_eq!(res.updated_file_list[0].hash, HASH_DEFER);
    assert_eq!(res.updated_file_list[0].size, 0);
    assert_eq!(res.updated_file_list[1].hash, HASH_DEFER);
    let checks: Vec<(PrepKind, String)> = res.checks.iter().map(|p| (p.kind, p.path.clone())).collect();
    assert_eq!(
        checks,
        vec![
            (PrepKind::CheckReadable, "/s/a.txt".to_string()),
            (PrepKind::CheckWritable, "/t/a.txt".to_string()),
            (PrepKind::CheckReadable, "/s/gone.txt".to_string()),
        ]
    );
    // The file that is gone is created after the record was marked, not before.
    let preps: Vec<(PrepKind, String)> =
        res.preparations.iter().map(|p| (p.kind, p.path.clone())).collect();
    assert_eq!(
        preps,
        vec![
            (PrepKind::CreateDirAll, "/t".to_string()),
            (PrepKind::CreateFile, "/t/gone.txt".to_string())
        ]
    );
    let after = FsSnapshot { entries: vec![file("/t/a.txt", b"new"), file("/t/gone.txt", b"g")] };
    let mut files = res.updated_file_list;
    resolve_hashes(&mut files, &after, &c).unwrap();
    assert_eq!((files[0].hash.clone(), files[0].size), (text_hash(b"new"), 3));
    assert_eq!((files[1].hash.clone(), files[1].size), (text_hash(b"g"), 1));
}

#[test]
fn a_type_flip_removes_the_stale_node_first() {
    let c = config();
    let scratch = FsSnapshot { entries: vec![file("/s/x", b"now a file"), dir("/s/y")] };
    let target = FsSnapshot { entries: vec![dir("/t/x"), file("/t/y", b"was a file")] };
    let old = vec![known("x", HASH_DIRECTORY), known("y", &text_hash(b"was a file"))];
    let paths = vec!["x".to_string(), "y".to_string()];
    let res = check_files(&paths, "/s", "/t", &old, &scratch, &target, &c).unwrap();
    let steps: Vec<(PrepKind, String)> =
        res.preparations.iter().map(|p| (p.kind, p.path.clone())).collect();
    assert_eq!(res.checks.len(), 1);
    assert_eq!(res.checks[0].kind, PrepKind::CheckReadable);
    assert_eq!(
        steps,
        vec![
            (PrepKind::RemoveDirAll, "/t/x".to_string()),
            (PrepKind::CreateDirAll, "/t".to_string()),
            (PrepKind::CreateFile, "/t/x".to_string()),
            (PrepKind::RemoveFile, "/t/y".to_string()),
            (PrepKind::CreateDirAll, "/t/y".to_string()),
        ]
    );
    assert_eq!(res.update_list.len(), 1);
    assert_eq!(res.updated_file_list[0].hash, HASH_DEFER);
    assert_eq!(res.updated_file_list[1].hash, HASH_DIRECTORY);
}

#[test]
fn a_directory_behind_a_symlink_is_always_replaced() {
    let c = config();
    let scratch = FsSnapshot { entries: vec![dir("/s/d")] };
    let mut link = dir("/t/d");
    link.is_symlink = true;
    let target = FsSnapshot { entries: vec![link] };
    let res =
        check_files(&vec!["d".to_string()], "/s", "/t", &vec![], &scratch, &target, &c).unwrap();
    assert_eq!(res.updated_file_list[0].hash, HASH_ALWAYS_REPLACE);
    assert_eq!(res.preparations.len(), 0);
}

#[test]
fn a_stored_hash_that_is_no_hex_text_fails_the_plan() {
    let c = config();
    let scratch = FsSnapshot { entries: vec![file("/s/a.txt", b"alpha")] };
    let target = FsSnapshot { entries: vec![file("/t/a.txt", b"alpha")] };
    let old = vec![known("a.txt", "not hex")];
    let res = check_files(&vec!["a.txt".to_string()], "/s", "/t", &old, &scratch, &target, &c);
    assert!(res.is_err());
}

#[test]
fn an_incoming_file_that_was_not_hashed_fails_the_plan() {
    let c = config();
    let mut incoming = file("/s/a.txt", b"alpha");
    incoming.hash = None;
    let scratch = FsSnapshot { entries: vec![incoming] };
    let target = FsSnapshot { entries: vec![file("/t/a.txt", b"alpha")] };
    let old = vec![known("a.txt", &text_hash(b"alpha"))];
    let res = check_files(&vec!["a.txt".to_string()], "/s", "/t", &old, &scratch, &target, &c);
    assert!(res.is_err());
}

#[test]
fn cleanup_removes_files_first_and_deeper_directories_before_shallower() {
    let target =
        FsSnapshot { entries: vec![dir("/t/a"), dir("/t/a/b"), file("/t/a/b/c.txt", b"c")] };
    let old = vec![
        known("a", HASH_DIRECTORY),
        known("a/b", HASH_DIRECTORY),
        known("a/b/c.txt", &text_hash(b"c")),
    ];
    let plan = cleanup_obsolete_files(&old, &vec![], "/t", &target);
    assert_eq!(plan.files, vec!["/t/a/b/c.txt".to_string()]);
    assert_eq!(plan.dirs, vec!["/t/a/b".to_string(), "/t/a".to_string()]);
}

#[test]
fn cleanup_keeps_what_the_new_release_still_tracks() {
    let target = FsSnapshot { entries: vec![file("/t/keep", b"k"), file("/t/drop", b"d")] };
    let old = vec![known("keep", "00"), known("drop", "00")];
    let new = vec![known("keep", "11")];
    let plan = cleanup_obsolete_files(&old, &new, "/t", &target);
    assert_eq!(plan.files, vec!["/t/drop".to_string()]);
    assert!(plan.dirs.is_empty());
}

#[test]
fn cleanup_keeps_the_order_of_directories_of_equal_length() {
    let target = FsSnapshot { entries: vec![dir("/t/bb"), dir("/t/aa"), dir("/t/c")] };
    let old = vec![
        known("c", HASH_DIRECTORY),
        known("bb", HASH_DIRECTORY),
        known("aa", HASH_DIRECTORY),
    ];
    let plan = cleanup_obsolete_files(&old, &vec![], "/t", &target);
    assert_eq!(plan.dirs, vec!["/t/bb".to_string(), "/t/aa".to_string(), "/t/c".to_string()]);
}

#[test]
fn resolving_fails_where_the_written_file_is_not_there() {
    let c = config();
    let mut files = vec![known("a.txt", HASH_DEFER)];
    let r = resolve_hashes(&mut files, &FsSnapshot { entries: vec![] }, &c);
    assert!(r.is_err());
    assert_eq!(files[0].hash, HASH_DEFER);
}

#[test]
fn a_content_hash_of_zero_stays_deferred_and_blocks_the_write() {
    let c = config();
    let mut zero = file("/t/a.txt", b"alpha");
    zero.hash = Some(0);
    let mut files = vec![known("a.txt", HASH_DEFER)];
    resolve_hashes(&mut files, &FsSnapshot { entries: vec![zero] }, &c).unwrap();
    assert_eq!(files[0].hash, HASH_DEFER);
    let mut params = record();
    finish_diff_update(&mut params, files);
    let e = params.write_json().unwrap_err();
    assert_eq!(e.msg, "Deferred hashes must be fulfilled before writing!");
}
