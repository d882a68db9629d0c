//! What an uninstall removes.
//!
//! A file is removed only where it still is what was installed: its
//! content hash is compared with the recorded one, and a file that was
//! changed since is left alone. This guards against removing what the user
//! has edited; it is a heuristic over a non-cryptographic hash and no
//! protection against an adversary.
use crate::common::{is_hash_whitelisted, is_hash_whitelisted_spec};
use crate::defines::{always_chars, hash_always_replace, Config};
use crate::error::{fail, FormattedError};
use crate::fslog::{get_simple_fs_meta_symlink, simple_meta_spec, FsSnapshot};
use crate::hexcodec::{hex_decode, hex_decode_spec};
use crate::installer::{byte_lens, bytes_eq, string_views};
use crate::paths::{get_ipc_dir, install_dir_pakkly_spec, join_spec};
use crate::remoteinstallerdata::{InstalledFile, StoredInstallData};
use crate::sorting::{lemma_order_desc, order_desc, stable_order_desc};
use vstd::bytes::{spec_u64_to_le_bytes, u64_to_le_bytes};
use vstd::prelude::*;

verus! {

/// A tracked entry with its full path.
#[derive(Clone, Debug)]
pub struct InstallerInfoPathed {
    pub file: InstalledFile,
    pub path: String,
}

/// The entries of `files` with their full paths, in order.
pub open spec fn pathed(files: Seq<InstalledFile>) -> Seq<(InstalledFile, Seq<char>)> {
    Seq::new(files.len(), |i: int| (files[i], files[i].absolute_spec()))
}

/// What a list of pathed entries holds.
pub open spec fn pathed_views(v: Seq<InstallerInfoPathed>) -> Seq<(InstalledFile, Seq<char>)> {
    Seq::new(v.len(), |i: int| (v[i].file, v[i].path@))
}

/// The paths of pathed entries.
pub open spec fn paths_of(v: Seq<(InstalledFile, Seq<char>)>) -> Seq<Seq<char>> {
    Seq::new(v.len(), |i: int| v[i].1)
}

/// `items` with the longest path first; equal lengths keep their order.
pub open spec fn longest_path_first(items: Seq<(InstalledFile, Seq<char>)>) -> Seq<
    (InstalledFile, Seq<char>),
> {
    let order = order_desc(byte_lens(paths_of(items)), items.len() as int);
    Seq::new(items.len(), |i: int| items[order[i] as int])
}

/// Whether the file at `path`, tracked as `file`, is removed: `Some(true)`
/// where it is, `Some(false)` where it is left alone, `None` where that
/// cannot be decided.
///
/// - What is no longer there, and a directory, is not removed as a file.
/// - An entry exempt from hash comparison, or recorded as always replaced,
///   is removed.
/// - Any other file is removed where its content hash is the recorded one
///   and left alone where it differs. Where the file cannot be hashed or
///   the recorded hash is no hexadecimal text, nothing is decided.
pub open spec fn file_verdict(file: InstalledFile, path: Seq<char>, snapshot: FsSnapshot, c: Config) -> Option<
    bool,
> {
    match simple_meta_spec(snapshot, path) {
        None => Some(false),
        Some(meta) => if meta.is_directory {
            Some(false)
        } else if !is_hash_whitelisted_spec(path, c) && file.hash@ != always_chars() {
            match (snapshot.entry_spec(path)->Some_0.hash, hex_decode_spec(file.hash@)) {
                (Some(h), Some(stored)) => Some(spec_u64_to_le_bytes(h) == stored),
                _ => None,
            }
        } else {
            Some(true)
        },
    }
}

/// Whether `path` is removed as a directory: it names a directory that is
/// no symlink.
pub open spec fn dir_verdict(path: Seq<char>, snapshot: FsSnapshot) -> bool {
    match simple_meta_spec(snapshot, path) {
        None => false,
        Some(meta) => meta.is_directory,
    }
}

/// Whether removal can be decided for every one of `items`.
pub open spec fn all_decided(items: Seq<(InstalledFile, Seq<char>)>, snapshot: FsSnapshot, c: Config) -> bool {
    forall|i: int|
        0 <= i < items.len() ==> file_verdict(
            (#[trigger] items[i]).0,
            items[i].1,
            snapshot,
            c,
        ) is Some
}

/// The paths among the first `n` of `items` that are removed as files.
pub open spec fn files_upto(
    items: Seq<(InstalledFile, Seq<char>)>,
    snapshot: FsSnapshot,
    c: Config,
    n: int,
) -> Seq<Seq<char>>
    decreases n,
{
    if n <= 0 {
        Seq::empty()
    } else if file_verdict(items[n - 1].0, items[n - 1].1, snapshot, c) == Some(true) {
        files_upto(items, snapshot, c, n - 1).push(items[n - 1].1)
    } else {
        files_upto(items, snapshot, c, n - 1)
    }
}

/// The paths among the first `n` of `items` that are removed as
/// directories.
pub open spec fn dirs_upto(items: Seq<(InstalledFile, Seq<char>)>, snapshot: FsSnapshot, n: int) -> Seq<
    Seq<char>,
>
    decreases n,
{
    if n <= 0 {
        Seq::empty()
    } else if dir_verdict(items[n - 1].1, snapshot) {
        dirs_upto(items, snapshot, n - 1).push(items[n - 1].1)
    } else {
        dirs_upto(items, snapshot, n - 1)
    }
}

/// What an uninstall removes, in order: the presence records, then the
/// files, then the directories. A directory is removed only if it is
/// empty by then.
pub struct UninstallPlan {
    pub ipc_dir: String,
    pub files: Vec<String>,
    pub dirs: Vec<String>,
}

/// Everything that `local_data` tracks, with full paths: the files of the
/// application, then those of the updater.
pub fn uninstall_list(local_data: &StoredInstallData) -> (r: Vec<InstallerInfoPathed>)
    ensures
        pathed_views(r@) == pathed(local_data.installed_files@) + pathed(
            local_data.installed_files_meta@,
        ),
{
    let mut r: Vec<InstallerInfoPathed> = Vec::new();
    let mut i: usize = 0;
    proof {
        assert(pathed_views(r@) =~= pathed(local_data.installed_files@).take(0));
    }
    while i < local_data.installed_files.len()
        invariant
            0 <= i <= local_data.installed_files.len(),
            pathed_views(r@) == pathed(local_data.installed_files@).take(i as int),
        decreases local_data.installed_files.len() - i,
    {
        let f = &local_data.installed_files[i];
        let ghost before = r@;
        r.push(InstallerInfoPathed { path: f.absolute(), file: f.duplicate() });
        proof {
            assert(pathed_views(r@) =~= pathed_views(before).push((*f, f.absolute_spec())));
            assert(pathed(local_data.installed_files@).take(i as int + 1) =~= pathed(
                local_data.installed_files@,
            ).take(i as int).push((*f, f.absolute_spec())));
        }
        i += 1;
    }
    proof {
        assert(pathed(local_data.installed_files@).take(i as int) =~= pathed(
            local_data.installed_files@,
        ));
    }
    let ghost first = pathed(local_data.installed_files@);
    let mut j: usize = 0;
    proof {
        assert(pathed_views(r@) =~= first + pathed(local_data.installed_files_meta@).take(0));
    }
    while j < local_data.installed_files_meta.len()
        invariant
            0 <= j <= local_data.installed_files_meta.len(),
            first == pathed(local_data.installed_files@),
            pathed_views(r@) == first + pathed(local_data.installed_files_meta@).take(j as int),
        decreases local_data.installed_files_meta.len() - j,
    {
        let f = &local_data.installed_files_meta[j];
        let ghost before = r@;
        r.push(InstallerInfoPathed { path: f.absolute(), file: f.duplicate() });
        proof {
            assert(pathed_views(r@) =~= pathed_views(before).push((*f, f.absolute_spec())));
            assert(pathed(local_data.installed_files_meta@).take(j as int + 1) =~= pathed(
                local_data.installed_files_meta@,
            ).take(j as int).push((*f, f.absolute_spec())));
        }
        j += 1;
    }
    proof {
        assert(pathed(local_data.installed_files_meta@).take(j as int) =~= pathed(
            local_data.installed_files_meta@,
        ));
    }
    r
}

/// `items` with the longest path first, so that what lies in a directory
/// comes before the directory.
pub fn sort_longest_first(items: &Vec<InstallerInfoPathed>) -> (r: Vec<InstallerInfoPathed>)
    ensures
        pathed_views(r@) == longest_path_first(pathed_views(items@)),
{
    let mut keys: Vec<usize> = Vec::new();
    let mut i: usize = 0;
    let ghost views = pathed_views(items@);
    while i < items.len()
        invariant
            0 <= i <= items.len(),
            views == pathed_views(items@),
            keys@ == byte_lens(paths_of(views)).take(i as int),
        decreases items.len() - i,
    {
        keys.push(items[i].path.as_str().len());
        proof {
            assert(keys@ =~= byte_lens(paths_of(views)).take(i as int + 1));
        }
        i += 1;
    }
    proof {
        assert(keys@ =~= byte_lens(paths_of(views)));
        lemma_order_desc(keys@, keys@.len() as int);
    }
    let order = stable_order_desc(&keys);
    let mut r: Vec<InstallerInfoPathed> = Vec::new();
    let mut j: usize = 0;
    let ghost want = longest_path_first(views);
    while j < order.len()
        invariant
            0 <= j <= order.len(),
            views == pathed_views(items@),
            order@ == order_desc(byte_lens(paths_of(views)), views.len() as int),
            order@.len() == items@.len(),
            forall|a: int| 0 <= a < order@.len() ==> (#[trigger] order@[a]) < items@.len(),
            want == longest_path_first(views),
            pathed_views(r@) == want.take(j as int),
        decreases order.len() - j,
    {
        let it = &items[order[j]];
        let ghost before = r@;
        r.push(InstallerInfoPathed { file: it.file.duplicate(), path: it.path.clone() });
        proof {
            assert(pathed_views(r@) =~= pathed_views(before).push((it.file, it.path@)));
            assert(want.take(j as int + 1) =~= want.take(j as int).push(want[j as int]));
        }
        j += 1;
    }
    proof {
        assert(want.take(j as int) =~= want);
    }
    r
}

/// Decides whether the file at `installed.path` is removed.
pub fn decide_file(installed: &InstallerInfoPathed, snapshot: &FsSnapshot, c: &Config) -> (r: Result<
    bool,
    FormattedError,
>)
    ensures
        match r {
            Ok(b) => file_verdict(installed.file, installed.path@, *snapshot, *c) == Some(b),
            Err(_) => file_verdict(installed.file, installed.path@, *snapshot, *c) is None,
        },
{
    let meta = match get_simple_fs_meta_symlink(snapshot, installed.path.as_str()) {
        None => {
            return Ok(false);
        },
        Some(m) => m,
    };
    if meta.is_directory {
        return Ok(false);
    }
    let always = hash_always_replace();
    if !is_hash_whitelisted(installed.path.as_str(), c) && installed.file.hash != always {
        let i = snapshot.lookup(installed.path.as_str()).unwrap();
        let h = match snapshot.entries[i].hash {
            Some(h) => h,
            None => {
                return Err(fail("Installed file could not be hashed"));
            },
        };
        let stored = match hex_decode(installed.file.hash.as_str()) {
            Some(s) => s,
            None => {
                return Err(fail("Stored hash is no hexadecimal text"));
            },
        };
        let on_disk = u64_to_le_bytes(h);
        return Ok(bytes_eq(&on_disk, &stored));
    }
    Ok(true)
}

/// What an uninstall of `local_data` removes: everything it tracks, taken
/// longest path first, each file by [`file_verdict`] and each directory
/// by [`dir_verdict`]. Fails exactly where the removal of some file cannot
/// be decided.
pub fn uninstall_procedure(local_data: &StoredInstallData, snapshot: &FsSnapshot, c: &Config) -> (r:
    Result<UninstallPlan, FormattedError>)
    ensures
        ({
            let items = longest_path_first(
                pathed(local_data.installed_files@) + pathed(local_data.installed_files_meta@),
            );
            &&& r is Ok <==> all_decided(items, *snapshot, *c)
            &&& r is Ok ==> {
                &&& r->Ok_0.ipc_dir@ == join_spec(install_dir_pakkly_spec(*c), "ipc"@)
                &&& string_views(r->Ok_0.files@) == files_upto(
                    items,
                    *snapshot,
                    *c,
                    items.len() as int,
                )
                &&& string_views(r->Ok_0.dirs@) == dirs_upto(items, *snapshot, items.len() as int)
            }
        }),
{
    let listed = uninstall_list(local_data);
    let sorted = sort_longest_first(&listed);
    let ghost items = pathed_views(sorted@);
    let mut files: Vec<String> = Vec::new();
    let mut dirs: Vec<String> = Vec::new();
    let mut i: usize = 0;
    proof {
        assert(string_views(files@) =~= Seq::empty());
        assert(string_views(dirs@) =~= Seq::empty());
    }
    while i < sorted.len()
        invariant
            0 <= i <= sorted.len(),
            items == pathed_views(sorted@),
            items == longest_path_first(
                pathed(local_data.installed_files@) + pathed(local_data.installed_files_meta@),
            ),
            forall|k: int|
                0 <= k < i ==> file_verdict(
                    (#[trigger] items[k]).0,
                    items[k].1,
                    *snapshot,
                    *c,
                ) is Some,
            string_views(files@) == files_upto(items, *snapshot, *c, i as int),
            string_views(dirs@) == dirs_upto(items, *snapshot, i as int),
        decreases sorted.len() - i,
    {
        let installed = &sorted[i];
        assert(items[i as int] == (installed.file, installed.path@));
        match decide_file(installed, snapshot, c) {
            Ok(remove) => {
                if remove {
                    let ghost before = files@;
                    files.push(installed.path.clone());
                    proof {
                        assert(string_views(files@) =~= string_views(before).push(installed.path@));
                    }
                }
            },
            Err(e) => {
                proof {
                    assert(file_verdict(items[i as int].0, items[i as int].1, *snapshot, *c) is None);
                }
                return Err(e);
            },
        }
        let is_dir = match get_simple_fs_meta_symlink(snapshot, installed.path.as_str()) {
            Some(m) => m.is_directory,
            None => false,
        };
        if is_dir {
            let ghost before = dirs@;
            dirs.push(installed.path.clone());
            proof {
                assert(string_views(dirs@) =~= string_views(before).push(installed.path@));
            }
        }
        i += 1;
    }
    Ok(UninstallPlan { ipc_dir: get_ipc_dir(c), files, dirs })
}

/// A file that was changed since it was installed is not removed: where a
/// file that is compared by hash has another content hash than the
/// recorded one, the verdict is to leave it alone.
pub proof fn lemma_changed_file_is_kept(
    file: InstalledFile,
    path: Seq<char>,
    snapshot: FsSnapshot,
    c: Config,
    recorded: u64,
)
    requires
        simple_meta_spec(snapshot, path) is Some,
        !simple_meta_spec(snapshot, path)->Some_0.is_directory,
        !is_hash_whitelisted_spec(path, c),
        file.hash@ == crate::hasher::hash_text_spec(recorded),
        snapshot.entry_spec(path)->Some_0.hash is Some,
    ensures
        file_verdict(file, path, snapshot, c) == Some(
            snapshot.entry_spec(path)->Some_0.hash->Some_0 == recorded,
        ),
{
    crate::hasher::lemma_hash_text_not_sentinel(recorded);
    crate::hexcodec::lemma_hex_round_trip(spec_u64_to_le_bytes(recorded));
    let h = snapshot.entry_spec(path)->Some_0.hash->Some_0;
    if spec_u64_to_le_bytes(h) == spec_u64_to_le_bytes(recorded) {
        vstd::bytes::lemma_auto_spec_u64_to_from_le_bytes();
    }
}

} // verus!
