//! What the updater places for itself beside the application: the files
//! it tracks for its own removal, the application icon, and the texts of
//! the launcher entry and the uninstall scripts.
use crate::defines::{Config, PAKKLY_CLI_UNINSTALL};
use crate::error::{fail, FormattedError};
use crate::fslog::FsSnapshot;
use crate::paths::{
    get_install_dir_pakkly, get_install_file_pakkly, get_install_path, get_install_root,
    get_json_path, install_dir_pakkly_spec, install_root_spec, install_subdir_spec, join_spec,
    pakkly_file_name_spec,
};
use crate::remoteinstallerdata::{size_and_hash_spec, InstalledFile, StoredInstallData};
use crate::text::{starts_with_spec, str_concat, str_concat3, str_starts_with, substring, to_chars};
use base64::Engine;
use vstd::prelude::*;

verus! {

/// The bytes that standard base64 text with padding stands for, or `None`
/// where the text is no such text.
pub uninterp spec fn base64_decode_spec(text: Seq<char>) -> Option<Seq<u8>>;

/// Calls `decode` of base64's `general_purpose::STANDARD` engine. Trusted:
/// whether the text decodes, and to which bytes, depends on the text
/// alone; every failure is reported as `None`.
#[verifier::external_body]
fn base64_decode(text: &str) -> (r: Option<Vec<u8>>)
    ensures
        match r {
            Some(v) => base64_decode_spec(text@) == Some(v@),
            None => base64_decode_spec(text@) is None,
        },
{
    base64::engine::general_purpose::STANDARD.decode(text).ok()
}

/// What an icon begins with: the type of a PNG image as a data URI.
pub const ICON_PREFIX: &'static str = "data:image/png;base64,";

/// `s` without the occurrences of `prefix` it begins with.
pub open spec fn strip_prefixes(s: Seq<char>, prefix: Seq<char>) -> Seq<char>
    decreases s.len(),
{
    if prefix.len() > 0 && starts_with_spec(s, prefix) {
        strip_prefixes(s.skip(prefix.len() as int), prefix)
    } else {
        s
    }
}

/// The image that the icon text `icon` holds, or `None` where it does not
/// begin with the PNG data type or what follows is no base64 text.
pub open spec fn icon_spec(icon: Seq<char>) -> Option<Seq<u8>> {
    if starts_with_spec(icon, ICON_PREFIX@) {
        base64_decode_spec(strip_prefixes(icon, ICON_PREFIX@))
    } else {
        None
    }
}

/// `s` without the occurrences of `prefix` it begins with.
pub fn trim_start_matches(s: &str, prefix: &str) -> (r: String)
    ensures
        r@ == strip_prefixes(s@, prefix@),
{
    let v = to_chars(s);
    let p = to_chars(prefix);
    let mut start: usize = 0;
    proof {
        assert(v@.skip(0) =~= v@);
    }
    if p.len() > 0 {
        while crate::text::chars_occur_at(&v, &p, start)
            invariant
                0 <= start <= v.len(),
                p@.len() > 0,
                p@ == prefix@,
                strip_prefixes(v@, p@) == strip_prefixes(v@.skip(start as int), p@),
            decreases v.len() - start,
        {
            proof {
                let rest = v@.skip(start as int);
                assert(rest.subrange(0, p@.len() as int) =~= v@.subrange(
                    start as int,
                    start + p@.len(),
                ));
                assert(starts_with_spec(rest, p@));
                assert(rest.skip(p@.len() as int) =~= v@.skip(start + p@.len()));
            }
            start += p.len();
        }
        proof {
            let rest = v@.skip(start as int);
            if starts_with_spec(rest, p@) {
                assert(rest.subrange(0, p@.len() as int) =~= v@.subrange(
                    start as int,
                    start + p@.len(),
                ));
            }
        }
    }
    proof {
        assert(v@.subrange(start as int, v@.len() as int) =~= v@.skip(start as int));
    }
    substring(s, start, v.len())
}

/// The image that the icon of a release manifest holds. Fails exactly
/// where [`icon_spec`] has no answer.
pub fn decode_icon(icon: &str) -> (r: Result<Vec<u8>, FormattedError>)
    ensures
        match r {
            Ok(png) => icon_spec(icon@) == Some(png@),
            Err(_) => icon_spec(icon@) is None,
        },
{
    if !str_starts_with(icon, ICON_PREFIX) {
        return Err(
            FormattedError::from_str(str_concat("Missing data type for icon. Expected: ", ICON_PREFIX)),
        );
    }
    let payload = trim_start_matches(icon, ICON_PREFIX);
    match base64_decode(payload.as_str()) {
        Some(png) => Ok(png),
        None => Err(fail("Icon is no base64 text")),
    }
}

/// The text of the launcher entry for the desktop.
pub open spec fn desktop_entry_spec(
    app_name: Seq<char>,
    description: Seq<char>,
    exec_path: Seq<char>,
    icon: Seq<char>,
) -> Seq<char> {
    "[Desktop Entry]\nEncoding=UTF-8\nType=Application\nName="@ + app_name + "\nComment="@
        + description + "\nExec="@ + exec_path + "\nIcon="@ + icon
        + "\nTerminal=false\nCategories=GNOME;Application;\nStartupNotify=true"@
}

/// The text of the launcher entry for the desktop.
pub fn desktop_entry(app_name: &str, description: &str, exec_path: &str, icon: &str) -> (r: String)
    ensures
        r@ == desktop_entry_spec(app_name@, description@, exec_path@, icon@),
{
    let mut r = "[Desktop Entry]\nEncoding=UTF-8\nType=Application\nName=".to_owned();
    r.append(app_name);
    r.append("\nComment=");
    r.append(description);
    r.append("\nExec=");
    r.append(exec_path);
    r.append("\nIcon=");
    r.append(icon);
    r.append("\nTerminal=false\nCategories=GNOME;Application;\nStartupNotify=true");
    r
}

/// The text of the script that uninstalls on Linux.
pub fn uninstall_script(updater: &str) -> (r: String)
    ensures
        r@ == "sudo "@ + updater@ + " "@ + PAKKLY_CLI_UNINSTALL@,
{
    let mut r = str_concat3("sudo ", updater, " ");
    r.append(PAKKLY_CLI_UNINSTALL);
    r
}

/// The text of the batch file that uninstalls on Windows.
pub fn uninstall_batch(shortcut: &str) -> (r: String)
    ensures
        r@ == "@echo off\r\nstart \"\" \""@ + shortcut@ + "\""@,
{
    str_concat3("@echo off\r\nstart \"\" \"", shortcut, "\"")
}

/// The sum of the sizes of the first `n` files, in bytes.
pub open spec fn total_size(files: Seq<InstalledFile>, n: int) -> nat
    decreases n,
{
    if n <= 0 {
        0
    } else {
        total_size(files, n - 1) + files[n - 1].size as nat
    }
}

/// The size of the install in kibibytes, as shown by the operating system
/// in its list of installed programs. A size that does not fit is shown as
/// the largest that does.
pub fn estimated_size_kb(files: &Vec<InstalledFile>) -> (kb: u32)
    ensures
        kb == if total_size(files@, files@.len() as int) / 1024 > u32::MAX {
            u32::MAX as int
        } else {
            total_size(files@, files@.len() as int) as int / 1024
        },
{
    let mut sum: u128 = 0;
    let mut i: usize = 0;
    while i < files.len()
        invariant
            0 <= i <= files.len(),
            sum == total_size(files@, i as int),
            sum <= i * 0xFFFF_FFFF_FFFF_FFFF,
        decreases files.len() - i,
    {
        proof {
            assert(i * 0xFFFF_FFFF_FFFF_FFFF + 0xFFFF_FFFF_FFFF_FFFF == (i + 1) * 0xFFFF_FFFF_FFFF_FFFF)
                by (nonlinear_arith);
            assert((i + 1) * 0xFFFF_FFFF_FFFF_FFFF <= 0xFFFF_FFFF_FFFF_FFFF * 0xFFFF_FFFF_FFFF_FFFF)
                by (nonlinear_arith)
                requires
                    i + 1 <= 0xFFFF_FFFF_FFFF_FFFF,
            ;
        }
        sum = sum + files[i].size as u128;
        i += 1;
    }
    let kb: u128 = sum / 1024;
    if kb > 0xFFFF_FFFF {
        0xFFFF_FFFF
    } else {
        kb as u32
    }
}

/// The paths that the updater tracks for its own removal besides the
/// shortcuts: its binary, its directory, the directory of the application,
/// the root of the install and the record.
pub open spec fn meta_paths_spec(c: Config, app_name: Seq<char>) -> Seq<Seq<char>> {
    seq![
        join_spec(install_dir_pakkly_spec(c), pakkly_file_name_spec(c, app_name)),
        install_dir_pakkly_spec(c),
        install_subdir_spec(c, "program"@),
        install_root_spec(c),
        join_spec(install_dir_pakkly_spec(c), "pakkly.installer.json"@),
    ]
}

/// The paths that the updater tracks for its own removal.
pub fn installer_meta_paths(parameters: &StoredInstallData, c: &Config) -> (r: Vec<String>)
    ensures
        crate::installer::string_views(r@) == meta_paths_spec(*c, parameters.fetched_meta.app_name@),
{
    let mut r: Vec<String> = Vec::new();
    r.push(get_install_file_pakkly(c, parameters));
    r.push(get_install_dir_pakkly(c));
    r.push(get_install_path(c));
    r.push(get_install_root(c));
    r.push(get_json_path(c));
    proof {
        assert(crate::installer::string_views(r@) =~= meta_paths_spec(
            *c,
            parameters.fetched_meta.app_name@,
        ));
    }
    r
}

/// Whether `after` is `before` followed by one entry for each of the first
/// `n` of `paths`, each as `snapshot` shows the node.
pub open spec fn tracked_after(
    after: Seq<InstalledFile>,
    before: Seq<InstalledFile>,
    paths: Seq<Seq<char>>,
    snapshot: FsSnapshot,
    c: Config,
    n: int,
) -> bool {
    &&& after.len() == before.len() + n
    &&& after.take(before.len() as int) == before
    &&& forall|i: int|
        0 <= i < n ==> {
            let f = #[trigger] after[before.len() + i];
            &&& f.dst_path@ == paths[i]
            &&& f.root is None
            &&& size_and_hash_spec(paths[i], snapshot, c) == Some((f.hash@, f.size))
        }
}

/// Adds to the files that the record tracks for the updater one entry for
/// each of `paths`, as `snapshot` shows them. Fails exactly where the
/// snapshot shows one of them as nothing that can be tracked; the entries
/// before it have been added then.
pub fn track_paths(
    parameters: &mut StoredInstallData,
    paths: &Vec<String>,
    c: &Config,
    snapshot: &FsSnapshot,
) -> (r: Result<(), FormattedError>)
    ensures
        ({
            let specs = crate::installer::string_views(paths@);
            &&& r is Ok <==> forall|i: int|
                0 <= i < specs.len() ==> size_and_hash_spec(#[trigger] specs[i], *snapshot, *c) is Some
            &&& r is Ok ==> tracked_after(
                final(parameters).installed_files_meta@,
                old(parameters).installed_files_meta@,
                specs,
                *snapshot,
                *c,
                specs.len() as int,
            )
            &&& final(parameters).installed_files == old(parameters).installed_files
            &&& final(parameters).fetched_meta == old(parameters).fetched_meta
            &&& final(parameters).installing == old(parameters).installing
            &&& final(parameters).shipperfile == old(parameters).shipperfile
        }),
{
    let ghost specs = crate::installer::string_views(paths@);
    let ghost before = parameters.installed_files_meta@;
    let mut i: usize = 0;
    proof {
        assert(parameters.installed_files_meta@.take(before.len() as int) =~= before);
    }
    while i < paths.len()
        invariant
            0 <= i <= paths.len(),
            specs == crate::installer::string_views(paths@),
            forall|k: int| 0 <= k < i ==> size_and_hash_spec(#[trigger] specs[k], *snapshot, *c) is Some,
            tracked_after(parameters.installed_files_meta@, before, specs, *snapshot, *c, i as int),
            before == old(parameters).installed_files_meta@,
            parameters.installed_files == old(parameters).installed_files,
            parameters.fetched_meta == old(parameters).fetched_meta,
            parameters.installing == old(parameters).installing,
            parameters.shipperfile == old(parameters).shipperfile,
        decreases paths.len() - i,
    {
        assert(paths@[i as int]@ == specs[i as int]);
        let f = match InstalledFile::new(paths[i].as_str(), snapshot, c) {
            Ok(f) => f,
            Err(e) => {
                proof {
                    assert(size_and_hash_spec(specs[i as int], *snapshot, *c) is None);
                }
                return Err(e);
            },
        };
        let ghost prev = parameters.installed_files_meta@;
        parameters.installed_files_meta.push(f);
        proof {
            let now = parameters.installed_files_meta@;
            assert(now.take(before.len() as int) =~= prev.take(before.len() as int));
            assert forall|k: int| 0 <= k < i + 1 implies {
                let g = #[trigger] now[before.len() + k];
                &&& g.dst_path@ == specs[k]
                &&& g.root is None
                &&& size_and_hash_spec(specs[k], *snapshot, *c) == Some((g.hash@, g.size))
            } by {
                if k < i {
                    assert(now[before.len() + k] == prev[before.len() + k]);
                }
            }
        }
        i += 1;
    }
    Ok(())
}

/// Adds to the files that the record tracks for the updater one entry for
/// each path of [`meta_paths_spec`], as `snapshot` shows them. Fails
/// exactly where the snapshot shows one of them as nothing that can be
/// tracked; the entries before it have been added then.
pub fn add_installer_meta(parameters: &mut StoredInstallData, c: &Config, snapshot: &FsSnapshot) -> (r:
    Result<(), FormattedError>)
    ensures
        ({
            let paths = meta_paths_spec(*c, old(parameters).fetched_meta.app_name@);
            &&& r is Ok <==> forall|i: int|
                0 <= i < paths.len() ==> size_and_hash_spec(#[trigger] paths[i], *snapshot, *c) is Some
            &&& r is Ok ==> tracked_after(
                final(parameters).installed_files_meta@,
                old(parameters).installed_files_meta@,
                paths,
                *snapshot,
                *c,
                paths.len() as int,
            )
            &&& final(parameters).installed_files == old(parameters).installed_files
            &&& final(parameters).fetched_meta == old(parameters).fetched_meta
            &&& final(parameters).installing == old(parameters).installing
        }),
{
    let paths = installer_meta_paths(parameters, c);
    track_paths(parameters, &paths, c, snapshot)
}

/// A value in the registry of Windows.
#[derive(Clone, Debug)]
pub enum RegistryData {
    Text(String),
    Number(u32),
}

/// A named value in the registry of Windows.
#[derive(Clone, Debug)]
pub struct RegistryValue {
    pub name: String,
    pub data: RegistryData,
}

/// What a registry value holds: its name and, of its text and its number,
/// the one that is set.
pub open spec fn registry_view(v: RegistryValue) -> (Seq<char>, Option<Seq<char>>, Option<u32>) {
    match v.data {
        RegistryData::Text(t) => (v.name@, Some(t@), None),
        RegistryData::Number(n) => (v.name@, None, Some(n)),
    }
}

/// What a list of registry values holds.
pub open spec fn registry_views(v: Seq<RegistryValue>) -> Seq<
    (Seq<char>, Option<Seq<char>>, Option<u32>),
> {
    Seq::new(v.len(), |i: int| registry_view(v[i]))
}

/// The key under which Windows lists the application for removal.
pub fn uninstall_regkey(c: &Config) -> (r: String)
    ensures
        r@ == "SOFTWARE\\Microsoft\\Windows\\CurrentVersion\\Uninstall\\pakked_"@ + c.pakkly_id@,
{
    str_concat(
        "SOFTWARE\\Microsoft\\Windows\\CurrentVersion\\Uninstall\\pakked_",
        c.pakkly_id.as_str(),
    )
}

fn reg_text(name: &str, text: String) -> (v: RegistryValue)
    ensures
        registry_view(v) == (name@, Some(text@), None::<u32>),
{
    RegistryValue { name: name.to_owned(), data: RegistryData::Text(text) }
}

fn reg_number(name: &str, n: u32) -> (v: RegistryValue)
    ensures
        registry_view(v) == (name@, None::<Seq<char>>, Some(n)),
{
    RegistryValue { name: name.to_owned(), data: RegistryData::Number(n) }
}

/// The values under which Windows lists the application for removal: its
/// icon, name and size, that it can be neither modified nor repaired, its
/// publisher where one is known, and how it is uninstalled with and
/// without a question. `exe` is the application's binary and `size_kb`
/// the size of the install.
pub open spec fn registry_spec(
    c: Config,
    app_name: Seq<char>,
    company: Option<Seq<char>>,
    exe: Seq<char>,
    size_kb: u32,
) -> Seq<(Seq<char>, Option<Seq<char>>, Option<u32>)> {
    seq![
        ("DisplayIcon"@, Some(exe), None::<u32>),
        ("DisplayName"@, Some(app_name), None::<u32>),
        ("EstimatedSize"@, None::<Seq<char>>, Some(size_kb)),
        ("NoModify"@, None::<Seq<char>>, Some(1u32)),
        ("NoRepair"@, None::<Seq<char>>, Some(1u32)),
    ] + (match company {
        Some(name) => seq![("Publisher"@, Some(name), None::<u32>)],
        None => Seq::empty(),
    }) + seq![
        (
            "UninstallString"@,
            Some("\""@ + join_spec(install_dir_pakkly_spec(c), "uninstall.bat"@) + "\""@),
            None::<u32>,
        ),
        (
            "QuietUninstallString"@,
            Some(
                "\""@ + join_spec(install_dir_pakkly_spec(c), pakkly_file_name_spec(c, app_name))
                    + "\" "@ + crate::defines::PAKKLY_CLI_UNINSTALL_QUIET@,
            ),
            None::<u32>,
        ),
    ]
}

/// The values under which Windows lists the application for removal.
pub fn windows_registry_setup(parameters: &StoredInstallData, c: &Config, exe: &str) -> (r: Vec<
    RegistryValue,
>)
    ensures
        registry_views(r@) == registry_spec(
            *c,
            parameters.fetched_meta.app_name@,
            match parameters.fetched_meta.company_name {
                Some(n) => Some(n@),
                None => None,
            },
            exe@,
            if total_size(parameters.installed_files@, parameters.installed_files@.len() as int)
                / 1024 > u32::MAX {
                u32::MAX
            } else {
                (total_size(parameters.installed_files@, parameters.installed_files@.len() as int)
                    / 1024) as u32
            },
        ),
{
    let mut r: Vec<RegistryValue> = Vec::new();
    r.push(reg_text("DisplayIcon", exe.to_owned()));
    r.push(reg_text("DisplayName", parameters.fetched_meta.app_name.clone()));
    r.push(reg_number("EstimatedSize", estimated_size_kb(&parameters.installed_files)));
    r.push(reg_number("NoModify", 1));
    r.push(reg_number("NoRepair", 1));
    let ghost head = registry_views(r@);
    match &parameters.fetched_meta.company_name {
        Some(name) => {
            r.push(reg_text("Publisher", name.clone()));
        },
        None => {},
    }
    let ghost with_publisher = registry_views(r@);
    proof {
        assert(with_publisher =~= head + (match parameters.fetched_meta.company_name {
            Some(name) => seq![("Publisher"@, Some(name@), None::<u32>)],
            None => Seq::empty(),
        }));
    }
    let dir = get_install_dir_pakkly(c);
    let batch = crate::paths::join(dir.as_str(), "uninstall.bat");
    r.push(reg_text("UninstallString", str_concat3("\"", batch.as_str(), "\"")));
    let updater = get_install_file_pakkly(c, parameters);
    let mut quiet = str_concat3("\"", updater.as_str(), "\" ");
    quiet.append(crate::defines::PAKKLY_CLI_UNINSTALL_QUIET);
    r.push(reg_text("QuietUninstallString", quiet));
    proof {
        assert(registry_views(r@) =~= registry_spec(
            *c,
            parameters.fetched_meta.app_name@,
            match parameters.fetched_meta.company_name {
                Some(n) => Some(n@),
                None => None,
            },
            exe@,
            if total_size(parameters.installed_files@, parameters.installed_files@.len() as int)
                / 1024 > u32::MAX {
                u32::MAX
            } else {
                (total_size(parameters.installed_files@, parameters.installed_files@.len() as int)
                    / 1024) as u32
            },
        ));
    }
    r
}

} // verus!
