//! Where the updater keeps what it installs, as paths below one root.
//!
//! Paths are text with `/` between components.
use crate::defines::{Config, Platform};
use crate::remoteinstallerdata::StoredInstallData;
use crate::text::{replace_char, replace_char_spec, starts_with_spec, str_concat, to_chars};
use vstd::prelude::*;

verus! {

/// The path `rel` resolved against `base`: an absolute `rel` stands alone,
/// otherwise it follows `base` with exactly one separator at the joint that
/// `base` does not already end in.
pub open spec fn join_spec(base: Seq<char>, rel: Seq<char>) -> Seq<char> {
    if rel.len() > 0 && rel[0] == '/' {
        rel
    } else if base.len() == 0 || base.last() == '/' {
        base + rel
    } else {
        base + seq!['/'] + rel
    }
}

/// The path `rel` resolved against `base`.
pub fn join(base: &str, rel: &str) -> (r: String)
    ensures
        r@ == join_spec(base@, rel@),
{
    let b = to_chars(base);
    let p = to_chars(rel);
    if p.len() > 0 && p[0] == '/' {
        return rel.to_owned();
    }
    if b.len() == 0 || b[b.len() - 1] == '/' {
        return str_concat(base, rel);
    }
    let mut r = base.to_owned();
    r.push('/');
    r.append(rel);
    r
}

/// Whether `path` is `base` itself or lies below it.
pub open spec fn is_inside_spec(path: Seq<char>, base: Seq<char>) -> bool {
    path == base || starts_with_spec(path, join_spec(base, Seq::<char>::empty()))
}

/// The directory that holds everything installed for one application.
pub open spec fn install_root_spec(c: Config) -> Seq<char> {
    join_spec(c.data_local_dir@, "pakked_"@ + c.pakkly_id@)
}

/// The directory `sub` below the install root.
pub open spec fn install_subdir_spec(c: Config, sub: Seq<char>) -> Seq<char> {
    join_spec(install_root_spec(c), sub)
}

/// The directory of the resident updater.
pub open spec fn install_dir_pakkly_spec(c: Config) -> Seq<char> {
    install_subdir_spec(c, "runner"@)
}

/// The suffix of an executable's file name on `platform`.
pub open spec fn extension_spec(platform: Platform) -> Seq<char> {
    match platform {
        Platform::Windows => ".exe"@,
        Platform::Macos => ".app"@,
        Platform::Linux => ""@,
    }
}

/// The file name of the resident updater: the application's name, with
/// spaces turned into underscores on Linux, and the platform's suffix.
pub open spec fn pakkly_file_name_spec(c: Config, app_name: Seq<char>) -> Seq<char> {
    (if c.platform == Platform::Linux {
        replace_char_spec(app_name, ' ', '_')
    } else {
        app_name
    }) + extension_spec(c.platform)
}

fn extension(platform: Platform) -> (r: &'static str)
    ensures
        r@ == extension_spec(platform),
{
    match platform {
        Platform::Windows => ".exe",
        Platform::Macos => ".app",
        Platform::Linux => "",
    }
}

/// The directory that holds everything installed for one application.
pub fn get_install_root(c: &Config) -> (r: String)
    ensures
        r@ == install_root_spec(*c),
{
    let name = str_concat("pakked_", c.pakkly_id.as_str());
    join(c.data_local_dir.as_str(), name.as_str())
}

/// The directory `subpath` below the install root.
pub fn get_install_subdir(c: &Config, subpath: &str) -> (r: String)
    ensures
        r@ == install_subdir_spec(*c, subpath@),
{
    let root = get_install_root(c);
    join(root.as_str(), subpath)
}

/// The file that holds the persisted install record.
pub fn get_json_path(c: &Config) -> (r: String)
    ensures
        r@ == join_spec(install_dir_pakkly_spec(*c), "pakkly.installer.json"@),
{
    let dir = get_install_dir_pakkly(c);
    join(dir.as_str(), "pakkly.installer.json")
}

/// The staging directory that a new updater is installed into before it
/// replaces the resident one.
pub fn get_install_dir_pakkly_update(c: &Config) -> (r: String)
    ensures
        r@ == install_subdir_spec(*c, "runner_update"@),
{
    get_install_subdir(c, "runner_update")
}

/// The staged updater binary.
pub fn get_install_file_pakkly_update(c: &Config, parameters: &StoredInstallData) -> (r: String)
    ensures
        r@ == join_spec(
            install_subdir_spec(*c, "runner_update"@),
            parameters.fetched_meta.app_name@ + extension_spec(c.platform),
        ),
{
    let dir = get_install_dir_pakkly_update(c);
    let name = str_concat(parameters.fetched_meta.app_name.as_str(), extension(c.platform));
    join(dir.as_str(), name.as_str())
}

/// The directory in which running updaters leave their presence records.
pub fn get_ipc_dir(c: &Config) -> (r: String)
    ensures
        r@ == join_spec(install_dir_pakkly_spec(*c), "ipc"@),
{
    let dir = get_install_subdir(c, "runner");
    join(dir.as_str(), "ipc")
}

/// The directory of the wrapped application.
pub fn get_install_path(c: &Config) -> (r: String)
    ensures
        r@ == install_subdir_spec(*c, "program"@),
{
    get_install_subdir(c, "program")
}

/// The directory of the resident updater.
pub fn get_install_dir_pakkly(c: &Config) -> (r: String)
    ensures
        r@ == install_dir_pakkly_spec(*c),
{
    get_install_subdir(c, "runner")
}

/// The resident updater binary.
pub fn get_install_file_pakkly(c: &Config, parameters: &StoredInstallData) -> (r: String)
    ensures
        r@ == join_spec(
            install_dir_pakkly_spec(*c),
            pakkly_file_name_spec(*c, parameters.fetched_meta.app_name@),
        ),
{
    let dir = get_install_dir_pakkly(c);
    let base: String = match c.platform {
        Platform::Linux => replace_char(parameters.fetched_meta.app_name.as_str(), ' ', '_'),
        _ => parameters.fetched_meta.app_name.clone(),
    };
    let name = str_concat(base.as_str(), extension(c.platform));
    join(dir.as_str(), name.as_str())
}

/// The directory that holds `path`: everything before its last separator,
/// or nothing where it has none.
pub open spec fn parent_spec(path: Seq<char>) -> Seq<char>
    decreases path.len(),
{
    if path.len() == 0 {
        path
    } else if path.last() == '/' {
        path.drop_last()
    } else {
        parent_spec(path.drop_last())
    }
}

/// The directory that holds `path`.
pub fn parent(path: &str) -> (r: String)
    ensures
        r@ == parent_spec(path@),
{
    let v = to_chars(path);
    let mut n: usize = v.len();
    proof {
        assert(v@.take(n as int) =~= v@);
    }
    while n > 0 && v[n - 1] != '/'
        invariant
            0 <= n <= v.len(),
            parent_spec(v@) == parent_spec(v@.take(n as int)),
        decreases n,
    {
        proof {
            assert(v@.take(n as int).drop_last() =~= v@.take(n as int - 1));
        }
        n -= 1;
    }
    proof {
        if n == v.len() {
            assert(v@.take(n as int) =~= v@);
        }
        if n > 0 {
            assert(v@.take(n as int).drop_last() =~= v@.take(n as int - 1));
        }
    }
    let cut: usize = if n > 0 { n - 1 } else { 0 };
    proof {
        if n == 0 {
            assert(v@.take(0) =~= Seq::<char>::empty());
        }
        assert(v@.subrange(0, cut as int) =~= v@.take(cut as int));
    }
    crate::text::substring(path, 0, cut)
}

} // verus!
