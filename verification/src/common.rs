//! Small decisions shared by the installer, the uninstaller and startup.
use crate::defines::{Config, Platform};
use crate::fslog::FsSnapshot;
use crate::error::{fail, FormattedError};
use crate::paths::{
    get_install_dir_pakkly, get_install_path, install_dir_pakkly_spec, install_subdir_spec,
    is_inside_spec, join, join_spec,
};
use crate::remoteinstallerdata::StoredInstallData;
use crate::decimal::{decimal_text, format_u64};
use crate::defines::Arch;
use crate::hexcodec::{hex_encode, hex_encode_spec};
use crate::paths::{parent, parent_spec};
use crate::shipperfile::clone_strings;
use crate::text::{
    contains_spec, starts_with_spec, str_concat, str_contains, str_eq, str_starts_with, substring,
    to_chars,
};
use vstd::prelude::*;

verus! {

/// Which screen the installer window shows.
#[derive(Clone, Copy, Debug, PartialEq, Eq, Structural)]
pub enum SceneID {
    InstallPrompt,
    InstallProgress,
}

/// Which of the two phases a progress report belongs to.
#[derive(Clone, Copy, Debug, PartialEq, Eq, Structural)]
pub enum InstallProgressSegment {
    Downloading,
    Installing,
}

/// How an attended install ended.
#[derive(Clone, Copy, Debug, PartialEq, Eq, Structural)]
pub enum CrashState {
    UserAbort,
    NoError,
    FatalError,
    NetworkError,
    InstallFailed,
}

impl SceneID {
    /// The number the window's script knows this scene by.
    pub fn code(self) -> (r: i32)
        ensures
            r == match self {
                SceneID::InstallPrompt => 0i32,
                SceneID::InstallProgress => 1i32,
            },
    {
        match self {
            SceneID::InstallPrompt => 0,
            SceneID::InstallProgress => 1,
        }
    }
}

impl InstallProgressSegment {
    /// The number the window's script knows this phase by.
    pub fn code(self) -> (r: i32)
        ensures
            r == match self {
                InstallProgressSegment::Downloading => 0i32,
                InstallProgressSegment::Installing => 1i32,
            },
    {
        match self {
            InstallProgressSegment::Downloading => 0,
            InstallProgressSegment::Installing => 1,
        }
    }
}

/// Whether `path` is exempt from hash comparison: it lies in a
/// `node_modules` tree or in the directory of the resident updater.
pub open spec fn is_hash_whitelisted_spec(path: Seq<char>, c: Config) -> bool {
    contains_spec(path, "node_modules"@) || is_inside_spec(path, install_dir_pakkly_spec(c))
}

/// Whether `path` is `base` itself or lies below it.
pub fn is_inside(path: &str, base: &str) -> (r: bool)
    ensures
        r == is_inside_spec(path@, base@),
{
    if str_eq(path, base) {
        return true;
    }
    let prefix = join(base, "");
    proof {
        reveal_strlit("");
        assert(""@ =~= Seq::<char>::empty());
    }
    str_starts_with(path, prefix.as_str())
}

/// Whether `path` is exempt from hash comparison. Such a path is always
/// treated as changed.
pub fn is_hash_whitelisted(path: &str, c: &Config) -> (r: bool)
    ensures
        r == is_hash_whitelisted_spec(path@, *c),
{
    if str_contains(path, "node_modules") {
        return true;
    }
    let runner = get_install_dir_pakkly(c);
    is_inside(path, runner.as_str())
}

/// The path `path` as text of its own.
pub fn path_str(path: &str) -> (r: String)
    ensures
        r@ == path@,
{
    path.to_owned()
}

/// Seconds to wait for the delivery server: long while nothing is installed
/// yet, short for a routine check.
pub fn get_standard_timeout(fresh_install: bool) -> (secs: u64)
    ensures
        secs == if fresh_install { 60u64 } else { 3u64 },
{
    if fresh_install {
        60
    } else {
        3
    }
}

/// The file `gb` below `search_folder`, where `snapshot` shows a regular
/// file there.
pub fn find_file_joined(gb: &str, search_folder: &str, snapshot: &FsSnapshot) -> (r: Option<String>)
    ensures
        match r {
            Some(p) => p@ == join_spec(search_folder@, gb@) && snapshot.is_file_spec(p@),
            None => !snapshot.is_file_spec(join_spec(search_folder@, gb@)),
        },
{
    let complete_path = join(search_folder, gb);
    if snapshot.is_file(complete_path.as_str()) {
        return Some(complete_path);
    }
    None
}

/// The message of the failure that looking for an executable without a
/// release manifest gives.
pub open spec fn no_manifest_msg() -> Seq<char> {
    "find_executable_path called without pakklyfile!"@
}

/// The binary that the release manifest of `params` names, looked for in
/// `in_folder` or, where none is given, in the application's directory.
/// Fails exactly where `params` holds no release manifest.
pub fn find_executable_path(
    params: &StoredInstallData,
    in_folder: Option<&String>,
    c: &Config,
    snapshot: &FsSnapshot,
) -> (r: Result<Option<String>, FormattedError>)
    ensures
        params.shipperfile is None <==> r is Err,
        r is Err ==> r->Err_0.msg@ == no_manifest_msg(),
        r is Ok ==> ({
            let folder = match in_folder {
                Some(f) => f@,
                None => install_subdir_spec(*c, "program"@),
            };
            let full = join_spec(folder, params.shipperfile->Some_0.program_path_to_binary@);
            match r->Ok_0 {
                Some(p) => p@ == full && snapshot.is_file_spec(full),
                None => !snapshot.is_file_spec(full),
            }
        }),
{
    let def = get_install_path(c);
    let search_folder: &str = match in_folder {
        Some(f) => f.as_str(),
        None => def.as_str(),
    };
    match &params.shipperfile {
        Some(pf) => Ok(find_file_joined(pf.program_path_to_binary.as_str(), search_folder, snapshot)),
        None => Err(fail("find_executable_path called without pakklyfile!")),
    }
}

/// How the wrapped application is started.
#[derive(Clone, Debug)]
pub struct LaunchPlan {
    pub executable: String,
    pub working_dir: String,
    pub args: Vec<String>,
}

/// The message of the failure that launching without a release manifest
/// gives.
pub open spec fn launch_without_manifest_msg() -> Seq<char> {
    "execute_program_and_terminate called without pakklyfile!"@
}

/// How the application that `local_data` describes is started: the binary
/// that the release manifest names, in the working directory that the
/// manifest names or else in the binary's own directory, with the
/// arguments of the manifest. Fails exactly where there is no release
/// manifest or `snapshot` does not show the binary.
pub fn execute_program_and_terminate(local_data: &StoredInstallData, c: &Config, snapshot: &FsSnapshot) -> (r:
    Result<LaunchPlan, FormattedError>)
    ensures
        ({
            let exe = join_spec(
                install_subdir_spec(*c, "program"@),
                local_data.shipperfile->Some_0.program_path_to_binary@,
            );
            &&& r is Ok <==> local_data.shipperfile is Some && snapshot.is_file_spec(exe)
            &&& r is Ok ==> {
                let pf = local_data.shipperfile->Some_0;
                &&& r->Ok_0.executable@ == exe
                &&& r->Ok_0.working_dir@ == match pf.program_working_subdirectory {
                    Some(d) => d@,
                    None => parent_spec(exe),
                }
                &&& r->Ok_0.args@ == match pf.program_arguments {
                    Some(a) => a@,
                    None => Seq::<String>::empty(),
                }
            }
        }),
{
    let pf = match &local_data.shipperfile {
        Some(pf) => pf,
        None => {
            return Err(fail("execute_program_and_terminate called without pakklyfile!"));
        },
    };
    let executable = match find_executable_path(local_data, None, c, snapshot) {
        Ok(Some(p)) => p,
        Ok(None) => {
            return Err(fail("Executable of the application not found"));
        },
        Err(e) => {
            return Err(e);
        },
    };
    let working_dir = match &pf.program_working_subdirectory {
        Some(d) => d.clone(),
        None => parent(executable.as_str()),
    };
    let args = match &pf.program_arguments {
        Some(a) => clone_strings(a),
        None => Vec::new(),
    };
    Ok(LaunchPlan { executable, working_dir, args })
}

/// The hexadecimal text of `stamp`. It serves as a name that differs from
/// one moment to the next where `stamp` is the time as text.
pub fn random_hash(stamp: &[u8]) -> (r: String)
    ensures
        r@ == hex_encode_spec(stamp@),
{
    hex_encode(stamp)
}

/// Whether the entry `path` lies below the directory `root`, not counting
/// `root` itself.
pub open spec fn lies_below(path: Seq<char>, root: Seq<char>) -> bool {
    let prefix = join_spec(root, Seq::<char>::empty());
    starts_with_spec(path, prefix) && path.len() > prefix.len()
}

/// The paths among the first `n` entries of `snapshot` that lie below
/// `root`; as they stand, or relative to `root` where `relative` is set.
pub open spec fn listed_upto(snapshot: FsSnapshot, root: Seq<char>, relative: bool, n: int) -> Seq<
    Seq<char>,
>
    decreases n,
{
    if n <= 0 {
        Seq::empty()
    } else {
        let p = snapshot.entries@[n - 1].path@;
        if lies_below(p, root) {
            listed_upto(snapshot, root, relative, n - 1).push(
                if relative {
                    p.skip(join_spec(root, Seq::<char>::empty()).len() as int)
                } else {
                    p
                },
            )
        } else {
            listed_upto(snapshot, root, relative, n - 1)
        }
    }
}

fn list_below(snapshot: &FsSnapshot, root: &str, relative: bool) -> (r: Vec<String>)
    ensures
        crate::installer::string_views(r@) == listed_upto(
            *snapshot,
            root@,
            relative,
            snapshot.entries@.len() as int,
        ),
{
    let prefix = join(root, "");
    let plen = to_chars(prefix.as_str()).len();
    proof {
        reveal_strlit("");
        assert(""@ =~= Seq::<char>::empty());
    }
    let mut r: Vec<String> = Vec::new();
    let mut i: usize = 0;
    proof {
        assert(crate::installer::string_views(r@) =~= Seq::empty());
    }
    while i < snapshot.entries.len()
        invariant
            0 <= i <= snapshot.entries.len(),
            prefix@ == join_spec(root@, Seq::<char>::empty()),
            plen == prefix@.len(),
            crate::installer::string_views(r@) == listed_upto(*snapshot, root@, relative, i as int),
        decreases snapshot.entries.len() - i,
    {
        let p = snapshot.entries[i].path.as_str();
        let n = to_chars(p).len();
        if str_starts_with(p, prefix.as_str()) && n > plen {
            let ghost before = r@;
            let item = if relative {
                substring(p, plen, n)
            } else {
                p.to_owned()
            };
            proof {
                assert(p@.subrange(plen as int, n as int) =~= p@.skip(plen as int));
            }
            r.push(item);
            proof {
                assert(crate::installer::string_views(r@) =~= crate::installer::string_views(
                    before,
                ).push(item@));
            }
        }
        i += 1;
    }
    r
}

/// Every file and directory that `snapshot` shows below `root`, by its
/// full path, in the order of the snapshot.
pub fn all_absolute_files_in_folder_recursive(root: &str, snapshot: &FsSnapshot) -> (r: Vec<String>)
    ensures
        crate::installer::string_views(r@) == listed_upto(
            *snapshot,
            root@,
            false,
            snapshot.entries@.len() as int,
        ),
{
    list_below(snapshot, root, false)
}

/// Every file and directory that `snapshot` shows below `root`, by its
/// path relative to `root`, in the order of the snapshot.
pub fn all_relative_files_in_folder_recursive(root: &str, snapshot: &FsSnapshot) -> (r: Vec<String>)
    ensures
        crate::installer::string_views(r@) == listed_upto(
            *snapshot,
            root@,
            true,
            snapshot.entries@.len() as int,
        ),
{
    list_below(snapshot, root, true)
}

/// A relative path listed below `root` leads back to the entry it was
/// listed for: joined to `root` it is the entry's full path, unless the
/// relative path itself begins with a separator.
pub proof fn lemma_relative_joins_back(path: Seq<char>, root: Seq<char>)
    requires
        lies_below(path, root),
        path[join_spec(root, Seq::<char>::empty()).len() as int] != '/',
    ensures
        join_spec(root, path.skip(join_spec(root, Seq::<char>::empty()).len() as int)) == path,
{
    let prefix = join_spec(root, Seq::<char>::empty());
    let rel = path.skip(prefix.len() as int);
    assert(path.subrange(0, prefix.len() as int) == prefix);
    assert(rel[0] == path[prefix.len() as int]);
    if root.len() == 0 || root.last() == '/' {
        assert(prefix =~= root);
        assert(root + rel =~= path);
    } else {
        assert(prefix =~= root + seq!['/']);
        assert(root + seq!['/'] + rel =~= path);
    }
}

/// One parameter of a request to the delivery server.
#[derive(Clone, Debug)]
pub struct QueryParam {
    pub name: String,
    pub value: String,
}

/// What a list of parameters holds.
pub open spec fn query_views(q: Seq<QueryParam>) -> Seq<(Seq<char>, Seq<char>)> {
    Seq::new(q.len(), |i: int| (q[i].name@, q[i].value@))
}

/// The pair for an optional parameter.
pub open spec fn optional_param(name: Seq<char>, value: Option<Seq<char>>) -> Seq<
    (Seq<char>, Seq<char>),
> {
    match value {
        Some(v) => seq![(name, v)],
        None => Seq::empty(),
    }
}

/// The parameters of the request for update information: the application,
/// the platform, the updater's version and channel, then the installed
/// version of the application where there is an install, then the exact
/// versions asked for, where any are.
pub open spec fn update_query_spec(
    c: Config,
    platform_type: i32,
    app_version: Option<Seq<char>>,
    new_app: Option<Seq<char>>,
    new_shipper: Option<Seq<char>>,
) -> Seq<(Seq<char>, Seq<char>)> {
    seq![
        ("app_id"@, c.pakkly_id@),
        ("platform_type"@, decimal_text(platform_type as nat)),
        ("shipper_version"@, c.shipper_version@),
        ("channel"@, c.shipper_channel@),
    ] + optional_param("app_version"@, app_version) + optional_param("new_app_version"@, new_app)
        + optional_param("new_shipper_version"@, new_shipper)
}

fn param(name: &str, value: &str) -> (p: QueryParam)
    ensures
        p.name@ == name@,
        p.value@ == value@,
{
    QueryParam { name: name.to_owned(), value: value.to_owned() }
}

/// The address that update information is asked from.
pub fn update_info_url(c: &Config) -> (r: String)
    ensures
        r@ == c.remote_url@ + "/api/v1/shipper/info"@,
{
    str_concat(c.remote_url.as_str(), "/api/v1/shipper/info")
}

/// The address that failures are reported to.
pub fn crashlog_url(c: &Config) -> (r: String)
    ensures
        r@ == c.remote_url@ + "/api/v1/shipper/error"@,
{
    str_concat(c.remote_url.as_str(), "/api/v1/shipper/error")
}

/// The parameters of the request for update information on a processor
/// of kind `arch`, or `None` where no release exists for the platform.
pub fn get_update_info(
    c: &Config,
    arch: Arch,
    current_data: Option<&StoredInstallData>,
    new_app: &Option<String>,
    new_shipper: &Option<String>,
) -> (r: Option<Vec<QueryParam>>)
    ensures
        r is Some <==> c.platform.platform_type_spec(arch) is Some,
        r is Some ==> query_views(r->Some_0@) == update_query_spec(
            *c,
            c.platform.platform_type_spec(arch)->Some_0,
            match current_data {
                Some(d) => Some(d.installed_app_info.version@),
                None => None,
            },
            match new_app {
                Some(v) => Some(v@),
                None => None,
            },
            match new_shipper {
                Some(v) => Some(v@),
                None => None,
            },
        ),
{
    let platform_type: i32 = match c.platform.platform_type(arch) {
        Some(n) => n,
        None => {
            return None;
        },
    };
    let mut q: Vec<QueryParam> = Vec::new();
    q.push(param("app_id", c.pakkly_id.as_str()));
    let pt = format_u64(platform_type as u64);
    q.push(param("platform_type", pt.as_str()));
    q.push(param("shipper_version", c.shipper_version.as_str()));
    q.push(param("channel", c.shipper_channel.as_str()));
    let ghost base = query_views(q@);
    proof {
        assert(base =~= seq![
            ("app_id"@, c.pakkly_id@),
            ("platform_type"@, decimal_text(platform_type as nat)),
            ("shipper_version"@, c.shipper_version@),
            ("channel"@, c.shipper_channel@),
        ]);
    }
    match current_data {
        Some(d) => {
            q.push(param("app_version", d.installed_app_info.version.as_str()));
        },
        None => {},
    }
    let ghost with_app = query_views(q@);
    proof {
        assert(with_app =~= base + optional_param(
            "app_version"@,
            match current_data {
                Some(d) => Some(d.installed_app_info.version@),
                None => None,
            },
        ));
    }
    match new_app {
        Some(v) => {
            q.push(param("new_app_version", v.as_str()));
        },
        None => {},
    }
    let ghost with_new_app = query_views(q@);
    proof {
        assert(with_new_app =~= with_app + optional_param(
            "new_app_version"@,
            match new_app {
                Some(v) => Some(v@),
                None => None,
            },
        ));
    }
    match new_shipper {
        Some(v) => {
            q.push(param("new_shipper_version", v.as_str()));
        },
        None => {},
    }
    proof {
        assert(query_views(q@) =~= with_new_app + optional_param(
            "new_shipper_version"@,
            match new_shipper {
                Some(v) => Some(v@),
                None => None,
            },
        ));
    }
    Some(q)
}

/// A report of a failure to the developers.
#[derive(Clone, Debug)]
pub struct ErrorStruct {
    pub data: String,
    pub app_id: String,
    /// `basic` for a message, `dump` for the crash log.
    pub kind: String,
    pub os: String,
    pub architecture: String,
    pub shipper_version: String,
}

/// The name of `platform` in a report.
pub fn os_name(platform: Platform) -> (r: &'static str)
    ensures
        r@ == match platform {
            Platform::Windows => "windows"@,
            Platform::Macos => "macos"@,
            Platform::Linux => "linux"@,
        },
{
    match platform {
        Platform::Windows => "windows",
        Platform::Macos => "macos",
        Platform::Linux => "linux",
    }
}

/// The name of `arch` in a report.
pub fn arch_name(arch: Arch) -> (r: &'static str)
    ensures
        r@ == match arch {
            Arch::X86 => "x86"@,
            Arch::X86_64 => "x86_64"@,
            Arch::Aarch64 => "arm_64"@,
        },
{
    match arch {
        Arch::X86 => "x86",
        Arch::X86_64 => "x86_64",
        Arch::Aarch64 => "arm_64",
    }
}

/// The report of a failure with the short message `err`.
pub fn submit_basic_crash(err: &str, c: &Config, arch: Arch) -> (es: ErrorStruct)
    ensures
        es.data@ == err@,
        es.kind@ == "basic"@,
        es.app_id@ == c.pakkly_id@,
        es.os@ == os_name_spec(c.platform),
        es.architecture@ == arch_name_spec(arch),
        es.shipper_version@ == c.shipper_version@,
{
    ErrorStruct {
        data: err.to_owned(),
        app_id: c.pakkly_id.clone(),
        kind: "basic".to_owned(),
        os: os_name(c.platform).to_owned(),
        architecture: arch_name(arch).to_owned(),
        shipper_version: c.shipper_version.clone(),
    }
}

/// The report of a crash with the crash log `log`, which goes out as
/// hexadecimal text.
pub fn submit_critical_error(log: &[u8], c: &Config, arch: Arch) -> (es: ErrorStruct)
    ensures
        es.data@ == hex_encode_spec(log@),
        es.kind@ == "dump"@,
        es.app_id@ == c.pakkly_id@,
        es.os@ == os_name_spec(c.platform),
        es.architecture@ == arch_name_spec(arch),
        es.shipper_version@ == c.shipper_version@,
{
    ErrorStruct {
        data: hex_encode(log),
        app_id: c.pakkly_id.clone(),
        kind: "dump".to_owned(),
        os: os_name(c.platform).to_owned(),
        architecture: arch_name(arch).to_owned(),
        shipper_version: c.shipper_version.clone(),
    }
}

/// The name of `platform` in a report.
pub open spec fn os_name_spec(platform: Platform) -> Seq<char> {
    match platform {
        Platform::Windows => "windows"@,
        Platform::Macos => "macos"@,
        Platform::Linux => "linux"@,
    }
}

/// The name of `arch` in a report.
pub open spec fn arch_name_spec(arch: Arch) -> Seq<char> {
    match arch {
        Arch::X86 => "x86"@,
        Arch::X86_64 => "x86_64"@,
        Arch::Aarch64 => "arm_64"@,
    }
}

/// The first `n` characters of `s` with a backslash put before every
/// double quote.
pub open spec fn escaped_upto(s: Seq<char>, n: int) -> Seq<char>
    decreases n,
{
    if n <= 0 {
        Seq::empty()
    } else if s[n - 1] == '"' {
        escaped_upto(s, n - 1).push('\\').push('"')
    } else {
        escaped_upto(s, n - 1).push(s[n - 1])
    }
}

/// The text `s` with a backslash put before every double quote.
pub fn escape_quotes(s: &str) -> (r: String)
    ensures
        r@ == escaped_upto(s@, s@.len() as int),
{
    let v = to_chars(s);
    let mut r = String::new();
    let mut i: usize = 0;
    while i < v.len()
        invariant
            0 <= i <= v.len(),
            v@ == s@,
            r@ == escaped_upto(v@, i as int),
        decreases v.len() - i,
    {
        if v[i] == '"' {
            r.push('\\');
            r.push('"');
        } else {
            r.push(v[i]);
        }
        i += 1;
    }
    r
}

/// The script that makes the installer window show `scene` for the
/// application `app_name`.
pub fn set_scene_direct(scene: SceneID, app_name: &str) -> (r: String)
    ensures
        r@ == "setSceneID("@ + (match scene {
            SceneID::InstallPrompt => "0"@,
            SceneID::InstallProgress => "1"@,
        }) + ",\""@ + escaped_upto(app_name@, app_name@.len() as int) + "\")"@,
{
    let code: &str = match scene {
        SceneID::InstallPrompt => "0",
        SceneID::InstallProgress => "1",
    };
    let name = escape_quotes(app_name);
    let mut r = str_concat("setSceneID(", code);
    r.append(",\"");
    r.append(name.as_str());
    r.append("\")");
    r
}

} // verus!
