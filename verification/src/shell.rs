//! What the updater places in the user's desktop environment: shortcuts,
//! the launcher entry with its icon, and the scripts that uninstall. The
//! library lists what is written, linked and run; carrying it out is left
//! to the caller.
use crate::defines::{Config, Platform, PAKKLY_CLI_UNINSTALL};
use crate::error::{fail, FormattedError};
use crate::fslog::FsSnapshot;
use crate::installer_tools::{
    decode_icon, desktop_entry, desktop_entry_spec, icon_spec, uninstall_batch, uninstall_script,
};
use crate::paths::{
    get_install_dir_pakkly, get_install_file_pakkly, get_install_path, install_dir_pakkly_spec,
    install_subdir_spec, join, join_spec, pakkly_file_name_spec,
};
use crate::remoteinstallerdata::StoredInstallData;
use crate::sudo::{command_words, SudoCommand};
use crate::text::{str_concat, str_concat3};
use vstd::prelude::*;
use vstd::slice::slice_to_vec;
use vstd::utf8::encode_utf8;

verus! {

/// A file to write.
#[derive(Clone, Debug)]
pub struct FileWrite {
    pub path: String,
    pub content: Vec<u8>,
    /// Whether the file is made runnable.
    pub runnable: bool,
}

/// A shortcut file of Windows.
#[derive(Clone, Debug)]
pub struct Shortcut {
    /// What the shortcut starts.
    pub link_to: String,
    /// Where the shortcut file goes.
    pub write_file: String,
    /// The file whose icon the shortcut shows.
    pub icon: String,
    /// The arguments that the shortcut passes.
    pub args: String,
    /// Whether the shortcut asks for elevated rights.
    pub admin: bool,
}

/// A symlink named like `target`, made in the directory `into`.
#[derive(Clone, Debug)]
pub struct Symlink {
    pub target: String,
    pub into: String,
}

/// The directories of the user that shortcuts go to on Windows.
#[derive(Clone, Debug)]
pub struct UserDirs {
    pub desktop: String,
    /// The programs folder of the start menu.
    pub start_menu: String,
}

/// What is placed in the desktop environment.
#[derive(Clone, Debug)]
pub struct ShellPlan {
    /// The files to write, in order.
    pub writes: Vec<FileWrite>,
    /// The commands to run with elevated rights, together.
    pub elevated: Vec<SudoCommand>,
    pub symlink: Option<Symlink>,
    pub shortcuts: Vec<Shortcut>,
    /// The paths that the record tracks afterwards, in order.
    pub tracked_paths: Vec<String>,
}

/// What a [`ShellPlan`] holds, as plain values.
pub struct ShellPlanView {
    pub writes: Seq<(Seq<char>, Seq<u8>, bool)>,
    pub elevated: Seq<Seq<Seq<char>>>,
    pub symlink: Option<(Seq<char>, Seq<char>)>,
    pub shortcuts: Seq<(Seq<char>, Seq<char>, Seq<char>, Seq<char>, bool)>,
    pub tracked_paths: Seq<Seq<char>>,
}

impl ShellPlan {
    /// What this plan holds.
    pub open spec fn view(&self) -> ShellPlanView {
        ShellPlanView {
            writes: Seq::new(
                self.writes@.len(),
                |i: int| (self.writes@[i].path@, self.writes@[i].content@, self.writes@[i].runnable),
            ),
            elevated: Seq::new(self.elevated@.len(), |i: int| command_words(self.elevated@[i])),
            symlink: match self.symlink {
                Some(l) => Some((l.target@, l.into@)),
                None => None,
            },
            shortcuts: Seq::new(
                self.shortcuts@.len(),
                |i: int|
                    (
                        self.shortcuts@[i].link_to@,
                        self.shortcuts@[i].write_file@,
                        self.shortcuts@[i].icon@,
                        self.shortcuts@[i].args@,
                        self.shortcuts@[i].admin,
                    ),
            ),
            tracked_paths: crate::installer::string_views(self.tracked_paths@),
        }
    }
}

/// What the caller knows and the plan depends on.
pub struct ShellInput {
    pub config: Config,
    pub app_name: Seq<char>,
    pub description: Option<Seq<char>>,
    /// The icon of the release manifest.
    pub icon: Seq<char>,
    /// The path of the application's binary below its directory.
    pub program_path: Seq<char>,
    /// Whether this is the first install.
    pub fresh: bool,
    /// Whether nothing is done that needs elevated rights.
    pub noroot: bool,
    /// The text of the licences of what the updater is built from.
    pub licenses: Seq<char>,
    pub desktop: Seq<char>,
    pub start_menu: Seq<char>,
    pub snapshot: FsSnapshot,
}

/// The file of licences in the updater's directory.
pub open spec fn licenses_path(c: Config) -> Seq<char> {
    join_spec(install_dir_pakkly_spec(c), "OSS_LICENSES.txt"@)
}

/// The resident updater binary.
pub open spec fn installed_path(i: ShellInput) -> Seq<char> {
    join_spec(install_dir_pakkly_spec(i.config), pakkly_file_name_spec(i.config, i.app_name))
}

/// The system-wide icon of the application on Linux.
pub open spec fn png_symlink_spec(c: Config) -> Seq<char> {
    "/usr/share/icons/hicolor/256x256/apps/pak_"@ + c.pakkly_id@ + ".png"@
}

/// The system-wide launcher entry of the application on Linux.
pub open spec fn desktop_symlink_spec(c: Config) -> Seq<char> {
    "/usr/share/applications/pak_"@ + c.pakkly_id@ + ".desktop"@
}

/// The two commands that put the symlink `link` to `file` in place.
pub open spec fn relink(file: Seq<char>, link: Seq<char>) -> Seq<Seq<Seq<char>>> {
    seq![seq!["rm"@, "-f"@, link], seq!["ln"@, "-s"@, file, link]]
}

/// What is placed on Linux where elevated rights may be used, given the
/// image of the icon.
pub open spec fn linux_plan(i: ShellInput, png: Seq<u8>) -> ShellPlanView {
    let dir = install_dir_pakkly_spec(i.config);
    let png_file = join_spec(dir, "icon.png"@);
    let desktop_file = join_spec(dir, "linux.desktop"@);
    let script = join_spec(dir, "uninstall.sh"@);
    let description = match i.description {
        Some(d) => d,
        None => Seq::empty(),
    };
    ShellPlanView {
        writes: seq![
            (licenses_path(i.config), encode_utf8(i.licenses), false),
            (png_file, png, false),
            (
                desktop_file,
                encode_utf8(
                    desktop_entry_spec(
                        i.app_name,
                        description,
                        installed_path(i),
                        png_symlink_spec(i.config),
                    ),
                ),
                false,
            ),
            (
                script,
                encode_utf8("sudo "@ + installed_path(i) + " "@ + PAKKLY_CLI_UNINSTALL@),
                true,
            ),
        ],
        elevated: if i.fresh {
            relink(png_file, png_symlink_spec(i.config)) + relink(
                desktop_file,
                desktop_symlink_spec(i.config),
            )
        } else {
            Seq::empty()
        },
        symlink: None,
        shortcuts: Seq::empty(),
        tracked_paths: seq![
            licenses_path(i.config),
            script,
            png_symlink_spec(i.config),
            desktop_symlink_spec(i.config),
            png_file,
            desktop_file,
        ],
    }
}

/// What is placed where only the licences are written.
pub open spec fn bare_plan(i: ShellInput) -> ShellPlanView {
    ShellPlanView {
        writes: seq![(licenses_path(i.config), encode_utf8(i.licenses), false)],
        elevated: Seq::empty(),
        symlink: None,
        shortcuts: Seq::empty(),
        tracked_paths: seq![licenses_path(i.config)],
    }
}

/// What is placed on macOS: on the first install a link in the
/// applications folder, unless something is there already.
pub open spec fn macos_plan(i: ShellInput) -> ShellPlanView {
    let link = join_spec("/Applications"@, i.app_name + ".app"@);
    ShellPlanView {
        symlink: if i.fresh && i.snapshot.entry_spec(link) is None {
            Some((installed_path(i), "/Applications"@))
        } else {
            None
        },
        tracked_paths: seq![licenses_path(i.config), link],
        ..bare_plan(i)
    }
}

/// What is placed on Windows, given the application's binary: shortcuts on
/// the desktop and in the start menu, and a shortcut and a batch file that
/// uninstall.
pub open spec fn windows_plan(i: ShellInput, exe: Seq<char>) -> ShellPlanView {
    let dir = install_dir_pakkly_spec(i.config);
    let desktop_lnk = join_spec(i.desktop, i.app_name + ".lnk"@);
    let start_lnk = join_spec(i.start_menu, i.app_name + ".lnk"@);
    let uninstall_lnk = join_spec(dir, "Uninstall "@ + i.app_name + ".lnk"@);
    let batch = join_spec(dir, "uninstall.bat"@);
    ShellPlanView {
        writes: seq![
            (licenses_path(i.config), encode_utf8(i.licenses), false),
            (batch, encode_utf8("@echo off\r\nstart \"\" \""@ + uninstall_lnk + "\""@), false),
        ],
        elevated: Seq::empty(),
        symlink: None,
        shortcuts: seq![
            (installed_path(i), desktop_lnk, exe, ""@, false),
            (installed_path(i), start_lnk, exe, ""@, false),
            (installed_path(i), uninstall_lnk, exe, PAKKLY_CLI_UNINSTALL@, true),
        ],
        tracked_paths: seq![licenses_path(i.config), batch, desktop_lnk, uninstall_lnk, start_lnk],
    }
}

/// What is placed in the desktop environment, or `None` where it cannot
/// be: on Linux where the icon is no PNG data URI, on Windows where the
/// snapshot does not show the application's binary.
pub open spec fn shell_plan_spec(i: ShellInput) -> Option<ShellPlanView> {
    match i.config.platform {
        Platform::Linux => if i.noroot {
            Some(bare_plan(i))
        } else {
            match icon_spec(i.icon) {
                Some(png) => Some(linux_plan(i, png)),
                None => None,
            }
        },
        Platform::Macos => Some(macos_plan(i)),
        Platform::Windows => {
            let exe = join_spec(install_subdir_spec(i.config, "program"@), i.program_path);
            if i.snapshot.is_file_spec(exe) {
                Some(windows_plan(i, exe))
            } else {
                None
            }
        },
    }
}

/// The input that the arguments of [`place_icons_and_shortcuts`] make up.
pub open spec fn shell_input(
    parameters: StoredInstallData,
    c: Config,
    fresh: bool,
    noroot: bool,
    licenses: Seq<char>,
    dirs: UserDirs,
    snapshot: FsSnapshot,
) -> ShellInput {
    ShellInput {
        config: c,
        app_name: parameters.fetched_meta.app_name@,
        description: match parameters.fetched_meta.description {
            Some(d) => Some(d@),
            None => None,
        },
        icon: parameters.shipperfile->Some_0._generated.icon@,
        program_path: parameters.shipperfile->Some_0.program_path_to_binary@,
        fresh,
        noroot,
        licenses,
        desktop: dirs.desktop@,
        start_menu: dirs.start_menu@,
        snapshot,
    }
}

fn text_file(path: String, text: &str, runnable: bool) -> (w: FileWrite)
    ensures
        w.path == path,
        w.content@ == encode_utf8(text@),
        w.runnable == runnable,
{
    FileWrite { path, content: slice_to_vec(text.as_bytes()), runnable }
}

fn command3(name: &str, a: &str, b: &str) -> (c: SudoCommand)
    ensures
        command_words(c) == seq![name@, a@, b@],
{
    let mut args: Vec<String> = Vec::new();
    args.push(a.to_owned());
    args.push(b.to_owned());
    let c = SudoCommand { command: name.to_owned(), args };
    proof {
        assert(command_words(c) =~= seq![name@, a@, b@]);
    }
    c
}

fn command4(name: &str, a: &str, b: &str, d: &str) -> (c: SudoCommand)
    ensures
        command_words(c) == seq![name@, a@, b@, d@],
{
    let mut args: Vec<String> = Vec::new();
    args.push(a.to_owned());
    args.push(b.to_owned());
    args.push(d.to_owned());
    let c = SudoCommand { command: name.to_owned(), args };
    proof {
        assert(command_words(c) =~= seq![name@, a@, b@, d@]);
    }
    c
}

fn shortcut(link_to: &str, write_file: &str, icon: &str, args: &str, admin: bool) -> (s: Shortcut)
    ensures
        s.link_to@ == link_to@,
        s.write_file@ == write_file@,
        s.icon@ == icon@,
        s.args@ == args@,
        s.admin == admin,
{
    Shortcut {
        link_to: link_to.to_owned(),
        write_file: write_file.to_owned(),
        icon: icon.to_owned(),
        args: args.to_owned(),
        admin,
    }
}

/// The message of the failure that placing shortcuts without a release
/// manifest gives.
pub open spec fn no_shipperfile_msg() -> Seq<char> {
    "place_icons_and_shortcuts called without shipperfile"@
}

/// Lists what is placed in the desktop environment for the install that
/// `parameters` records. Fails where there is no release manifest, and
/// where [`shell_plan_spec`] has no answer.
pub fn place_icons_and_shortcuts(
    parameters: &StoredInstallData,
    c: &Config,
    fresh: bool,
    noroot: bool,
    licenses: &str,
    dirs: &UserDirs,
    snapshot: &FsSnapshot,
) -> (r: Result<ShellPlan, FormattedError>)
    ensures
        ({
            let i = shell_input(*parameters, *c, fresh, noroot, licenses@, *dirs, *snapshot);
            &&& r is Ok <==> parameters.shipperfile is Some && shell_plan_spec(i) is Some
            &&& r is Ok ==> shell_plan_spec(i) == Some(r->Ok_0@)
            &&& parameters.shipperfile is None ==> r->Err_0.msg@ == no_shipperfile_msg()
        }),
{
    let pf = match &parameters.shipperfile {
        Some(pf) => pf,
        None => {
            return Err(fail("place_icons_and_shortcuts called without shipperfile"));
        },
    };
    let ghost i = shell_input(*parameters, *c, fresh, noroot, licenses@, *dirs, *snapshot);
    let installed = get_install_file_pakkly(c, parameters);
    let dir = get_install_dir_pakkly(c);
    let licenses_file = join(dir.as_str(), "OSS_LICENSES.txt");
    let mut plan = ShellPlan {
        writes: Vec::new(),
        elevated: Vec::new(),
        symlink: None,
        shortcuts: Vec::new(),
        tracked_paths: Vec::new(),
    };
    plan.tracked_paths.push(licenses_file.clone());
    plan.writes.push(text_file(licenses_file, licenses, false));
    proof {
        assert(plan@.writes =~= bare_plan(i).writes);
        assert(plan@.tracked_paths =~= bare_plan(i).tracked_paths);
        assert(plan@.elevated =~= bare_plan(i).elevated);
        assert(plan@.shortcuts =~= bare_plan(i).shortcuts);
    }
    match c.platform {
        Platform::Macos => {
            let name = str_concat(parameters.fetched_meta.app_name.as_str(), ".app");
            let link = join("/Applications", name.as_str());
            if fresh && snapshot.lookup(link.as_str()).is_none() {
                plan.symlink = Some(Symlink { target: installed, into: "/Applications".to_owned() });
            }
            plan.tracked_paths.push(link);
            proof {
                assert(plan@.tracked_paths =~= macos_plan(i).tracked_paths);
                assert(plan@.writes =~= macos_plan(i).writes);
                assert(plan@.elevated =~= macos_plan(i).elevated);
                assert(plan@.shortcuts =~= macos_plan(i).shortcuts);
            }
            Ok(plan)
        },
        Platform::Linux => {
            if noroot {
                return Ok(plan);
            }
            let png = match decode_icon(pf._generated.icon.as_str()) {
                Ok(png) => png,
                Err(e) => {
                    return Err(e);
                },
            };
            let png_file = join(dir.as_str(), "icon.png");
            let png_symlink = str_concat3(
                "/usr/share/icons/hicolor/256x256/apps/pak_",
                c.pakkly_id.as_str(),
                ".png",
            );
            let desktop_file = join(dir.as_str(), "linux.desktop");
            let desktop_symlink = str_concat3(
                "/usr/share/applications/pak_",
                c.pakkly_id.as_str(),
                ".desktop",
            );
            let script = join(dir.as_str(), "uninstall.sh");
            let description: String = match &parameters.fetched_meta.description {
                Some(d) => d.clone(),
                None => String::new(),
            };
            let entry = desktop_entry(
                parameters.fetched_meta.app_name.as_str(),
                description.as_str(),
                installed.as_str(),
                png_symlink.as_str(),
            );
            let script_text = uninstall_script(installed.as_str());
            plan.writes.push(FileWrite { path: png_file.clone(), content: png, runnable: false });
            plan.writes.push(text_file(desktop_file.clone(), entry.as_str(), false));
            plan.writes.push(text_file(script.clone(), script_text.as_str(), true));
            if fresh {
                plan.elevated.push(command3("rm", "-f", png_symlink.as_str()));
                plan.elevated.push(
                    command4("ln", "-s", png_file.as_str(), png_symlink.as_str()),
                );
                plan.elevated.push(command3("rm", "-f", desktop_symlink.as_str()));
                plan.elevated.push(
                    command4("ln", "-s", desktop_file.as_str(), desktop_symlink.as_str()),
                );
            }
            plan.tracked_paths.push(script);
            plan.tracked_paths.push(png_symlink);
            plan.tracked_paths.push(desktop_symlink);
            plan.tracked_paths.push(png_file);
            plan.tracked_paths.push(desktop_file);
            proof {
                let want = linux_plan(i, icon_spec(i.icon)->Some_0);
                assert(plan@.writes =~= want.writes);
                assert(plan@.elevated =~= want.elevated);
                assert(plan@.shortcuts =~= want.shortcuts);
                assert(plan@.tracked_paths =~= want.tracked_paths);
            }
            Ok(plan)
        },
        Platform::Windows => {
            let program_dir = get_install_path(c);
            let exe = join(program_dir.as_str(), pf.program_path_to_binary.as_str());
            if !snapshot.is_file(exe.as_str()) {
                return Err(fail("Executable of the application not found"));
            }
            let lnk_name = str_concat(parameters.fetched_meta.app_name.as_str(), ".lnk");
            let desktop_lnk = join(dirs.desktop.as_str(), lnk_name.as_str());
            let start_lnk = join(dirs.start_menu.as_str(), lnk_name.as_str());
            let uninstall_name = str_concat3(
                "Uninstall ",
                parameters.fetched_meta.app_name.as_str(),
                ".lnk",
            );
            let uninstall_lnk = join(dir.as_str(), uninstall_name.as_str());
            let batch = join(dir.as_str(), "uninstall.bat");
            let batch_text = uninstall_batch(uninstall_lnk.as_str());
            plan.writes.push(text_file(batch.clone(), batch_text.as_str(), false));
            plan.shortcuts.push(
                shortcut(installed.as_str(), desktop_lnk.as_str(), exe.as_str(), "", false),
            );
            plan.shortcuts.push(
                shortcut(installed.as_str(), start_lnk.as_str(), exe.as_str(), "", false),
            );
            plan.shortcuts.push(
                shortcut(
                    installed.as_str(),
                    uninstall_lnk.as_str(),
                    exe.as_str(),
                    PAKKLY_CLI_UNINSTALL,
                    true,
                ),
            );
            plan.tracked_paths.push(batch);
            plan.tracked_paths.push(desktop_lnk);
            plan.tracked_paths.push(uninstall_lnk);
            plan.tracked_paths.push(start_lnk);
            proof {
                let want = windows_plan(i, exe@);
                assert(plan@.writes =~= want.writes);
                assert(plan@.elevated =~= want.elevated);
                assert(plan@.shortcuts =~= want.shortcuts);
                assert(plan@.tracked_paths =~= want.tracked_paths);
            }
            Ok(plan)
        },
    }
}

} // verus!
