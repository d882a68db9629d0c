//! The diff-update planner: which files of a new release must be copied
//! over an existing install, what has to be prepared and checked before the
//! first byte is overwritten, and what is removed afterwards.
use crate::common::{is_hash_whitelisted, is_hash_whitelisted_spec};
use crate::defines::{
    always_chars, defer_chars, directory_chars, hash_always_replace, hash_defer, hash_directory,
    Config,
};
use crate::error::{fail, FormattedError};
use crate::fslog::FsSnapshot;
use crate::hasher::hash_text_spec;
use crate::hexcodec::{hex_decode, hex_decode_spec};
use crate::paths::{join, join_spec, parent, parent_spec};
use crate::cycle::{DiffUpdate, UpdatePhase};
use crate::remoteinstallerdata::{size_and_hash_spec, InstalledFile, StoredInstallData};
use crate::arrangement::lemma_arrangement_covers;
use crate::sorting::{lemma_order_desc, order_desc, stable_order_desc};
use crate::text::str_eq;
use vstd::bytes::{spec_u64_to_le_bytes, u64_to_le_bytes};
use vstd::prelude::*;

verus! {

/// One planned copy: the file `from_path` of the unpacked release goes to
/// `to_path` in the install.
#[derive(Clone, Debug)]
pub struct UpdateFileInfo {
    pub from_path: String,
    pub to_path: String,
}

/// What a step of preparation does to its path.
#[derive(Clone, Copy, Debug, PartialEq, Eq, Structural)]
pub enum PrepKind {
    /// Delete a directory and all below it.
    RemoveDirAll,
    /// Delete a file.
    RemoveFile,
    /// Create a directory and the directories above it.
    CreateDirAll,
    /// Open a file for reading, to see that it can be read.
    CheckReadable,
    /// Open a file that is there for writing, without truncating it, to see
    /// that it can be written.
    CheckWritable,
    /// Create an empty file.
    CreateFile,
}

/// One step on a path of the install or of the unpacked release. The two
/// checks change nothing; they are carried out before the record is marked.
/// Every other step is carried out after the record was marked and before
/// the first file is overwritten.
#[derive(Clone, Debug)]
pub struct Preparation {
    pub kind: PrepKind,
    pub path: String,
}

/// What the planner is given besides the paths of the release.
pub struct PlanContext {
    /// The directory the release was unpacked into.
    pub unzip_path: Seq<char>,
    /// The directory of the install.
    pub target_directory: Seq<char>,
    /// The entries of the previous install record.
    pub app_files: Seq<InstalledFile>,
    /// The unpacked release as it was observed.
    pub scratch: FsSnapshot,
    /// The install as it was observed.
    pub target: FsSnapshot,
    pub config: Config,
}

/// What the planner decides for one path of the release.
pub struct PathPlan {
    /// The checks that come before the record is marked.
    pub checks: Seq<(PrepKind, Seq<char>)>,
    /// The steps that come after the record was marked, before any copy.
    pub preps: Seq<(PrepKind, Seq<char>)>,
    /// Whether the file is copied.
    pub copy: bool,
    /// The hash recorded for the path.
    pub hash: Seq<char>,
    /// The size recorded for the path.
    pub size: u64,
}

/// The position at or after `from` of the first entry of `files` that
/// tracks the relative path `rel`.
pub open spec fn first_tracked_from(files: Seq<InstalledFile>, rel: Seq<char>, from: int) -> Option<
    int,
>
    decreases files.len() - from,
{
    if from < 0 || from >= files.len() {
        None
    } else if files[from].dst_path@ == rel {
        Some(from)
    } else {
        first_tracked_from(files, rel, from + 1)
    }
}

/// Whether some entry of `files` tracks the relative path `rel`.
pub open spec fn is_tracked(files: Seq<InstalledFile>, rel: Seq<char>) -> bool {
    first_tracked_from(files, rel, 0) is Some
}

/// What `first_tracked_from` finds: an entry with that path before which
/// none has it, or nothing where no entry has it.
pub proof fn lemma_first_tracked_from(files: Seq<InstalledFile>, rel: Seq<char>, from: int)
    requires
        0 <= from,
    ensures
        match first_tracked_from(files, rel, from) {
            Some(i) => from <= i < files.len() && files[i].dst_path@ == rel && forall|k: int|
                from <= k < i ==> (#[trigger] files[k]).dst_path@ != rel,
            None => forall|k: int| from <= k < files.len() ==> (#[trigger] files[k]).dst_path@ != rel,
        },
    decreases files.len() - from,
{
    if from < files.len() && files[from].dst_path@ != rel {
        lemma_first_tracked_from(files, rel, from + 1);
    }
}

/// The position of the first entry of `files` that tracks `rel`.
pub fn find_tracked(files: &Vec<InstalledFile>, rel: &str) -> (r: Option<usize>)
    ensures
        match r {
            Some(i) => first_tracked_from(files@, rel@, 0) == Some(i as int) && i < files@.len(),
            None => first_tracked_from(files@, rel@, 0) is None,
        },
{
    let mut i: usize = 0;
    while i < files.len()
        invariant
            0 <= i <= files.len(),
            first_tracked_from(files@, rel@, 0) == first_tracked_from(files@, rel@, i as int),
        decreases files.len() - i,
    {
        if str_eq(files[i].dst_path.as_str(), rel) {
            return Some(i);
        }
        i += 1;
    }
    None
}

/// The two checks that come before a copy onto a file that is there.
pub open spec fn checks_for_replace(src: Seq<char>, dst: Seq<char>) -> Seq<(PrepKind, Seq<char>)> {
    seq![(PrepKind::CheckReadable, src), (PrepKind::CheckWritable, dst)]
}

/// The steps that make the destination of a copy that is not there yet.
pub open spec fn steps_for_new(dst: Seq<char>) -> Seq<(PrepKind, Seq<char>)> {
    seq![(PrepKind::CreateDirAll, parent_spec(dst)), (PrepKind::CreateFile, dst)]
}

/// What the planner decides for the path `rel` of the release, or `None`
/// where the decision needs a hash that cannot be had: the stored hash of a
/// tracked file is no hexadecimal text, or the incoming file was not
/// hashed.
///
/// - Where release and install both have a directory, nothing is done.
/// - Where one has a directory and the other a file, the node in the install
///   is deleted and the path is treated as new.
/// - A directory that the install lacks is created.
/// - A file that is not tracked, or that the install lacks, is always
///   copied; its destination is created first.
/// - A tracked file that is there is copied where it is exempt from hash
///   comparison or where the stored hash differs from the hash of the
///   incoming file; otherwise it is skipped and recorded with its stored
///   hash and the size the install shows.
/// - Whatever is copied is recorded with a deferred hash, which is
///   resolved together with the size once the copy has landed.
pub open spec fn plan_path(ctx: PlanContext, rel: Seq<char>) -> Option<PathPlan> {
    let src = join_spec(ctx.unzip_path, rel);
    let dst = join_spec(ctx.target_directory, rel);
    let src_dir = ctx.scratch.is_dir_spec(src);
    let dst_exists = ctx.target.exists_spec(dst);
    let dst_dir = ctx.target.is_dir_spec(dst);
    if dst_exists && dst_dir && src_dir {
        Some(
            PathPlan {
                checks: Seq::empty(),
                preps: Seq::empty(),
                copy: false,
                hash: if ctx.target.entry_spec(dst)->Some_0.is_symlink {
                    always_chars()
                } else {
                    directory_chars()
                },
                size: 0,
            },
        )
    } else {
        let flipped = dst_exists && dst_dir != src_dir;
        let removal = if flipped {
            seq![(if dst_dir { PrepKind::RemoveDirAll } else { PrepKind::RemoveFile }, dst)]
        } else {
            Seq::empty()
        };
        if src_dir {
            Some(
                PathPlan {
                    checks: Seq::empty(),
                    preps: removal + seq![(PrepKind::CreateDirAll, dst)],
                    copy: false,
                    hash: directory_chars(),
                    size: 0,
                },
            )
        } else if flipped || !dst_exists || !is_tracked(ctx.app_files, rel) {
            Some(
                PathPlan {
                    checks: seq![(PrepKind::CheckReadable, src)],
                    preps: removal + steps_for_new(dst),
                    copy: true,
                    hash: defer_chars(),
                    size: 0,
                },
            )
        } else if !is_hash_whitelisted_spec(rel, ctx.config) {
            let known = ctx.app_files[first_tracked_from(ctx.app_files, rel, 0)->Some_0];
            match (hex_decode_spec(known.hash@), ctx.scratch.entry_spec(src)) {
                (Some(stored), Some(e)) => match e.hash {
                    Some(h) => if stored != spec_u64_to_le_bytes(h) {
                        Some(
                            PathPlan {
                                checks: checks_for_replace(src, dst),
                                preps: Seq::empty(),
                                copy: true,
                                hash: defer_chars(),
                                size: 0,
                            },
                        )
                    } else {
                        Some(
                            PathPlan {
                                checks: Seq::empty(),
                                preps: Seq::empty(),
                                copy: false,
                                hash: known.hash@,
                                size: ctx.target.entry_spec(dst)->Some_0.size,
                            },
                        )
                    },
                    None => None,
                },
                _ => None,
            }
        } else {
            Some(
                PathPlan {
                    checks: checks_for_replace(src, dst),
                    preps: Seq::empty(),
                    copy: true,
                    hash: defer_chars(),
                    size: 0,
                },
            )
        }
    }
}

/// Steps as pairs of kind and path.
pub open spec fn prep_views(preps: Seq<Preparation>) -> Seq<(PrepKind, Seq<char>)> {
    Seq::new(preps.len(), |i: int| (preps[i].kind, preps[i].path@))
}

/// The planned copies as pairs of source and destination.
pub open spec fn copy_views(copies: Seq<UpdateFileInfo>) -> Seq<(Seq<char>, Seq<char>)> {
    Seq::new(copies.len(), |i: int| (copies[i].from_path@, copies[i].to_path@))
}

/// Whether two byte strings are equal.
pub fn bytes_eq(a: &Vec<u8>, b: &Vec<u8>) -> (r: bool)
    ensures
        r == (a@ == b@),
{
    if a.len() != b.len() {
        return false;
    }
    let mut i: usize = 0;
    while i < a.len()
        invariant
            0 <= i <= a.len(),
            a.len() == b.len(),
            forall|k: int| 0 <= k < i ==> a@[k] == b@[k],
        decreases a.len() - i,
    {
        if a[i] != b[i] {
            return false;
        }
        i += 1;
    }
    proof {
        assert(a@ =~= b@);
    }
    true
}

/// What [`plan_one`] returns for one path.
pub struct PlannedPath {
    pub checks: Vec<Preparation>,
    pub preparations: Vec<Preparation>,
    pub copy: Option<UpdateFileInfo>,
    pub entry: InstalledFile,
}

/// The context that the arguments of the planner make up.
pub open spec fn context_of(
    unzip_path: &str,
    target_directory: &str,
    app_files: &Vec<InstalledFile>,
    scratch: &FsSnapshot,
    target: &FsSnapshot,
    c: &Config,
) -> PlanContext {
    PlanContext {
        unzip_path: unzip_path@,
        target_directory: target_directory@,
        app_files: app_files@,
        scratch: *scratch,
        target: *target,
        config: *c,
    }
}

/// Whether `p` is what `plan` says for the path `rel`.
pub open spec fn planned_as(p: PlannedPath, plan: PathPlan, ctx: PlanContext, rel: Seq<char>) -> bool {
    &&& prep_views(p.checks@) == plan.checks
    &&& prep_views(p.preparations@) == plan.preps
    &&& p.copy is Some == plan.copy
    &&& plan.copy ==> p.copy->Some_0.from_path@ == join_spec(ctx.unzip_path, rel)
        && p.copy->Some_0.to_path@ == join_spec(ctx.target_directory, rel)
    &&& entry_as(p.entry, plan, ctx, rel)
}

/// Whether `entry` is the record entry that `plan` says for the path `rel`:
/// the path relative to the install directory, with the planned hash and
/// size.
pub open spec fn entry_as(entry: InstalledFile, plan: PathPlan, ctx: PlanContext, rel: Seq<char>) -> bool {
    &&& entry.dst_path@ == rel
    &&& entry.dst_path_human@ == rel
    &&& entry.hash@ == plan.hash
    &&& entry.size == plan.size
    &&& entry.root is Some
    &&& entry.root->Some_0@ == ctx.target_directory
}

fn make_entry(rel: &str, target_directory: &str, hash: String, size: u64) -> (e: InstalledFile)
    ensures
        e.dst_path@ == rel@,
        e.dst_path_human@ == rel@,
        e.hash == hash,
        e.size == size,
        e.root is Some,
        e.root->Some_0@ == target_directory@,
{
    InstalledFile {
        dst_path: rel.to_owned(),
        dst_path_human: rel.to_owned(),
        hash,
        size,
        root: Some(target_directory.to_owned()),
    }
}

fn prep(kind: PrepKind, path: &str) -> (p: Preparation)
    ensures
        p.kind == kind,
        p.path@ == path@,
{
    Preparation { kind, path: path.to_owned() }
}

/// Decides what is done for the path `rel` of the release.
pub fn plan_one(
    rel: &str,
    unzip_path: &str,
    target_directory: &str,
    app_files: &Vec<InstalledFile>,
    scratch: &FsSnapshot,
    target: &FsSnapshot,
    c: &Config,
) -> (r: Result<PlannedPath, FormattedError>)
    ensures
        ({
            let ctx = context_of(unzip_path, target_directory, app_files, scratch, target, c);
            match r {
                Ok(p) => plan_path(ctx, rel@) is Some && planned_as(
                    p,
                    plan_path(ctx, rel@)->Some_0,
                    ctx,
                    rel@,
                ),
                Err(_) => plan_path(ctx, rel@) is None,
            }
        }),
{
    let ghost ctx = context_of(unzip_path, target_directory, app_files, scratch, target, c);
    let src = join(unzip_path, rel);
    let dst = join(target_directory, rel);
    let src_dir = scratch.is_dir(src.as_str());
    let dst_exists = target.path_exists(dst.as_str());
    let dst_dir = target.is_dir(dst.as_str());
    let mut checks: Vec<Preparation> = Vec::new();
    let mut preparations: Vec<Preparation> = Vec::new();
    proof {
        assert(prep_views(checks@) =~= Seq::empty());
        assert(prep_views(preparations@) =~= Seq::empty());
    }
    if dst_exists && dst_dir && src_dir {
        let i = target.lookup(dst.as_str()).unwrap();
        let hash = if target.entries[i].is_symlink {
            hash_always_replace()
        } else {
            hash_directory()
        };
        return Ok(
            PlannedPath {
                checks,
                preparations,
                copy: None,
                entry: make_entry(rel, target_directory, hash, 0),
            },
        );
    }
    let flipped = dst_exists && dst_dir != src_dir;
    if flipped {
        let kind = if dst_dir {
            PrepKind::RemoveDirAll
        } else {
            PrepKind::RemoveFile
        };
        preparations.push(prep(kind, dst.as_str()));
    }
    let ghost removal = prep_views(preparations@);
    proof {
        if flipped {
            assert(removal =~= seq![
                (if dst_dir { PrepKind::RemoveDirAll } else { PrepKind::RemoveFile }, dst@),
            ]);
        } else {
            assert(removal =~= Seq::empty());
        }
    }
    if src_dir {
        preparations.push(prep(PrepKind::CreateDirAll, dst.as_str()));
        proof {
            assert(prep_views(preparations@) =~= removal + seq![(PrepKind::CreateDirAll, dst@)]);
        }
        return Ok(
            PlannedPath {
                checks,
                preparations,
                copy: None,
                entry: make_entry(rel, target_directory, hash_directory(), 0),
            },
        );
    }
    let known = if flipped || !dst_exists {
        None
    } else {
        find_tracked(app_files, rel)
    };
    match known {
        None => {
            let dir = parent(dst.as_str());
            checks.push(prep(PrepKind::CheckReadable, src.as_str()));
            preparations.push(prep(PrepKind::CreateDirAll, dir.as_str()));
            preparations.push(prep(PrepKind::CreateFile, dst.as_str()));
            proof {
                assert(prep_views(checks@) =~= seq![(PrepKind::CheckReadable, src@)]);
                assert(prep_views(preparations@) =~= removal + steps_for_new(dst@));
            }
            Ok(
                PlannedPath {
                    checks,
                    preparations,
                    copy: Some(UpdateFileInfo { from_path: src, to_path: dst }),
                    entry: make_entry(rel, target_directory, hash_defer(), 0),
                },
            )
        },
        Some(t) => {
            if !is_hash_whitelisted(rel, c) {
                let stored = match hex_decode(app_files[t].hash.as_str()) {
                    Some(b) => b,
                    None => {
                        return Err(fail("Stored hash is no hexadecimal text"));
                    },
                };
                let incoming = match scratch.lookup(src.as_str()) {
                    Some(i) => match scratch.entries[i].hash {
                        Some(h) => h,
                        None => {
                            return Err(fail("Incoming file could not be hashed"));
                        },
                    },
                    None => {
                        return Err(fail("Incoming file could not be hashed"));
                    },
                };
                let fresh = u64_to_le_bytes(incoming);
                if bytes_eq(&stored, &fresh) {
                    let i = target.lookup(dst.as_str()).unwrap();
                    return Ok(
                        PlannedPath {
                            checks,
                            preparations,
                            copy: None,
                            entry: make_entry(
                                rel,
                                target_directory,
                                app_files[t].hash.clone(),
                                target.entries[i].size,
                            ),
                        },
                    );
                }
            }
            checks.push(prep(PrepKind::CheckReadable, src.as_str()));
            checks.push(prep(PrepKind::CheckWritable, dst.as_str()));
            proof {
                assert(prep_views(checks@) =~= checks_for_replace(src@, dst@));
            }
            Ok(
                PlannedPath {
                    checks,
                    preparations,
                    copy: Some(UpdateFileInfo { from_path: src, to_path: dst }),
                    entry: make_entry(rel, target_directory, hash_defer(), 0),
                },
            )
        },
    }
}

/// The texts that a list of strings holds.
pub open spec fn string_views(v: Seq<String>) -> Seq<Seq<char>> {
    Seq::new(v.len(), |i: int| v[i]@)
}

/// Whether the planner has a decision for every path of `paths`.
pub open spec fn all_planned(ctx: PlanContext, paths: Seq<Seq<char>>) -> bool {
    forall|i: int| 0 <= i < paths.len() ==> plan_path(ctx, #[trigger] paths[i]) is Some
}

/// The checks for the first `n` paths, in the order of the paths.
pub open spec fn checks_upto(ctx: PlanContext, paths: Seq<Seq<char>>, n: int) -> Seq<
    (PrepKind, Seq<char>),
>
    decreases n,
{
    if n <= 0 {
        Seq::empty()
    } else {
        checks_upto(ctx, paths, n - 1) + plan_path(ctx, paths[n - 1])->Some_0.checks
    }
}

/// The steps of preparation for the first `n` paths, in the order of the
/// paths.
pub open spec fn preps_upto(ctx: PlanContext, paths: Seq<Seq<char>>, n: int) -> Seq<
    (PrepKind, Seq<char>),
>
    decreases n,
{
    if n <= 0 {
        Seq::empty()
    } else {
        preps_upto(ctx, paths, n - 1) + plan_path(ctx, paths[n - 1])->Some_0.preps
    }
}

/// The copy that is planned for the path `rel`, if any.
pub open spec fn copy_of(ctx: PlanContext, rel: Seq<char>) -> Seq<(Seq<char>, Seq<char>)> {
    if plan_path(ctx, rel)->Some_0.copy {
        seq![(join_spec(ctx.unzip_path, rel), join_spec(ctx.target_directory, rel))]
    } else {
        Seq::empty()
    }
}

/// The copies planned for the first `n` paths, in the order of the paths.
pub open spec fn copies_upto(ctx: PlanContext, paths: Seq<Seq<char>>, n: int) -> Seq<
    (Seq<char>, Seq<char>),
>
    decreases n,
{
    if n <= 0 {
        Seq::empty()
    } else {
        copies_upto(ctx, paths, n - 1) + copy_of(ctx, paths[n - 1])
    }
}

/// The outcome of planning an update.
pub struct CheckedFiles {
    /// The checks that are carried out, in order, before the record is
    /// marked. They change nothing; one that fails ends the update with
    /// the install untouched.
    pub checks: Vec<Preparation>,
    /// What is carried out, in order, once the record is marked and before
    /// the first file is overwritten.
    pub preparations: Vec<Preparation>,
    /// The copy plan.
    pub update_list: Vec<UpdateFileInfo>,
    /// The entries of the next install record, one per path of the release.
    /// An entry whose file is about to be copied has a deferred hash.
    pub updated_file_list: Vec<InstalledFile>,
}

/// Whether `res` is the outcome of planning the first `n` paths.
pub open spec fn checked_upto(res: CheckedFiles, ctx: PlanContext, paths: Seq<Seq<char>>, n: int) -> bool {
    &&& prep_views(res.checks@) == checks_upto(ctx, paths, n)
    &&& prep_views(res.preparations@) == preps_upto(ctx, paths, n)
    &&& copy_views(res.update_list@) == copies_upto(ctx, paths, n)
    &&& res.updated_file_list@.len() == n
    &&& forall|i: int|
        0 <= i < n ==> entry_as(
            #[trigger] res.updated_file_list@[i],
            plan_path(ctx, paths[i])->Some_0,
            ctx,
            paths[i],
        )
}

/// Plans the update of an install from an unpacked release: for every path
/// of `update_files`, in order, what [`plan_path`] decides. Fails exactly
/// where the decision for some path needs a hash that cannot be had.
/// Planning touches nothing.
pub fn check_files(
    update_files: &Vec<String>,
    unzip_path: &str,
    target_directory: &str,
    app_files: &Vec<InstalledFile>,
    scratch: &FsSnapshot,
    target: &FsSnapshot,
    c: &Config,
) -> (r: Result<CheckedFiles, FormattedError>)
    ensures
        ({
            let ctx = context_of(unzip_path, target_directory, app_files, scratch, target, c);
            let paths = string_views(update_files@);
            match r {
                Ok(res) => all_planned(ctx, paths) && checked_upto(res, ctx, paths, paths.len() as int),
                Err(_) => !all_planned(ctx, paths),
            }
        }),
{
    let ghost ctx = context_of(unzip_path, target_directory, app_files, scratch, target, c);
    let ghost paths = string_views(update_files@);
    let mut res = CheckedFiles {
        checks: Vec::new(),
        preparations: Vec::new(),
        update_list: Vec::new(),
        updated_file_list: Vec::new(),
    };
    proof {
        assert(prep_views(res.checks@) =~= Seq::empty());
        assert(prep_views(res.preparations@) =~= Seq::empty());
        assert(copy_views(res.update_list@) =~= Seq::empty());
    }
    let mut i: usize = 0;
    while i < update_files.len()
        invariant
            0 <= i <= update_files.len(),
            ctx == context_of(unzip_path, target_directory, app_files, scratch, target, c),
            paths == string_views(update_files@),
            checked_upto(res, ctx, paths, i as int),
            forall|k: int| 0 <= k < i ==> plan_path(ctx, #[trigger] paths[k]) is Some,
        decreases update_files.len() - i,
    {
        let rel = update_files[i].as_str();
        assert(rel@ == paths[i as int]);
        let mut planned = match plan_one(
            rel,
            unzip_path,
            target_directory,
            app_files,
            scratch,
            target,
            c,
        ) {
            Ok(p) => p,
            Err(e) => {
                return Err(e);
            },
        };
        let ghost before = res;
        let ghost added = planned.preparations@;
        let ghost added_checks = planned.checks@;
        res.checks.append(&mut planned.checks);
        res.preparations.append(&mut planned.preparations);
        match planned.copy {
            Some(u) => {
                res.update_list.push(u);
            },
            None => {},
        }
        res.updated_file_list.push(planned.entry);
        proof {
            assert(prep_views(res.checks@) =~= prep_views(before.checks@) + prep_views(
                added_checks,
            ));
            assert(prep_views(res.preparations@) =~= prep_views(before.preparations@) + prep_views(
                added,
            ));
            assert(copy_views(res.update_list@) =~= copy_views(before.update_list@) + copy_of(
                ctx,
                rel@,
            ));
        }
        i += 1;
    }
    Ok(res)
}

/// A path of the release is unchanged in the install: the release has a
/// file there whose content hash is `h`, the install has a file there too,
/// and the previous record tracks the path with the text of that hash.
pub open spec fn unchanged(ctx: PlanContext, rel: Seq<char>) -> bool {
    let src = join_spec(ctx.unzip_path, rel);
    let dst = join_spec(ctx.target_directory, rel);
    &&& !ctx.scratch.is_dir_spec(src)
    &&& ctx.target.exists_spec(dst)
    &&& !ctx.target.is_dir_spec(dst)
    &&& is_tracked(ctx.app_files, rel)
    &&& ctx.scratch.entry_spec(src) is Some
    &&& ctx.scratch.entry_spec(src)->Some_0.hash is Some
    &&& ctx.app_files[first_tracked_from(ctx.app_files, rel, 0)->Some_0].hash@ == hash_text_spec(
        ctx.scratch.entry_spec(src)->Some_0.hash->Some_0,
    )
}

/// A path of the release is a directory that the install has as well.
pub open spec fn same_directory(ctx: PlanContext, rel: Seq<char>) -> bool {
    let src = join_spec(ctx.unzip_path, rel);
    let dst = join_spec(ctx.target_directory, rel);
    ctx.scratch.is_dir_spec(src) && ctx.target.exists_spec(dst) && ctx.target.is_dir_spec(dst)
}

/// An unchanged path that is not exempt from hash comparison is neither
/// copied, checked nor prepared for, and the record keeps its hash and
/// carries the size of the installed file. A tracked file that is exempt
/// is copied whatever it holds.
pub proof fn lemma_unchanged_path(ctx: PlanContext, rel: Seq<char>)
    requires
        unchanged(ctx, rel),
    ensures
        plan_path(ctx, rel) is Some,
        plan_path(ctx, rel)->Some_0.copy == is_hash_whitelisted_spec(rel, ctx.config),
        !is_hash_whitelisted_spec(rel, ctx.config) ==> {
            let plan = plan_path(ctx, rel)->Some_0;
            &&& plan.preps.len() == 0
            &&& plan.checks.len() == 0
            &&& plan.hash == ctx.app_files[first_tracked_from(ctx.app_files, rel, 0)->Some_0].hash@
            &&& plan.size == ctx.target.entry_spec(join_spec(ctx.target_directory, rel))->Some_0.size
        },
{
    let src = join_spec(ctx.unzip_path, rel);
    let h = ctx.scratch.entry_spec(src)->Some_0.hash->Some_0;
    crate::hexcodec::lemma_hex_round_trip(spec_u64_to_le_bytes(h));
}

/// Running the planner again on a release that is already installed plans
/// no copy: where every path of the release is an unchanged file that is
/// not exempt from hash comparison, or a directory that the install has
/// too, the copy plan is empty, nothing is checked and nothing is
/// prepared.
pub proof fn lemma_rerun_plans_nothing(ctx: PlanContext, paths: Seq<Seq<char>>, n: int)
    requires
        0 <= n <= paths.len(),
        forall|i: int|
            0 <= i < paths.len() ==> same_directory(ctx, #[trigger] paths[i]) || (unchanged(
                ctx,
                paths[i],
            ) && !is_hash_whitelisted_spec(paths[i], ctx.config)),
    ensures
        all_planned(ctx, paths),
        copies_upto(ctx, paths, n).len() == 0,
        preps_upto(ctx, paths, n).len() == 0,
        checks_upto(ctx, paths, n).len() == 0,
    decreases n,
{
    assert forall|i: int| 0 <= i < paths.len() implies plan_path(ctx, #[trigger] paths[i]) is Some by {
        if !same_directory(ctx, paths[i]) {
            lemma_unchanged_path(ctx, paths[i]);
        }
    }
    if n > 0 {
        lemma_rerun_plans_nothing(ctx, paths, n - 1);
        if !same_directory(ctx, paths[n - 1]) {
            lemma_unchanged_path(ctx, paths[n - 1]);
        }
    }
}

/// Every file of a release that is exempt from hash comparison is in the
/// copy plan, whatever its content and whatever the install holds.
pub proof fn lemma_exempt_is_copied(ctx: PlanContext, rel: Seq<char>)
    requires
        is_hash_whitelisted_spec(rel, ctx.config),
        !ctx.scratch.is_dir_spec(join_spec(ctx.unzip_path, rel)),
    ensures
        plan_path(ctx, rel) is Some,
        plan_path(ctx, rel)->Some_0.copy,
{
}

/// Whatever is copied is recorded as not hashed yet: the entry of a path
/// that is copied has the deferred hash and no size, both of which are
/// taken from the file once the copy has landed.
pub proof fn lemma_copied_is_deferred(ctx: PlanContext, rel: Seq<char>)
    requires
        plan_path(ctx, rel) is Some,
        plan_path(ctx, rel)->Some_0.copy,
    ensures
        plan_path(ctx, rel)->Some_0.hash == defer_chars(),
        plan_path(ctx, rel)->Some_0.size == 0,
{
}

/// The checks touch nothing: each is the opening of a file of the release
/// for reading, or the opening for writing, without truncation, of a file
/// that the install already has.
pub proof fn lemma_checks_touch_nothing(ctx: PlanContext, rel: Seq<char>, k: int)
    requires
        plan_path(ctx, rel) is Some,
        0 <= k < plan_path(ctx, rel)->Some_0.checks.len(),
    ensures
        ({
            let check = plan_path(ctx, rel)->Some_0.checks[k];
            let src = join_spec(ctx.unzip_path, rel);
            let dst = join_spec(ctx.target_directory, rel);
            check == (PrepKind::CheckReadable, src) || (check == (PrepKind::CheckWritable, dst)
                && ctx.target.exists_spec(dst))
        }),
{
}

/// Every step of preparation that deletes or truncates does so at the
/// destination of its path, and every other step creates a directory at
/// the destination or above it.
pub proof fn lemma_preps_stay_at_destination(ctx: PlanContext, rel: Seq<char>, k: int)
    requires
        plan_path(ctx, rel) is Some,
        0 <= k < plan_path(ctx, rel)->Some_0.preps.len(),
    ensures
        ({
            let step = plan_path(ctx, rel)->Some_0.preps[k];
            let dst = join_spec(ctx.target_directory, rel);
            step.0 != PrepKind::CheckReadable && step.0 != PrepKind::CheckWritable && (step.1 == dst
                || step == (PrepKind::CreateDirAll, parent_spec(dst)))
        }),
{
}

/// Whatever is copied was checked first: for a path that is copied the
/// plan holds a check that the source can be read, and either a check
/// that the destination can be written or the step that creates it.
pub proof fn lemma_copy_is_checked(ctx: PlanContext, rel: Seq<char>)
    requires
        plan_path(ctx, rel) is Some,
        plan_path(ctx, rel)->Some_0.copy,
    ensures
        ({
            let plan = plan_path(ctx, rel)->Some_0;
            let src = join_spec(ctx.unzip_path, rel);
            let dst = join_spec(ctx.target_directory, rel);
            &&& plan.checks.contains((PrepKind::CheckReadable, src))
            &&& plan.checks.contains((PrepKind::CheckWritable, dst)) || plan.preps.contains(
                (PrepKind::CreateFile, dst),
            )
        }),
{
    let plan = plan_path(ctx, rel)->Some_0;
    let src = join_spec(ctx.unzip_path, rel);
    let dst = join_spec(ctx.target_directory, rel);
    assert(plan.checks[0] == (PrepKind::CheckReadable, src));
    if plan.checks.len() == 2 {
        assert(plan.checks[1] == (PrepKind::CheckWritable, dst));
    } else if plan.preps.len() == 2 {
        assert(plan.preps[1] == (PrepKind::CreateFile, dst));
    } else {
        assert(plan.preps.len() == 3);
        assert(plan.preps[2] == (PrepKind::CreateFile, dst));
    }
}

/// The full paths of the first `n` entries of `installed_old` that
/// `installed_new` no longer tracks and that are directories in `snapshot`
/// (`want_dir`) or are not (`!want_dir`), in the order of `installed_old`.
pub open spec fn obsolete_upto(
    installed_old: Seq<InstalledFile>,
    installed_new: Seq<InstalledFile>,
    target_directory: Seq<char>,
    snapshot: FsSnapshot,
    want_dir: bool,
    n: int,
) -> Seq<Seq<char>>
    decreases n,
{
    if n <= 0 {
        Seq::empty()
    } else {
        let before = obsolete_upto(
            installed_old,
            installed_new,
            target_directory,
            snapshot,
            want_dir,
            n - 1,
        );
        let path = join_spec(target_directory, installed_old[n - 1].dst_path@);
        if !is_tracked(installed_new, installed_old[n - 1].dst_path@) && snapshot.is_dir_spec(path)
            == want_dir {
            before.push(path)
        } else {
            before
        }
    }
}

/// The length in bytes of the path `p`.
pub open spec fn byte_len(p: Seq<char>) -> usize {
    vstd::utf8::encode_utf8(p).len() as usize
}

/// The lengths in bytes of `paths`.
pub open spec fn byte_lens(paths: Seq<Seq<char>>) -> Seq<usize> {
    Seq::new(paths.len(), |i: int| byte_len(paths[i]))
}

/// `paths` with the longest first; paths of equal length keep their order.
pub open spec fn longest_first(paths: Seq<Seq<char>>) -> Seq<Seq<char>> {
    let order = order_desc(byte_lens(paths), paths.len() as int);
    Seq::new(paths.len(), |i: int| paths[order[i] as int])
}

/// What is removed once an update has landed: first the files, in order,
/// then the directories, in order.
pub struct CleanupPlan {
    pub files: Vec<String>,
    pub dirs: Vec<String>,
}

/// What of the previous install is removed after an update: every entry of
/// `installed_old` whose path `installed_new` does not track. Files go
/// first, in the order of the record; directories follow with the longest
/// path first, so that a directory goes after all that lies in it.
pub fn cleanup_obsolete_files(
    installed_old: &Vec<InstalledFile>,
    installed_new: &Vec<InstalledFile>,
    target_directory: &str,
    snapshot: &FsSnapshot,
) -> (plan: CleanupPlan)
    ensures
        string_views(plan.files@) == obsolete_upto(
            installed_old@,
            installed_new@,
            target_directory@,
            *snapshot,
            false,
            installed_old@.len() as int,
        ),
        string_views(plan.dirs@) == longest_first(
            obsolete_upto(
                installed_old@,
                installed_new@,
                target_directory@,
                *snapshot,
                true,
                installed_old@.len() as int,
            ),
        ),
{
    let mut cleanup_dirs: Vec<String> = Vec::new();
    let mut cleanup_files: Vec<String> = Vec::new();
    let mut keys: Vec<usize> = Vec::new();
    let mut i: usize = 0;
    proof {
        assert(string_views(cleanup_dirs@) =~= Seq::empty());
        assert(string_views(cleanup_files@) =~= Seq::empty());
        assert(keys@ =~= byte_lens(string_views(cleanup_dirs@)));
    }
    while i < installed_old.len()
        invariant
            0 <= i <= installed_old.len(),
            string_views(cleanup_files@) == obsolete_upto(
                installed_old@,
                installed_new@,
                target_directory@,
                *snapshot,
                false,
                i as int,
            ),
            string_views(cleanup_dirs@) == obsolete_upto(
                installed_old@,
                installed_new@,
                target_directory@,
                *snapshot,
                true,
                i as int,
            ),
            keys@ == byte_lens(string_views(cleanup_dirs@)),
        decreases installed_old.len() - i,
    {
        let file = &installed_old[i];
        if find_tracked(installed_new, file.dst_path.as_str()).is_none() {
            let p = join(target_directory, file.dst_path.as_str());
            if snapshot.is_dir(p.as_str()) {
                let ghost before = cleanup_dirs@;
                keys.push(p.as_str().len());
                cleanup_dirs.push(p);
                proof {
                    assert(string_views(cleanup_dirs@) =~= string_views(before).push(p@));
                    assert(keys@ =~= byte_lens(string_views(cleanup_dirs@)));
                }
            } else {
                let ghost before = cleanup_files@;
                cleanup_files.push(p);
                proof {
                    assert(string_views(cleanup_files@) =~= string_views(before).push(p@));
                }
            }
        }
        i += 1;
    }
    let order = stable_order_desc(&keys);
    proof {
        lemma_order_desc(keys@, keys@.len() as int);
    }
    let mut sorted: Vec<String> = Vec::new();
    let mut j: usize = 0;
    let ghost want = longest_first(string_views(cleanup_dirs@));
    while j < order.len()
        invariant
            0 <= j <= order.len(),
            order@ == order_desc(keys@, keys@.len() as int),
            keys@ == byte_lens(string_views(cleanup_dirs@)),
            keys@.len() == cleanup_dirs@.len(),
            order@.len() == cleanup_dirs@.len(),
            forall|a: int| 0 <= a < order@.len() ==> (#[trigger] order@[a]) < cleanup_dirs@.len(),
            want == longest_first(string_views(cleanup_dirs@)),
            string_views(sorted@) == want.take(j as int),
        decreases order.len() - j,
    {
        let ghost before = sorted@;
        sorted.push(cleanup_dirs[order[j]].clone());
        proof {
            assert(string_views(sorted@) =~= string_views(before).push(
                cleanup_dirs@[order@[j as int] as int]@,
            ));
            assert(want.take(j as int + 1) =~= want.take(j as int).push(want[j as int]));
        }
        j += 1;
    }
    proof {
        assert(want.take(j as int) =~= want);
    }
    CleanupPlan { files: cleanup_files, dirs: sorted }
}

/// In the order in which directories are removed no directory comes
/// before a longer one, and every directory that had to go is removed
/// exactly once.
pub proof fn lemma_longest_first(paths: Seq<Seq<char>>)
    requires
        paths.len() <= usize::MAX,
    ensures
        longest_first(paths).len() == paths.len(),
        forall|a: int, b: int|
            0 <= a < b < paths.len() ==> byte_len(#[trigger] longest_first(paths)[a]) >= byte_len(
                #[trigger] longest_first(paths)[b],
            ),
        forall|k: int| 0 <= k < paths.len() ==> longest_first(paths).contains(#[trigger] paths[k]),
{
    let keys = byte_lens(paths);
    let n = paths.len() as int;
    let order = order_desc(keys, n);
    lemma_order_desc(keys, n);
    assert forall|a: int, b: int| 0 <= a < b < paths.len() implies byte_len(
        #[trigger] longest_first(paths)[a],
    ) >= byte_len(#[trigger] longest_first(paths)[b]) by {
        assert(keys[order[a] as int] > keys[order[b] as int] || keys[order[a] as int]
            == keys[order[b] as int]);
    }
    assert forall|k: int| 0 <= k < paths.len() implies longest_first(paths).contains(
        #[trigger] paths[k],
    ) by {
        lemma_arrangement_covers(order, n, k);
        let a = choose|a: int| 0 <= a < n && #[trigger] order[a] == k;
        assert(longest_first(paths)[a] == paths[k]);
    }
}

/// Whether `after` is `before` with every deferred hash resolved against
/// `snapshot`: an entry whose hash was deferred has the hash and size that
/// the snapshot shows for its file, every other entry is as it was.
pub open spec fn resolved_from(
    after: Seq<InstalledFile>,
    before: Seq<InstalledFile>,
    snapshot: FsSnapshot,
    c: Config,
    n: int,
) -> bool {
    &&& after.len() == before.len()
    &&& forall|i: int|
        0 <= i < n ==> if before[i].is_deferred_spec() {
            &&& size_and_hash_spec(before[i].absolute_spec(), snapshot, c) == Some(
                ((#[trigger] after[i]).hash@, after[i].size),
            )
            &&& after[i].dst_path == before[i].dst_path
            &&& after[i].dst_path_human == before[i].dst_path_human
            &&& after[i].root == before[i].root
        } else {
            after[i] == before[i]
        }
    &&& forall|i: int| n <= i < before.len() ==> #[trigger] after[i] == before[i]
}

/// Whether every deferred entry of `files` can be resolved against
/// `snapshot`.
pub open spec fn resolvable(files: Seq<InstalledFile>, snapshot: FsSnapshot, c: Config) -> bool {
    forall|i: int|
        0 <= i < files.len() && (#[trigger] files[i]).is_deferred_spec() ==> size_and_hash_spec(
            files[i].absolute_spec(),
            snapshot,
            c,
        ) is Some
}

/// Resolves every deferred hash of `files` against `snapshot`, which shows
/// the install after the copies have landed. Fails exactly where some
/// deferred entry cannot be resolved; the entries before it are resolved
/// then, the others are as they were.
pub fn resolve_hashes(files: &mut Vec<InstalledFile>, snapshot: &FsSnapshot, c: &Config) -> (r:
    Result<(), FormattedError>)
    ensures
        r is Ok <==> resolvable(old(files)@, *snapshot, *c),
        r is Ok ==> resolved_from(final(files)@, old(files)@, *snapshot, *c, old(files)@.len() as int),
        final(files)@.len() == old(files)@.len(),
{
    let mut i: usize = 0;
    while i < files.len()
        invariant
            0 <= i <= files.len(),
            files@.len() == old(files)@.len(),
            resolved_from(files@, old(files)@, *snapshot, *c, i as int),
            forall|k: int|
                0 <= k < i && (#[trigger] old(files)@[k]).is_deferred_spec() ==> size_and_hash_spec(
                    old(files)@[k].absolute_spec(),
                    *snapshot,
                    *c,
                ) is Some,
        decreases files.len() - i,
    {
        if files[i].is_deferred() {
            let mut entry = files[i].duplicate();
            match entry.rehash(snapshot, c) {
                Ok(_) => {},
                Err(e) => {
                    return Err(e);
                },
            }
            files.set(i, entry);
        }
        i += 1;
    }
    Ok(())
}

/// Begins the update cycle for the install that `params` records. An
/// install whose record tracks no file is a fresh one: its record is not
/// marked, and nothing of it is compared.
pub fn diff_update(params: &StoredInstallData) -> (cycle: DiffUpdate)
    ensures
        cycle.phase == UpdatePhase::Extract,
        cycle.fresh_install == (params.installed_files@.len() == 0),
        !cycle.disk_marker,
        crate::cycle::cycle_inv(cycle),
{
    DiffUpdate::new(params.installed_files.len() == 0)
}

/// Takes the outcome of a completed update cycle into the record: the
/// record tracks the files of the new release, and its crash marker is
/// cleared.
pub fn finish_diff_update(params: &mut StoredInstallData, updated_file_list: Vec<InstalledFile>)
    ensures
        final(params).installed_files == updated_file_list,
        !final(params).installing,
        final(params).installed_files_meta == old(params).installed_files_meta,
        final(params).fetched_meta == old(params).fetched_meta,
        final(params).shipperfile == old(params).shipperfile,
        final(params).installed_app_info == old(params).installed_app_info,
        final(params).installed_date == old(params).installed_date,
        final(params).last_launch == old(params).last_launch,
        final(params).last_ucheck == old(params).last_ucheck,
        final(params).background_color == old(params).background_color,
{
    params.installing = false;
    params.installed_files = updated_file_list;
}

/// Completes an install in the record: it was installed at `now_millis`,
/// the version installed is the one the server offered, and the crash
/// marker is cleared.
pub fn install(parameters: &mut StoredInstallData, now_millis: i64)
    ensures
        final(parameters).installed_date == now_millis,
        final(parameters).installed_app_info == old(parameters).fetched_meta.app,
        !final(parameters).installing,
        final(parameters).installed_files == old(parameters).installed_files,
        final(parameters).installed_files_meta == old(parameters).installed_files_meta,
        final(parameters).fetched_meta == old(parameters).fetched_meta,
        final(parameters).shipperfile == old(parameters).shipperfile,
        final(parameters).last_launch == old(parameters).last_launch,
        final(parameters).last_ucheck == old(parameters).last_ucheck,
        final(parameters).background_color == old(parameters).background_color,
{
    parameters.installed_date = now_millis;
    parameters.installed_app_info = parameters.fetched_meta.app.duplicate();
    parameters.installing = false;
}

/// A record whose hashes are all resolved can be persisted: where
/// resolving left no entry deferred, and the updater's own entries hold
/// none either, the record is accepted for writing.
pub proof fn lemma_resolved_record_is_persistable(d: StoredInstallData)
    requires
        forall|i: int|
            0 <= i < d.installed_files@.len() ==> !(#[trigger] d.installed_files@[i]).is_deferred_spec(),
        forall|i: int|
            0 <= i < d.installed_files_meta@.len() ==> !(
            #[trigger] d.installed_files_meta@[i]).is_deferred_spec(),
    ensures
        d.persistable(),
{
}

/// An entry that was resolved against a file whose content hash is not
/// zero is no longer deferred.
pub proof fn lemma_resolved_is_not_deferred(absolute: Seq<char>, snapshot: FsSnapshot, c: Config)
    requires
        size_and_hash_spec(absolute, snapshot, c) is Some,
        snapshot.entry_spec(absolute)->Some_0.hash != Some(0u64),
    ensures
        size_and_hash_spec(absolute, snapshot, c)->Some_0.0 != defer_chars(),
{
    let e = snapshot.entry_spec(absolute)->Some_0;
    assert(always_chars().len() == 6);
    assert(directory_chars().len() == 9);
    assert(defer_chars().len() == 5);
    if !e.is_symlink && !e.is_dir && !is_hash_whitelisted_spec(absolute, c) {
        crate::hasher::lemma_hash_text_not_sentinel(e.hash->Some_0);
    }
}

/// On a fresh install every file of the release is copied: where nothing
/// was tracked before, the plan has a decision for every path, and the
/// decision for a path that is no directory in the release is to copy it
/// with its hash deferred.
pub proof fn lemma_fresh_install_copies_files(ctx: PlanContext, rel: Seq<char>)
    requires
        ctx.app_files.len() == 0,
    ensures
        plan_path(ctx, rel) is Some,
        !ctx.scratch.is_dir_spec(join_spec(ctx.unzip_path, rel)) ==> plan_path(ctx, rel)->Some_0.copy
            && plan_path(ctx, rel)->Some_0.hash == defer_chars(),
        ctx.scratch.is_dir_spec(join_spec(ctx.unzip_path, rel)) ==> !plan_path(ctx, rel)->Some_0.copy,
{
}

/// A fresh install of a release of files: where nothing was tracked before
/// and no path of the release is a directory, the plan holds one copy and
/// one entry for each path, in order.
pub proof fn lemma_fresh_install_plan(ctx: PlanContext, paths: Seq<Seq<char>>, n: int)
    requires
        ctx.app_files.len() == 0,
        0 <= n <= paths.len(),
        forall|i: int|
            0 <= i < paths.len() ==> !ctx.scratch.is_dir_spec(
                join_spec(ctx.unzip_path, #[trigger] paths[i]),
            ),
    ensures
        all_planned(ctx, paths),
        copies_upto(ctx, paths, n).len() == n,
        forall|i: int|
            0 <= i < n ==> (#[trigger] copies_upto(ctx, paths, n)[i]) == (
                join_spec(ctx.unzip_path, paths[i]),
                join_spec(ctx.target_directory, paths[i]),
            ),
    decreases n,
{
    assert forall|i: int| 0 <= i < paths.len() implies plan_path(ctx, #[trigger] paths[i]) is Some by {
        lemma_fresh_install_copies_files(ctx, paths[i]);
    }
    if n > 0 {
        lemma_fresh_install_plan(ctx, paths, n - 1);
        lemma_fresh_install_copies_files(ctx, paths[n - 1]);
        let before = copies_upto(ctx, paths, n - 1);
        assert forall|i: int| 0 <= i < n implies (#[trigger] copies_upto(ctx, paths, n)[i]) == (
            join_spec(ctx.unzip_path, paths[i]),
            join_spec(ctx.target_directory, paths[i]),
        ) by {
            if i < n - 1 {
                assert(copies_upto(ctx, paths, n)[i] == before[i]);
            }
        }
    }
}

/// The steps for the first `n` paths hold the steps of each of them.
pub proof fn lemma_preps_hold_each(ctx: PlanContext, paths: Seq<Seq<char>>, n: int, i: int, step: (
    PrepKind,
    Seq<char>,
))
    requires
        0 <= i < n <= paths.len(),
    ensures
        plan_path(ctx, paths[i])->Some_0.preps.contains(step) ==> preps_upto(ctx, paths, n).contains(
            step,
        ),
        plan_path(ctx, paths[i])->Some_0.checks.contains(step) ==> checks_upto(
            ctx,
            paths,
            n,
        ).contains(step),
    decreases n,
{
    if plan_path(ctx, paths[i])->Some_0.preps.contains(step) {
        let here = plan_path(ctx, paths[n - 1])->Some_0.preps;
        let before = preps_upto(ctx, paths, n - 1);
        if i == n - 1 {
            let k = choose|k: int| 0 <= k < here.len() && here[k] == step;
            assert((before + here)[before.len() + k] == step);
        } else {
            lemma_preps_hold_each(ctx, paths, n - 1, i, step);
            let k = choose|k: int| 0 <= k < before.len() && before[k] == step;
            assert((before + here)[k] == step);
        }
    }
    if plan_path(ctx, paths[i])->Some_0.checks.contains(step) {
        let here = plan_path(ctx, paths[n - 1])->Some_0.checks;
        let before = checks_upto(ctx, paths, n - 1);
        if i == n - 1 {
            let k = choose|k: int| 0 <= k < here.len() && here[k] == step;
            assert((before + here)[before.len() + k] == step);
        } else {
            lemma_preps_hold_each(ctx, paths, n - 1, i, step);
            let k = choose|k: int| 0 <= k < before.len() && before[k] == step;
            assert((before + here)[k] == step);
        }
    }
}

/// Every copy of a plan was checked before the first one begins: for
/// every path that is copied, the checks of the whole plan hold a check
/// that its source can be read, and the checks or the preparations hold
/// the step that opens or creates its destination for writing.
pub proof fn lemma_every_copy_is_checked(ctx: PlanContext, paths: Seq<Seq<char>>, i: int)
    requires
        0 <= i < paths.len(),
        plan_path(ctx, paths[i]) is Some,
        plan_path(ctx, paths[i])->Some_0.copy,
    ensures
        ({
            let n = paths.len() as int;
            let src = join_spec(ctx.unzip_path, paths[i]);
            let dst = join_spec(ctx.target_directory, paths[i]);
            &&& checks_upto(ctx, paths, n).contains((PrepKind::CheckReadable, src))
            &&& checks_upto(ctx, paths, n).contains((PrepKind::CheckWritable, dst)) || preps_upto(
                ctx,
                paths,
                n,
            ).contains((PrepKind::CreateFile, dst))
        }),
{
    let src = join_spec(ctx.unzip_path, paths[i]);
    let dst = join_spec(ctx.target_directory, paths[i]);
    let n = paths.len() as int;
    lemma_copy_is_checked(ctx, paths[i]);
    lemma_preps_hold_each(ctx, paths, n, i, (PrepKind::CheckReadable, src));
    lemma_preps_hold_each(ctx, paths, n, i, (PrepKind::CheckWritable, dst));
    lemma_preps_hold_each(ctx, paths, n, i, (PrepKind::CreateFile, dst));
}

/// Every step of the whole plan is a step of one of its paths.
pub proof fn lemma_step_has_a_path(ctx: PlanContext, paths: Seq<Seq<char>>, n: int, k: int)
    requires
        0 <= n <= paths.len(),
        0 <= k < preps_upto(ctx, paths, n).len(),
    ensures
        exists|i: int|
            0 <= i < n && (#[trigger] plan_path(ctx, paths[i]))->Some_0.preps.contains(
                preps_upto(ctx, paths, n)[k],
            ),
    decreases n,
{
    let here = plan_path(ctx, paths[n - 1])->Some_0.preps;
    let before = preps_upto(ctx, paths, n - 1);
    if k < before.len() {
        lemma_step_has_a_path(ctx, paths, n - 1, k);
        let i = choose|i: int|
            0 <= i < n - 1 && (#[trigger] plan_path(ctx, paths[i]))->Some_0.preps.contains(before[k]);
        assert(plan_path(ctx, paths[i])->Some_0.preps.contains(preps_upto(ctx, paths, n)[k]));
    } else {
        assert(here[k - before.len()] == preps_upto(ctx, paths, n)[k]);
        assert(plan_path(ctx, paths[n - 1])->Some_0.preps.contains(preps_upto(ctx, paths, n)[k]));
    }
}

/// Every copy of the whole plan is the copy of one of its paths.
pub proof fn lemma_copy_has_a_path(ctx: PlanContext, paths: Seq<Seq<char>>, n: int, k: int)
    requires
        0 <= n <= paths.len(),
        0 <= k < copies_upto(ctx, paths, n).len(),
    ensures
        exists|i: int|
            0 <= i < n && copies_upto(ctx, paths, n)[k] == (
                join_spec(ctx.unzip_path, #[trigger] paths[i]),
                join_spec(ctx.target_directory, paths[i]),
            ),
    decreases n,
{
    let before = copies_upto(ctx, paths, n - 1);
    if k < before.len() {
        lemma_copy_has_a_path(ctx, paths, n - 1, k);
        let i = choose|i: int|
            0 <= i < n - 1 && before[k] == (
                join_spec(ctx.unzip_path, #[trigger] paths[i]),
                join_spec(ctx.target_directory, paths[i]),
            );
        assert(copies_upto(ctx, paths, n)[k] == before[k]);
    } else {
        assert(copy_of(ctx, paths[n - 1])[k - before.len()] == copies_upto(ctx, paths, n)[k]);
    }
}

/// A fresh install from start to end, as far as the record goes: where
/// nothing was tracked before, the release holds files only, the entries
/// are those of the plan, and they were resolved against a snapshot that
/// shows every copied file with a content hash other than zero, the
/// record has exactly one entry for each path of the release, in order,
/// none of them deferred, and it is accepted for writing.
pub proof fn lemma_fresh_install_record(
    ctx: PlanContext,
    paths: Seq<Seq<char>>,
    planned: Seq<InstalledFile>,
    resolved: Seq<InstalledFile>,
    snapshot: FsSnapshot,
)
    requires
        ctx.app_files.len() == 0,
        planned.len() == paths.len(),
        forall|i: int|
            0 <= i < paths.len() ==> !ctx.scratch.is_dir_spec(
                join_spec(ctx.unzip_path, #[trigger] paths[i]),
            ),
        forall|i: int|
            0 <= i < paths.len() ==> entry_as(
                #[trigger] planned[i],
                plan_path(ctx, paths[i])->Some_0,
                ctx,
                paths[i],
            ),
        resolved_from(resolved, planned, snapshot, ctx.config, planned.len() as int),
        forall|i: int|
            0 <= i < paths.len() ==> snapshot.entry_spec((#[trigger] planned[i]).absolute_spec())
                is Some && snapshot.entry_spec(planned[i].absolute_spec())->Some_0.hash != Some(0u64),
    ensures
        resolved.len() == paths.len(),
        forall|i: int|
            0 <= i < paths.len() ==> (#[trigger] resolved[i]).dst_path@ == paths[i]
                && !resolved[i].is_deferred_spec(),
        !crate::remoteinstallerdata::has_deferred(resolved),
{
    assert forall|i: int| 0 <= i < paths.len() implies (#[trigger] resolved[i]).dst_path@ == paths[i]
        && !resolved[i].is_deferred_spec() by {
        lemma_fresh_install_copies_files(ctx, paths[i]);
        assert(planned[i].is_deferred_spec());
        lemma_resolved_is_not_deferred(planned[i].absolute_spec(), snapshot, ctx.config);
    }
}

} // verus!
