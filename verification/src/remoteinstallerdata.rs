//! The persisted install record and the values it is made of.
use crate::common::{is_hash_whitelisted, is_hash_whitelisted_spec};
use crate::defines::{
    always_chars, defer_chars, directory_chars, hash_always_replace, hash_defer, hash_directory,
    Config,
};
use crate::error::{fail, FormattedError};
use crate::fslog::FsSnapshot;
use crate::hasher::{hash_text, hash_text_spec};
use crate::hexcodec::{hex_pair_value, hex_val, is_hex_char};
use crate::paths::{join, join_spec};
use crate::shipperfile::{clone_opt_string, Shipperfile};
use crate::text::{str_concat, to_chars};
use vstd::prelude::*;

verus! {

/// Where to download one artefact, and which version it is.
#[derive(Clone, Debug)]
pub struct DownloadParams {
    pub url: String,
    pub version: String,
}

/// What the delivery server says about the application and the updater.
#[derive(Clone, Debug)]
pub struct PakklyMetaRemote {
    /// `#RRGGBBAA`.
    pub background_color: String,
    pub description: Option<String>,
    pub shipper: DownloadParams,
    pub app: DownloadParams,
    pub app_name: String,
    pub company_name: Option<String>,
}

/// A colour with alpha.
#[derive(Clone, Copy, Debug, PartialEq, Eq, Structural)]
pub struct InstallerColor {
    pub r: u8,
    pub g: u8,
    pub b: u8,
    pub a: u8,
}

/// One tracked entry of the file system.
#[derive(Clone, Debug)]
pub struct InstalledFile {
    /// Path relative to `root`, or a full path where there is no root.
    pub dst_path: String,
    pub dst_path_human: String,
    /// Hexadecimal content hash, or one of the sentinels.
    pub hash: String,
    pub size: u64,
    pub root: Option<String>,
}

/// Hash and size of one entry's content.
#[derive(Clone, Debug)]
pub struct FileContentsMeta {
    pub hash: String,
    pub size: u64,
}

/// Everything the updater remembers about one install.
#[derive(Clone, Debug)]
pub struct StoredInstallData {
    pub background_color: InstallerColor,
    /// Files of the wrapped application.
    pub installed_files: Vec<InstalledFile>,
    /// Files the updater placed for itself: shortcuts, icons, its binary.
    pub installed_files_meta: Vec<InstalledFile>,
    pub fetched_meta: PakklyMetaRemote,
    pub installed_date: i64,
    pub last_launch: i64,
    pub last_ucheck: i64,
    /// Set while files are being overwritten. A record read back with this
    /// flag set describes an install that was interrupted.
    pub installing: bool,
    pub shipperfile: Option<Shipperfile>,
    pub installed_app_info: DownloadParams,
}

/// `s` without the `#` characters it begins with.
pub open spec fn trim_hashes(s: Seq<char>) -> Seq<char>
    decreases s.len(),
{
    if s.len() > 0 && s[0] == '#' {
        trim_hashes(s.drop_first())
    } else {
        s
    }
}

/// Whether `s`, after the `#` characters it begins with, is eight
/// hexadecimal digits.
pub open spec fn is_color_text(s: Seq<char>) -> bool {
    let t = trim_hashes(s);
    t.len() == 8 && forall|i: int| 0 <= i < 8 ==> is_hex_char(#[trigger] t[i])
}

/// The colour that the text `s` stands for: red, green, blue and alpha, two
/// hexadecimal digits each.
pub open spec fn color_spec(s: Seq<char>) -> InstallerColor {
    let t = trim_hashes(s);
    InstallerColor {
        r: (hex_val(t[0]) * 16 + hex_val(t[1])) as u8,
        g: (hex_val(t[2]) * 16 + hex_val(t[3])) as u8,
        b: (hex_val(t[4]) * 16 + hex_val(t[5])) as u8,
        a: (hex_val(t[6]) * 16 + hex_val(t[7])) as u8,
    }
}

/// The message of the failure that a malformed colour gives.
pub open spec fn color_malformed_msg() -> Seq<char> {
    "Color string malformed!"@
}

impl InstallerColor {
    /// Reads a colour written as `#RRGGBBAA`. Fails exactly where the text
    /// after its leading `#` characters is not eight hexadecimal digits.
    pub fn try_from(value: &str) -> (r: Result<InstallerColor, FormattedError>)
        ensures
            r is Ok <==> is_color_text(value@),
            r is Ok ==> r->Ok_0 == color_spec(value@),
            r is Err ==> r->Err_0.msg@ == color_malformed_msg(),
    {
        let v = to_chars(value);
        let mut start: usize = 0;
        proof {
            assert(v@.skip(0) =~= v@);
        }
        while start < v.len() && v[start] == '#'
            invariant
                0 <= start <= v.len(),
                trim_hashes(v@) == trim_hashes(v@.skip(start as int)),
            decreases v.len() - start,
        {
            proof {
                assert(v@.skip(start as int).drop_first() =~= v@.skip(start as int + 1));
            }
            start += 1;
        }
        proof {
            assert(trim_hashes(v@) == v@.skip(start as int));
        }
        if v.len() - start != 8 {
            return Err(fail("Color string malformed!"));
        }
        let ghost t = v@.skip(start as int);
        let r = hex_pair_value(v[start], v[start + 1]);
        let g = hex_pair_value(v[start + 2], v[start + 3]);
        let b = hex_pair_value(v[start + 4], v[start + 5]);
        let a = hex_pair_value(v[start + 6], v[start + 7]);
        proof {
            assert(t[0] == v@[start as int]);
            assert(t[1] == v@[start + 1]);
            assert(t[2] == v@[start + 2]);
            assert(t[3] == v@[start + 3]);
            assert(t[4] == v@[start + 4]);
            assert(t[5] == v@[start + 5]);
            assert(t[6] == v@[start + 6]);
            assert(t[7] == v@[start + 7]);
        }
        match (r, g, b, a) {
            (Some(r), Some(g), Some(b), Some(a)) => Ok(InstallerColor { r, g, b, a }),
            _ => Err(fail("Color string malformed!")),
        }
    }
}

impl DownloadParams {
    /// A copy of these parameters.
    pub fn duplicate(&self) -> (r: Self)
        ensures
            r == *self,
    {
        DownloadParams { url: self.url.clone(), version: self.version.clone() }
    }
}

impl PakklyMetaRemote {
    /// A copy of this description.
    pub fn duplicate(&self) -> (r: Self)
        ensures
            r == *self,
    {
        PakklyMetaRemote {
            background_color: self.background_color.clone(),
            description: clone_opt_string(&self.description),
            shipper: self.shipper.duplicate(),
            app: self.app.duplicate(),
            app_name: self.app_name.clone(),
            company_name: clone_opt_string(&self.company_name),
        }
    }
}

/// Hash and size that an install record keeps for the node that `absolute`
/// names in `snapshot`, or `None` where it names no node, a node that is
/// neither symlink, directory nor regular file, or a file that is compared
/// by hash and could not be read.
///
/// A symlink is always replaced and has no size; a directory is marked as
/// one; a file exempt from hash comparison is always replaced; any other
/// file has its content hash, and a content hash of zero counts as not
/// hashed yet.
pub open spec fn size_and_hash_spec(absolute: Seq<char>, snapshot: FsSnapshot, c: Config) -> Option<
    (Seq<char>, u64),
> {
    match snapshot.entry_spec(absolute) {
        None => None,
        Some(e) => if e.is_symlink {
            Some((always_chars(), 0u64))
        } else if e.is_dir {
            Some((directory_chars(), 0u64))
        } else if !e.is_file {
            None
        } else if is_hash_whitelisted_spec(absolute, c) {
            Some((always_chars(), e.size))
        } else {
            match e.hash {
                None => None,
                Some(h) => Some((if h == 0 { defer_chars() } else { hash_text_spec(h) }, e.size)),
            }
        },
    }
}

impl InstalledFile {
    /// The full path of this entry.
    pub open spec fn absolute_spec(&self) -> Seq<char> {
        match self.root {
            Some(r) => join_spec(r@, self.dst_path@),
            None => self.dst_path@,
        }
    }

    /// The full path of this entry.
    pub fn absolute(&self) -> (r: String)
        ensures
            r@ == self.absolute_spec(),
    {
        match &self.root {
            Some(root) => join(root.as_str(), self.dst_path.as_str()),
            None => self.dst_path.clone(),
        }
    }

    /// A copy of this entry.
    pub fn duplicate(&self) -> (r: Self)
        ensures
            r == *self,
    {
        InstalledFile {
            dst_path: self.dst_path.clone(),
            dst_path_human: self.dst_path_human.clone(),
            hash: self.hash.clone(),
            size: self.size,
            root: clone_opt_string(&self.root),
        }
    }

    /// Hash and size of the node that `absolute` names in `snapshot`.
    pub fn size_and_hash(absolute: &str, snapshot: &FsSnapshot, c: &Config) -> (r: Result<
        FileContentsMeta,
        FormattedError,
    >)
        ensures
            match r {
                Ok(m) => size_and_hash_spec(absolute@, *snapshot, *c) == Some((m.hash@, m.size)),
                Err(_) => size_and_hash_spec(absolute@, *snapshot, *c) is None,
            },
    {
        let i = match snapshot.lookup(absolute) {
            Some(i) => i,
            None => {
                let msg = str_concat("Non-existant file added to db: ", absolute);
                return Err(FormattedError::from_str(msg));
            },
        };
        let e = &snapshot.entries[i];
        if e.is_symlink {
            return Ok(FileContentsMeta { hash: hash_always_replace(), size: 0 });
        }
        if e.is_dir {
            return Ok(FileContentsMeta { hash: hash_directory(), size: 0 });
        }
        if !e.is_file {
            let msg = str_concat("Non-existant file added to db(symlink followed): ", absolute);
            return Err(FormattedError::from_str(msg));
        }
        if is_hash_whitelisted(absolute, c) {
            return Ok(FileContentsMeta { hash: hash_always_replace(), size: e.size });
        }
        match e.hash {
            None => {
                let msg = str_concat("Unreadable file added to db: ", absolute);
                Err(FormattedError::from_str(msg))
            },
            Some(h) => {
                let hash = if h == 0 {
                    hash_defer()
                } else {
                    hash_text(h)
                };
                Ok(FileContentsMeta { hash, size: e.size })
            },
        }
    }

    /// The entry for `file_path` below `root` with the given hash and size.
    pub fn new_rooted_precontent(
        file_path: &str,
        root: Option<&str>,
        content_meta: FileContentsMeta,
    ) -> (r: Result<Self, FormattedError>)
        ensures
            r is Ok,
            r->Ok_0.dst_path@ == file_path@,
            r->Ok_0.dst_path_human@ == file_path@,
            r->Ok_0.hash == content_meta.hash,
            r->Ok_0.size == content_meta.size,
            match root {
                Some(x) => r->Ok_0.root is Some && r->Ok_0.root->Some_0@ == x@,
                None => r->Ok_0.root is None,
            },
    {
        Ok(
            InstalledFile {
                dst_path: file_path.to_owned(),
                dst_path_human: file_path.to_owned(),
                hash: content_meta.hash,
                size: content_meta.size,
                root: match root {
                    Some(x) => Some(x.to_owned()),
                    None => None,
                },
            },
        )
    }

    /// The entry for `file_path` below `root`, with hash and size as
    /// `snapshot` shows the node. Fails exactly where
    /// [`size_and_hash_spec`] has no answer.
    pub fn new_rooted(file_path: &str, root: Option<&str>, snapshot: &FsSnapshot, c: &Config) -> (r:
        Result<Self, FormattedError>)
        ensures
            ({
                let absolute = match root {
                    Some(x) => join_spec(x@, file_path@),
                    None => file_path@,
                };
                match r {
                    Ok(f) => {
                        &&& size_and_hash_spec(absolute, *snapshot, *c) == Some((f.hash@, f.size))
                        &&& f.dst_path@ == file_path@
                        &&& f.dst_path_human@ == file_path@
                        &&& f.absolute_spec() == absolute
                        &&& match root {
                            Some(x) => f.root is Some && f.root->Some_0@ == x@,
                            None => f.root is None,
                        }
                    },
                    Err(_) => size_and_hash_spec(absolute, *snapshot, *c) is None,
                }
            }),
    {
        let absolute: String = match root {
            Some(x) => join(x, file_path),
            None => file_path.to_owned(),
        };
        match Self::size_and_hash(absolute.as_str(), snapshot, c) {
            Ok(meta) => Self::new_rooted_precontent(file_path, root, meta),
            Err(e) => Err(e),
        }
    }

    /// The entry for the full path `file_path`.
    pub fn new(file_path: &str, snapshot: &FsSnapshot, c: &Config) -> (r: Result<
        Self,
        FormattedError,
    >)
        ensures
            match r {
                Ok(f) => {
                    &&& size_and_hash_spec(file_path@, *snapshot, *c) == Some((f.hash@, f.size))
                    &&& f.dst_path@ == file_path@
                    &&& f.dst_path_human@ == file_path@
                    &&& f.root is None
                },
                Err(_) => size_and_hash_spec(file_path@, *snapshot, *c) is None,
            },
    {
        Self::new_rooted(file_path, None, snapshot, c)
    }

    /// Takes hash and size of this entry anew from `snapshot`. On failure
    /// the entry is unchanged.
    pub fn rehash(&mut self, snapshot: &FsSnapshot, c: &Config) -> (r: Result<(), FormattedError>)
        ensures
            final(self).dst_path == old(self).dst_path,
            final(self).dst_path_human == old(self).dst_path_human,
            final(self).root == old(self).root,
            match r {
                Ok(_) => size_and_hash_spec(old(self).absolute_spec(), *snapshot, *c) == Some(
                    (final(self).hash@, final(self).size),
                ),
                Err(_) => size_and_hash_spec(old(self).absolute_spec(), *snapshot, *c) is None
                    && *final(self) == *old(self),
            },
    {
        let absolute = self.absolute();
        match Self::size_and_hash(absolute.as_str(), snapshot, c) {
            Ok(fcm) => {
                self.size = fcm.size;
                self.hash = fcm.hash;
                Ok(())
            },
            Err(e) => Err(e),
        }
    }

    /// Whether the hash of this entry is still to be computed.
    pub open spec fn is_deferred_spec(&self) -> bool {
        self.hash@ == defer_chars()
    }

    /// Whether the hash of this entry is still to be computed.
    pub fn is_deferred(&self) -> (r: bool)
        ensures
            r == self.is_deferred_spec(),
    {
        let d = hash_defer();
        self.hash == d
    }
}

/// Whether some entry of `files` has a hash that is still to be computed.
pub open spec fn has_deferred(files: Seq<InstalledFile>) -> bool {
    exists|i: int| 0 <= i < files.len() && (#[trigger] files[i]).is_deferred_spec()
}

/// Whether some entry of `files` has a hash that is still to be computed.
pub fn any_deferred(files: &Vec<InstalledFile>) -> (r: bool)
    ensures
        r == has_deferred(files@),
{
    let mut i: usize = 0;
    while i < files.len()
        invariant
            0 <= i <= files.len(),
            forall|k: int| 0 <= k < i ==> !(#[trigger] files@[k]).is_deferred_spec(),
        decreases files.len() - i,
    {
        if files[i].is_deferred() {
            return true;
        }
        i += 1;
    }
    false
}

/// What reading the persisted record from disk gave.
#[derive(Clone, Debug)]
pub enum LoadedRecord {
    /// There is no record file.
    Missing,
    /// The file does not hold a record; the text says why.
    Unparsable(String),
    Parsed(StoredInstallData),
}

/// The message of the failure that writing a record with an unresolved
/// hash gives.
pub open spec fn deferred_msg() -> Seq<char> {
    "Deferred hashes must be fulfilled before writing!"@
}

/// The message of the failure that a record marked as being installed
/// gives when read.
pub open spec fn corrupted_msg() -> Seq<char> {
    "Install corrupted"@
}

/// The message of the failure that a missing record file gives.
pub open spec fn not_found_msg() -> Seq<char> {
    "File not found!"@
}

impl StoredInstallData {
    /// The record of a fresh install, made from what the delivery server
    /// said: nothing is installed yet. Fails exactly where the background
    /// colour is malformed.
    pub fn from(o: PakklyMetaRemote) -> (r: Result<StoredInstallData, FormattedError>)
        ensures
            r is Ok <==> is_color_text(o.background_color@),
            r is Err ==> r->Err_0.msg@ == color_malformed_msg(),
            r is Ok ==> ({
                let d = r->Ok_0;
                &&& d.background_color == color_spec(o.background_color@)
                &&& d.installed_files@.len() == 0
                &&& d.installed_files_meta@.len() == 0
                &&& d.installed_date == 0
                &&& d.last_launch == 0
                &&& d.last_ucheck == 0
                &&& !d.installing
                &&& d.shipperfile is None
                &&& d.installed_app_info == o.app
                &&& d.fetched_meta == o
            }),
    {
        let color = match InstallerColor::try_from(o.background_color.as_str()) {
            Ok(c) => c,
            Err(e) => {
                return Err(e);
            },
        };
        let app = o.app.duplicate();
        Ok(
            StoredInstallData {
                background_color: color,
                installed_files: Vec::new(),
                installed_files_meta: Vec::new(),
                installed_date: 0,
                installed_app_info: app,
                fetched_meta: o,
                last_launch: 0,
                last_ucheck: 0,
                installing: false,
                shipperfile: None,
            },
        )
    }

    /// Whether this record may be persisted: no entry of either list has a
    /// hash that is still to be computed.
    pub open spec fn persistable(&self) -> bool {
        !has_deferred(self.installed_files@) && !has_deferred(self.installed_files_meta@)
    }

    /// Decides whether this record may be written to disk. A record with an
    /// unresolved hash is refused.
    pub fn write_json(&self) -> (r: Result<(), FormattedError>)
        ensures
            r is Ok <==> self.persistable(),
            r is Err ==> r->Err_0.msg@ == deferred_msg(),
    {
        if any_deferred(&self.installed_files) {
            return Err(fail("Deferred hashes must be fulfilled before writing!"));
        }
        if any_deferred(&self.installed_files_meta) {
            return Err(fail("Deferred hashes must be fulfilled before writing!"));
        }
        Ok(())
    }

    /// The record that this process works with, given what reading the file
    /// gave. A missing file, a file that holds no record and a record that
    /// was left marked as being installed are all no valid install.
    pub fn read_json(loaded: LoadedRecord) -> (r: Result<StoredInstallData, FormattedError>)
        ensures
            r is Ok <==> (loaded is Parsed && !loaded->Parsed_0.installing),
            match loaded {
                LoadedRecord::Missing => r is Err && r->Err_0.msg@ == not_found_msg(),
                LoadedRecord::Unparsable(why) => r is Err && r->Err_0.msg == why,
                LoadedRecord::Parsed(rid) => if rid.installing {
                    r is Err && r->Err_0.msg@ == corrupted_msg()
                } else {
                    r == Ok::<StoredInstallData, FormattedError>(rid)
                },
            },
    {
        match loaded {
            LoadedRecord::Missing => Err(fail("File not found!")),
            LoadedRecord::Unparsable(why) => Err(FormattedError::from_str(why)),
            LoadedRecord::Parsed(rid) => {
                if rid.installing {
                    Err(fail("Install corrupted"))
                } else {
                    Ok(rid)
                }
            },
        }
    }
}

} // verus!
