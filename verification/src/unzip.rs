//! Archive ingestion: recognising a zip file, cutting off what was
//! appended behind it, and listing what its entries unpack to.
use crate::error::{fail, FormattedError};
use crate::paths::{join, join_spec};
use crate::text::{ends_with_spec, str_ends_with};
use std::io::Cursor;
use std::io::Read;
use vstd::prelude::*;
use zip::ZipArchive;

verus! {

/// The four bytes that a zip file begins with.
pub open spec fn zip_magic() -> Seq<u8> {
    seq![0x50u8, 0x4Bu8, 0x03u8, 0x04u8]
}

/// The four bytes that the end-of-central-directory record begins with.
pub open spec fn eocd_signature() -> Seq<u8> {
    seq![0x50u8, 0x4Bu8, 0x05u8, 0x06u8]
}

/// Bytes in an end-of-central-directory record before its comment.
pub const EOCD_FIXED_SIZE: usize = 22;

/// Offset of the comment length within an end-of-central-directory record.
pub const EOCD_COMMENT_LEN_AT: usize = 20;

/// Whether `bytes` begins with the zip magic.
pub open spec fn has_zip_magic(bytes: Seq<u8>) -> bool {
    bytes.len() >= 4 && bytes.subrange(0, 4) == zip_magic()
}

/// Whether the end-of-central-directory signature stands at `at`.
pub open spec fn signature_at(bytes: Seq<u8>, at: int) -> bool {
    0 <= at && at + 4 <= bytes.len() && bytes.subrange(at, at + 4) == eocd_signature()
}

/// Whether `at` is where the first end-of-central-directory signature
/// behind the magic stands.
pub open spec fn is_first_eocd(bytes: Seq<u8>, at: int) -> bool {
    &&& 4 <= at
    &&& signature_at(bytes, at)
    &&& forall|k: int| 4 <= k < at ==> !signature_at(bytes, k)
}

/// Whether an end-of-central-directory signature stands behind the magic.
pub open spec fn has_eocd(bytes: Seq<u8>) -> bool {
    exists|at: int| 4 <= at && signature_at(bytes, at)
}

/// The length of the comment of the record at `at`: two bytes, least
/// significant first.
pub open spec fn comment_len(bytes: Seq<u8>, at: int) -> int {
    bytes[at + 20] as int + 256 * (bytes[at + 21] as int)
}

/// The length of the archive whose record is at `at`: up to the end of the
/// record's comment.
pub open spec fn trimmed_len(bytes: Seq<u8>, at: int) -> int {
    at + 22 + comment_len(bytes, at)
}

/// Why a file is no well-formed zip archive.
#[derive(Clone, Copy, Debug, PartialEq, Eq, Structural)]
pub enum ArchiveFault {
    /// The file is shorter than the magic.
    TooShort,
    /// The file does not begin with the zip magic.
    BadMagic,
    /// No end-of-central-directory record was found. This fault is
    /// reported to the developers before the update fails.
    EocdMissing,
    /// The file ends within the end-of-central-directory record.
    EocdTruncated,
}

impl ArchiveFault {
    /// Whether this fault is reported to the developers.
    pub fn must_report(self) -> (r: bool)
        ensures
            r == (self == ArchiveFault::EocdMissing),
    {
        match self {
            ArchiveFault::EocdMissing => true,
            _ => false,
        }
    }

    /// The failure that stands for this fault.
    pub fn to_error(self) -> (e: FormattedError)
        ensures
            !e.is_network_error,
            !e.is_missing_sudo,
            e.msg@ == match self {
                ArchiveFault::TooShort => "File too short for a zip archive"@,
                ArchiveFault::BadMagic => "Zip magic not detected!"@,
                ArchiveFault::EocdMissing => "End of zip not found! Malformed zip."@,
                ArchiveFault::EocdTruncated => "End of zip cut short! Malformed zip."@,
            },
    {
        match self {
            ArchiveFault::TooShort => fail("File too short for a zip archive"),
            ArchiveFault::BadMagic => fail("Zip magic not detected!"),
            ArchiveFault::EocdMissing => fail("End of zip not found! Malformed zip."),
            ArchiveFault::EocdTruncated => fail("End of zip cut short! Malformed zip."),
        }
    }
}

/// Tells from the beginning of a file whether it is a zip archive. Fails
/// exactly where fewer than four bytes are given.
pub fn is_file_zip(head: &[u8]) -> (r: Result<bool, FormattedError>)
    ensures
        r is Err <==> head@.len() < 4,
        r is Ok ==> r->Ok_0 == has_zip_magic(head@),
{
    if head.len() < 4 {
        return Err(ArchiveFault::TooShort.to_error());
    }
    let b = head[0] == 0x50 && head[1] == 0x4B && head[2] == 0x03 && head[3] == 0x04;
    proof {
        let m = head@.subrange(0, 4);
        assert(m[0] == head@[0] && m[1] == head@[1] && m[2] == head@[2] && m[3] == head@[3]);
        if b {
            assert(m =~= zip_magic());
        }
    }
    Ok(b)
}

fn signature_here(bytes: &[u8], at: usize) -> (r: bool)
    requires
        at + 4 <= bytes@.len(),
    ensures
        r == signature_at(bytes@, at as int),
{
    let b = bytes[at] == 0x50 && bytes[at + 1] == 0x4B && bytes[at + 2] == 0x05 && bytes[at + 3]
        == 0x06;
    proof {
        let m = bytes@.subrange(at as int, at + 4);
        assert(m[0] == bytes@[at as int] && m[1] == bytes@[at + 1] && m[2] == bytes@[at + 2] && m[3]
            == bytes@[at + 3]);
        if b {
            assert(m =~= eocd_signature());
        }
    }
    b
}

/// What trimming `bytes` gives: the length up to the end of the comment of
/// the first end-of-central-directory record, or the fault that stands in
/// the way.
pub open spec fn trim_outcome(bytes: Seq<u8>, r: Result<usize, ArchiveFault>) -> bool {
    match r {
        Err(ArchiveFault::TooShort) => bytes.len() < 4,
        Err(ArchiveFault::BadMagic) => bytes.len() >= 4 && !has_zip_magic(bytes),
        Err(ArchiveFault::EocdMissing) => has_zip_magic(bytes) && !has_eocd(bytes),
        Err(ArchiveFault::EocdTruncated) => has_zip_magic(bytes) && exists|at: int|
            #[trigger] is_first_eocd(bytes, at) && at + 22 > bytes.len(),
        Ok(n) => has_zip_magic(bytes) && exists|at: int|
            #[trigger] is_first_eocd(bytes, at) && at + 22 <= bytes.len() && n == trimmed_len(
                bytes,
                at,
            ),
    }
}

/// Finds where a zip archive ends within `bytes`: behind the comment of
/// its first end-of-central-directory record.
pub fn locate_zip_end(bytes: &[u8]) -> (r: Result<usize, ArchiveFault>)
    requires
        bytes@.len() + 65536 <= usize::MAX,
    ensures
        trim_outcome(bytes@, r),
{
    if bytes.len() < 4 {
        return Err(ArchiveFault::TooShort);
    }
    let magic = bytes[0] == 0x50 && bytes[1] == 0x4B && bytes[2] == 0x03 && bytes[3] == 0x04;
    proof {
        let m = bytes@.subrange(0, 4);
        assert(m[0] == bytes@[0] && m[1] == bytes@[1] && m[2] == bytes@[2] && m[3] == bytes@[3]);
        if magic {
            assert(m =~= zip_magic());
        }
    }
    if !magic {
        return Err(ArchiveFault::BadMagic);
    }
    let mut at: usize = 4;
    while at + 4 <= bytes.len()
        invariant
            4 <= at <= bytes@.len(),
            has_zip_magic(bytes@),
            bytes@.len() + 65536 <= usize::MAX,
            forall|k: int| 4 <= k < at ==> !signature_at(bytes@, k),
        decreases bytes.len() - at,
    {
        if signature_here(bytes, at) {
            assert(is_first_eocd(bytes@, at as int));
            if at + 22 > bytes.len() {
                return Err(ArchiveFault::EocdTruncated);
            }
            let lo: usize = bytes[at + 20] as usize;
            let hi: usize = bytes[at + 21] as usize;
            return Ok(at + 22 + (lo + 256 * hi));
        }
        at += 1;
    }
    Err(ArchiveFault::EocdMissing)
}

/// `bytes` cut or, where it is shorter, filled with zero bytes to the
/// length `n`.
pub open spec fn resized(bytes: Seq<u8>, n: int) -> Seq<u8> {
    Seq::new(n as nat, |i: int| if i < bytes.len() { bytes[i] } else { 0u8 })
}

/// Cuts off what follows the zip archive in `bytes`. On a fault `bytes` is
/// unchanged.
pub fn trim_zip_postfix(bytes: &mut Vec<u8>) -> (r: Result<(), ArchiveFault>)
    requires
        old(bytes)@.len() + 65536 <= usize::MAX,
    ensures
        match r {
            Ok(_) => exists|n: usize|
                #[trigger] trim_outcome(old(bytes)@, Ok(n)) && final(bytes)@ == resized(
                    old(bytes)@,
                    n as int,
                ),
            Err(f) => trim_outcome(old(bytes)@, Err(f)) && final(bytes)@ == old(bytes)@,
        },
{
    let n = match locate_zip_end(bytes.as_slice()) {
        Ok(n) => n,
        Err(f) => {
            return Err(f);
        },
    };
    if n <= bytes.len() {
        bytes.truncate(n);
    } else {
        let mut k: usize = bytes.len();
        while k < n
            invariant
                old(bytes)@.len() <= k <= n,
                bytes@.len() == k,
                bytes@ == resized(old(bytes)@, k as int),
            decreases n - k,
        {
            bytes.push(0u8);
            k += 1;
            proof {
                assert(bytes@ =~= resized(old(bytes)@, k as int));
            }
        }
    }
    proof {
        assert(bytes@ =~= resized(old(bytes)@, n as int));
    }
    Ok(())
}

/// The first end-of-central-directory record of `bytes` is found at one
/// place only.
pub proof fn lemma_first_eocd_unique(bytes: Seq<u8>, a: int, b: int)
    requires
        is_first_eocd(bytes, a),
        is_first_eocd(bytes, b),
    ensures
        a == b,
{
}

/// Trimming removes exactly what was appended: where `archive` begins with
/// the magic and ends with the comment of its first
/// end-of-central-directory record, trimming `archive` followed by any
/// `trailing` bytes gives `archive` back.
pub proof fn lemma_trim_removes_trailing(archive: Seq<u8>, trailing: Seq<u8>, at: int, n: usize)
    requires
        has_zip_magic(archive),
        is_first_eocd(archive, at),
        at + 22 <= archive.len(),
        trimmed_len(archive, at) == archive.len(),
        trim_outcome(archive + trailing, Ok(n)),
    ensures
        n == archive.len(),
        resized(archive + trailing, n as int) == archive,
{
    let all = archive + trailing;
    let found = choose|f: int| #[trigger]
        is_first_eocd(all, f) && f + 22 <= all.len() && n == trimmed_len(all, f);
    assert(all.subrange(at, at + 4) =~= archive.subrange(at, at + 4));
    assert(signature_at(all, at));
    if found < at {
        assert(all.subrange(found, found + 4) =~= archive.subrange(found, found + 4));
        assert(signature_at(archive, found));
    }
    assert(found == at);
    assert(all[at + 20] == archive[at + 20]);
    assert(all[at + 21] == archive[at + 21]);
    assert(resized(all, n as int) =~= archive);
}

/// Makes `zip::ZipArchive`, an open archive, known as an opaque type.
#[verifier::external_type_specification]
#[verifier::external_body]
#[verifier::reject_recursive_types(R)]
pub struct ExZipArchive<R>(ZipArchive<R>);

/// Makes `std::io::Cursor`, which the archive reads its bytes through,
/// known as an opaque type.
#[verifier::external_type_specification]
#[verifier::external_body]
#[verifier::reject_recursive_types(T)]
pub struct ExCursor<T>(Cursor<T>);

/// One entry of a zip archive as the reader hands it out.
#[derive(Clone, Debug)]
pub struct RawEntry {
    /// The name as stored; a directory's name ends in `/`.
    pub name: String,
    /// POSIX permission bits, where the archive holds them.
    pub mode: Option<u32>,
    /// The uncompressed content.
    pub data: Vec<u8>,
}

/// What a [`RawEntry`] holds, as plain values.
pub struct RawEntryView {
    pub name: Seq<char>,
    pub mode: Option<u32>,
    pub data: Seq<u8>,
}

impl RawEntry {
    /// What this entry holds.
    pub open spec fn view(&self) -> RawEntryView {
        RawEntryView {
            name: self.name@,
            mode: self.mode,
            data: self.data@,
        }
    }
}

/// The bytes that an open archive reads from.
pub uninterp spec fn archive_source(a: ZipArchive<Cursor<Vec<u8>>>) -> Seq<u8>;

/// Whether the zip reader accepts `bytes` as an archive.
pub uninterp spec fn zip_opens(bytes: Seq<u8>) -> bool;

/// The number of entries that the zip reader finds in `bytes`.
pub uninterp spec fn zip_count(bytes: Seq<u8>) -> nat;

/// The entry at `index` of the archive `bytes` as the zip reader hands it
/// out, or `None` where the reader fails on it.
pub uninterp spec fn zip_entry_spec(bytes: Seq<u8>, index: nat) -> Option<RawEntryView>;

/// Calls `ZipArchive::new` on a cursor over `bytes`. Trusted: whether the
/// reader accepts the bytes depends on the bytes alone, and the archive
/// reads from them.
#[verifier::external_body]
fn zip_open(bytes: Vec<u8>) -> (r: Option<ZipArchive<Cursor<Vec<u8>>>>)
    ensures
        r is Some <==> zip_opens(bytes@),
        r is Some ==> archive_source(r->Some_0) == bytes@,
{
    ZipArchive::new(Cursor::new(bytes)).ok()
}

/// Calls `ZipArchive::len`. Trusted: the number of entries depends on the
/// archive's bytes alone.
#[verifier::external_body]
fn zip_len(a: &ZipArchive<Cursor<Vec<u8>>>) -> (n: usize)
    ensures
        n == zip_count(archive_source(*a)),
{
    a.len()
}

/// Calls `ZipArchive::by_index_decrypt` with an empty password and reads
/// the entry out: its name, its mode and its content.
/// An entry that cannot be had without a password, or not at all, is
/// reported as `None`. Trusted: what comes out depends on the archive's
/// bytes and the index alone, and the archive still reads from the same
/// bytes.
#[verifier::external_body]
fn zip_entry(a: &mut ZipArchive<Cursor<Vec<u8>>>, index: usize) -> (r: Option<RawEntry>)
    ensures
        archive_source(*final(a)) == archive_source(*old(a)),
        match r {
            Some(e) => zip_entry_spec(archive_source(*old(a)), index as nat) == Some(e@),
            None => zip_entry_spec(archive_source(*old(a)), index as nat) is None,
        },
{
    let mut f = a.by_index_decrypt(index, &[]).ok()?.ok()?;
    let name = f.name().to_string();
    let mode = f.unix_mode();
    let mut data = Vec::new();
    f.read_to_end(&mut data).ok()?;
    Some(RawEntry { name, mode, data })
}

/// One node that unpacking an archive creates.
#[derive(Clone, Debug)]
pub struct ExtractedEntry {
    /// Where the node goes.
    pub path: String,
    /// Whether the node is a directory. A file's directory is created
    /// before the file is written.
    pub is_dir: bool,
    /// The content of a file.
    pub data: Vec<u8>,
    /// The permission bits to set on the node, where the archive has them.
    pub mode: Option<u32>,
}

/// What an [`ExtractedEntry`] holds, as plain values.
pub struct ExtractedView {
    pub path: Seq<char>,
    pub is_dir: bool,
    pub data: Seq<u8>,
    pub mode: Option<u32>,
}

impl ExtractedEntry {
    /// What this node holds.
    pub open spec fn view(&self) -> ExtractedView {
        ExtractedView { path: self.path@, is_dir: self.is_dir, data: self.data@, mode: self.mode }
    }
}

/// The nodes that a list of entries holds.
pub open spec fn extracted_views(v: Seq<ExtractedEntry>) -> Seq<ExtractedView> {
    Seq::new(v.len(), |i: int| v[i]@)
}

/// The components of the path `s`: what stands between its separators.
pub open spec fn components(s: Seq<char>) -> Seq<Seq<char>>
    decreases s.len(),
{
    if s.len() == 0 {
        seq![Seq::empty()]
    } else if s.last() == '/' {
        components(s.drop_last()).push(Seq::empty())
    } else {
        let before = components(s.drop_last());
        before.drop_last().push(before.last().push(s.last()))
    }
}

/// How deep below its starting point a walk along `comps` ends, or `None`
/// where it climbs above the starting point on the way. An empty component
/// and `.` stay, `..` climbs, any other component descends.
pub open spec fn depth_of(comps: Seq<Seq<char>>) -> Option<nat>
    decreases comps.len(),
{
    if comps.len() == 0 {
        Some(0)
    } else {
        match depth_of(comps.drop_last()) {
            None => None,
            Some(d) => step_depth(d, comps.last()),
        }
    }
}

/// The depth after the component `c`, from the depth `d`.
pub open spec fn step_depth(d: nat, c: Seq<char>) -> Option<nat> {
    if c.len() == 0 || c == seq!['.'] {
        Some(d)
    } else if c == seq!['.', '.'] {
        if d == 0 {
            None
        } else {
            Some((d - 1) as nat)
        }
    } else {
        Some(d + 1)
    }
}

/// Whether unpacking the name `name` stays below the directory it is
/// unpacked into: the name holds no zero character, does not begin at the
/// root, and never climbs above where it started.
pub open spec fn is_enclosed_spec(name: Seq<char>) -> bool {
    &&& !name.contains('\0')
    &&& !(name.len() > 0 && name[0] == '/')
    &&& depth_of(components(name)) is Some
}

fn step_depth_exec(d: usize, c: &Vec<char>) -> (r: Option<usize>)
    requires
        d + c@.len() <= usize::MAX,
    ensures
        r is Some ==> r->Some_0 <= d + c@.len(),
        match r {
            Some(x) => step_depth(d as nat, c@) == Some(x as nat),
            None => step_depth(d as nat, c@) is None,
        },
{
    if c.len() == 0 {
        return Some(d);
    }
    if c.len() == 1 && c[0] == '.' {
        proof {
            assert(c@ =~= seq!['.']);
        }
        return Some(d);
    }
    if c.len() == 2 && c[0] == '.' && c[1] == '.' {
        proof {
            assert(c@ =~= seq!['.', '.']);
        }
        if d == 0 {
            return None;
        }
        return Some(d - 1);
    }
    proof {
        if c@ == seq!['.'] {
            assert(c@.len() == 1 && c@[0] == '.');
        }
        if c@ == seq!['.', '.'] {
            assert(c@.len() == 2 && c@[0] == '.' && c@[1] == '.');
        }
    }
    Some(d + 1)
}

/// Whether unpacking the name `name` stays below the directory it is
/// unpacked into.
pub fn is_enclosed(name: &str) -> (r: bool)
    ensures
        r == is_enclosed_spec(name@),
{
    let v = crate::text::to_chars(name);
    if v.len() > 0 && v[0] == '/' {
        return false;
    }
    let mut cur: Vec<char> = Vec::new();
    let mut depth: usize = 0;
    let mut climbed = false;
    let mut zero = false;
    let ghost mut done: Seq<Seq<char>> = Seq::empty();
    let mut i: usize = 0;
    proof {
        assert(v@.take(0) =~= Seq::<char>::empty());
        assert(components(v@.take(0)) =~= done.push(cur@));
    }
    while i < v.len()
        invariant
            0 <= i <= v.len(),
            v@ == name@,
            components(v@.take(i as int)) == done.push(cur@),
            depth + cur@.len() <= i,
            depth_of(done) == if climbed { None } else { Some(depth as nat) },
            zero == v@.take(i as int).contains('\0'),
        decreases v.len() - i,
    {
        let c = v[i];
        proof {
            let t = v@.take(i as int + 1);
            assert(t.drop_last() =~= v@.take(i as int));
            assert(t.last() == c);
            assert(t.contains('\0') == (v@.take(i as int).contains('\0') || c == '\0')) by {
                if t.contains('\0') {
                    let k = choose|k: int| 0 <= k < t.len() && t[k] == '\0';
                    if k < i {
                        assert(v@.take(i as int)[k] == '\0');
                    }
                }
                if v@.take(i as int).contains('\0') {
                    let k = choose|k: int| 0 <= k < i && v@.take(i as int)[k] == '\0';
                    assert(t[k] == '\0');
                }
                if c == '\0' {
                    assert(t[i as int] == '\0');
                }
            }
        }
        if c == '\0' {
            zero = true;
        }
        if c == '/' {
            proof {
                assert(done.push(cur@).drop_last() =~= done);
            }
            if !climbed {
                match step_depth_exec(depth, &cur) {
                    Some(d) => {
                        depth = d;
                    },
                    None => {
                        climbed = true;
                    },
                }
            }
            proof {
                done = done.push(cur@);
            }
            cur = Vec::new();
        } else {
            proof {
                let before = done.push(cur@);
                assert(before.last() == cur@);
                assert(before.drop_last() =~= done);
            }
            cur.push(c);
        }
        i += 1;
    }
    proof {
        assert(v@.take(i as int) =~= v@);
        assert(done.push(cur@).drop_last() =~= done);
    }
    if zero || climbed {
        return false;
    }
    step_depth_exec(depth, &cur).is_some()
}

/// What unpacking one entry into `target_dir` creates: nothing for an
/// entry whose name would leave `target_dir`; a directory for a name that
/// ends in `/`; otherwise a file with the entry's content.
pub open spec fn unpack_one(e: RawEntryView, target_dir: Seq<char>) -> Seq<ExtractedView> {
    if !is_enclosed_spec(e.name) {
        Seq::empty()
    } else {
        seq![
            ExtractedView {
                path: join_spec(target_dir, e.name),
                is_dir: ends_with_spec(e.name, seq!['/']),
                data: if ends_with_spec(e.name, seq!['/']) {
                    Seq::empty()
                } else {
                    e.data
                },
                mode: e.mode,
            },
        ]
    }
}

/// Whether the zip reader hands out every one of the first `n` entries.
pub open spec fn entries_readable(bytes: Seq<u8>, n: int) -> bool {
    forall|i: nat| i < n ==> (#[trigger] zip_entry_spec(bytes, i)) is Some
}

/// What unpacking the first `n` entries of `bytes` into `target_dir`
/// creates, in the order of the archive.
pub open spec fn unpacked_upto(bytes: Seq<u8>, target_dir: Seq<char>, n: int) -> Seq<ExtractedView>
    decreases n,
{
    if n <= 0 {
        Seq::empty()
    } else {
        unpacked_upto(bytes, target_dir, n - 1) + unpack_one(
            zip_entry_spec(bytes, (n - 1) as nat)->Some_0,
            target_dir,
        )
    }
}

/// Whether `bytes` is an archive that unpacks without fault.
pub open spec fn unpackable(bytes: Seq<u8>) -> bool {
    zip_opens(bytes) && entries_readable(bytes, zip_count(bytes) as int)
}

/// What one entry of an archive unpacks to below `target_dir`.
pub fn place_entry(e: RawEntry, target_dir: &str) -> (r: Option<ExtractedEntry>)
    ensures
        match r {
            Some(x) => unpack_one(e@, target_dir@) == seq![x@],
            None => unpack_one(e@, target_dir@) == Seq::<ExtractedView>::empty(),
        },
{
    if !is_enclosed(e.name.as_str()) {
        return None;
    }
    let path = join(target_dir, e.name.as_str());
    let is_dir = str_ends_with(e.name.as_str(), "/");
    proof {
        reveal_strlit("/");
        assert("/"@ =~= seq!['/']);
    }
    let data = if is_dir {
        Vec::new()
    } else {
        e.data
    };
    Some(ExtractedEntry { path, is_dir, data, mode: e.mode })
}

/// Lists what unpacking the archive `bytes` into `target_dir` creates, in
/// the order of the archive. Fails exactly where the zip reader does not
/// accept the bytes or fails on an entry.
pub fn extract(bytes: Vec<u8>, target_dir: &str) -> (r: Result<Vec<ExtractedEntry>, FormattedError>)
    ensures
        r is Ok <==> unpackable(bytes@),
        r is Ok ==> extracted_views(r->Ok_0@) == unpacked_upto(
            bytes@,
            target_dir@,
            zip_count(bytes@) as int,
        ),
{
    let ghost src = bytes@;
    let mut archive = match zip_open(bytes) {
        Some(a) => a,
        None => {
            return Err(fail("Not a readable zip archive"));
        },
    };
    let n = zip_len(&archive);
    let mut out: Vec<ExtractedEntry> = Vec::new();
    let mut i: usize = 0;
    proof {
        assert(extracted_views(out@) =~= Seq::empty());
    }
    while i < n
        invariant
            0 <= i <= n,
            n == zip_count(src),
            src == bytes@,
            zip_opens(src),
            archive_source(archive) == src,
            entries_readable(src, i as int),
            extracted_views(out@) == unpacked_upto(src, target_dir@, i as int),
        decreases n - i,
    {
        let e = match zip_entry(&mut archive, i) {
            Some(e) => e,
            None => {
                proof {
                    assert(zip_entry_spec(src, i as nat) is None);
                    assert(!entries_readable(src, zip_count(src) as int));
                }
                return Err(fail("Corrupt entry in zip archive"));
            },
        };
        let ghost before = out@;
        match place_entry(e, target_dir) {
            Some(x) => {
                out.push(x);
                proof {
                    assert(extracted_views(out@) =~= extracted_views(before) + seq![x@]);
                }
            },
            None => {
                proof {
                    assert(extracted_views(out@) =~= extracted_views(before) + Seq::<
                        ExtractedView,
                    >::empty());
                }
            },
        }
        i += 1;
    }
    Ok(out)
}

/// The files among what was unpacked, as the list of their paths.
pub open spec fn file_paths_upto(v: Seq<ExtractedView>, n: int) -> Seq<Seq<char>>
    decreases n,
{
    if n <= 0 {
        Seq::empty()
    } else if v[n - 1].is_dir {
        file_paths_upto(v, n - 1)
    } else {
        file_paths_upto(v, n - 1).push(v[n - 1].path)
    }
}

/// The paths of the files among `entries`, in order.
pub fn extracted_files(entries: &Vec<ExtractedEntry>) -> (r: Vec<String>)
    ensures
        crate::installer::string_views(r@) == file_paths_upto(
            extracted_views(entries@),
            entries@.len() as int,
        ),
{
    let mut r: Vec<String> = Vec::new();
    let mut i: usize = 0;
    proof {
        assert(crate::installer::string_views(r@) =~= Seq::empty());
    }
    while i < entries.len()
        invariant
            0 <= i <= entries.len(),
            crate::installer::string_views(r@) == file_paths_upto(
                extracted_views(entries@),
                i as int,
            ),
        decreases entries.len() - i,
    {
        if !entries[i].is_dir {
            let ghost before = r@;
            r.push(entries[i].path.clone());
            proof {
                assert(crate::installer::string_views(r@) =~= crate::installer::string_views(
                    before,
                ).push(entries@[i as int].path@));
            }
        }
        i += 1;
    }
    r
}

/// Takes in a downloaded release: cuts off what follows the zip archive in
/// `bytes`, then lists what the archive unpacks to below `target_dir`. The
/// zip reader sees the trimmed bytes only. A fault of the trimming is
/// handed out as such; any other failure is one of the reader.
pub fn ingest(bytes: Vec<u8>, target_dir: &str) -> (r: Result<
    Vec<ExtractedEntry>,
    Result<ArchiveFault, FormattedError>,
>)
    requires
        bytes@.len() + 65536 <= usize::MAX,
    ensures
        r matches Err(Ok(f)) ==> trim_outcome(bytes@, Err(f)),
        !(r matches Err(Ok(_))) ==> exists|n: usize| #[trigger]
            trim_outcome(bytes@, Ok(n)) && (r is Ok <==> unpackable(resized(bytes@, n as int))) && (r is Ok
                ==> extracted_views(r->Ok_0@) == unpacked_upto(
                resized(bytes@, n as int),
                target_dir@,
                zip_count(resized(bytes@, n as int)) as int,
            )),
{
    let mut trimmed = bytes;
    match trim_zip_postfix(&mut trimmed) {
        Err(f) => {
            return Err(Ok(f));
        },
        Ok(_) => {},
    }
    let ghost n = choose|n: usize| #[trigger]
        trim_outcome(bytes@, Ok(n)) && trimmed@ == resized(bytes@, n as int);
    match extract(trimmed, target_dir) {
        Ok(v) => Ok(v),
        Err(e) => Err(Err(e)),
    }
}

} // verus!
