//! Fixed names and limits shared by every component of the updater.
use vstd::prelude::*;

verus! {

/// Seconds during which a finished update check is not repeated.
pub const PAKKLY_CACHE_SEC: i64 = 60;

/// Size in bytes of the buffer that file contents are streamed through.
pub const FS_BUFFER_SIZE: usize = 65536;

/// Hidden flag that makes a staged updater replace the resident one.
pub const PAKKLY_CLI_REPLACE_SHIPPER: &'static str = "--pakkly_install";

pub const PAKKLY_CLI_INSTALL_QUIET: &'static str = "--pakkly_install_quiet";

pub const PAKKLY_CLI_UNINSTALL: &'static str = "--pakkly_uninstall";

pub const PAKKLY_CLI_UNINSTALL_QUIET: &'static str = "--pakkly_uninstall_quiet";

pub const PAKKLY_CLI_NOROOT: &'static str = "--pakkly_noroot";

pub const PAKKLY_CLI_VERSION: &'static str = "--pakkly_version";

pub const PAKKLY_CLI_INSTALLEXACT_SHIPPER: &'static str = "--pakkly_installexact_shipper";

pub const PAKKLY_CLI_INSTALLEXACT_APP: &'static str = "--pakkly_installexact_app";

/// Hash of an entry that is replaced on every update, whatever it holds.
pub const HASH_ALWAYS_REPLACE: &'static str = "ALWAYS";

/// Hash of an entry that is a directory.
pub const HASH_DIRECTORY: &'static str = "DIRECTORY";

/// Hash of an entry whose content has not been hashed yet.
pub const HASH_DEFER: &'static str = "DEFER";

/// The characters of [`HASH_DEFER`].
pub open spec fn defer_chars() -> Seq<char> {
    seq!['D', 'E', 'F', 'E', 'R']
}

/// The characters of [`HASH_ALWAYS_REPLACE`].
pub open spec fn always_chars() -> Seq<char> {
    seq!['A', 'L', 'W', 'A', 'Y', 'S']
}

/// The characters of [`HASH_DIRECTORY`].
pub open spec fn directory_chars() -> Seq<char> {
    seq!['D', 'I', 'R', 'E', 'C', 'T', 'O', 'R', 'Y']
}

/// The three sentinel constants hold exactly the characters above.
pub proof fn lemma_sentinel_chars()
    ensures
        HASH_DEFER@ == defer_chars(),
        HASH_ALWAYS_REPLACE@ == always_chars(),
        HASH_DIRECTORY@ == directory_chars(),
{
    reveal_strlit("DEFER");
    reveal_strlit("ALWAYS");
    reveal_strlit("DIRECTORY");
    assert(HASH_DEFER@ =~= defer_chars());
    assert(HASH_ALWAYS_REPLACE@ =~= always_chars());
    assert(HASH_DIRECTORY@ =~= directory_chars());
}

/// A fresh `String` holding the deferred-hash sentinel.
pub fn hash_defer() -> (r: String)
    ensures
        r@ == defer_chars(),
{
    proof {
        lemma_sentinel_chars();
    }
    HASH_DEFER.to_string()
}

/// A fresh `String` holding the always-replace sentinel.
pub fn hash_always_replace() -> (r: String)
    ensures
        r@ == always_chars(),
{
    proof {
        lemma_sentinel_chars();
    }
    HASH_ALWAYS_REPLACE.to_string()
}

/// A fresh `String` holding the directory sentinel.
pub fn hash_directory() -> (r: String)
    ensures
        r@ == directory_chars(),
{
    proof {
        lemma_sentinel_chars();
    }
    HASH_DIRECTORY.to_string()
}

/// The operating system family the updater runs on.
#[derive(Clone, Copy, Debug, PartialEq, Eq, Structural)]
pub enum Platform {
    Windows,
    Macos,
    Linux,
}

/// What one updater binary knows about itself and its surroundings. It is
/// built once at startup and handed to every component.
#[derive(Clone, Debug)]
pub struct Config {
    /// The per-user directory for application data.
    pub data_local_dir: String,
    /// Identifier of the wrapped application.
    pub pakkly_id: String,
    /// Version of this updater binary.
    pub shipper_version: String,
    /// Release channel this updater follows.
    pub shipper_channel: String,
    /// Base URL of the delivery server.
    pub remote_url: String,
    pub platform: Platform,
    /// Whether no valid install record was found at startup.
    pub fresh_install: bool,
}

impl Platform {
    /// Whether a running executable's file can be overwritten in place.
    pub open spec fn can_replace_running_binary_spec(self) -> bool {
        self != Platform::Windows
    }

    /// Whether a running executable's file can be overwritten in place.
    pub fn can_replace_running_binary(self) -> (r: bool)
        ensures
            r == self.can_replace_running_binary_spec(),
    {
        match self {
            Platform::Windows => false,
            _ => true,
        }
    }

    /// The number the delivery server knows this platform by on a processor
    /// of kind `arch`, or `None` for a pairing that no release exists for.
    pub open spec fn platform_type_spec(self, arch: Arch) -> Option<i32> {
        match (self, arch) {
            (Platform::Windows, Arch::X86) => Some(0i32),
            (Platform::Windows, Arch::X86_64) => Some(1i32),
            (Platform::Windows, Arch::Aarch64) => Some(2i32),
            (Platform::Linux, Arch::X86) => Some(3i32),
            (Platform::Linux, Arch::X86_64) => Some(4i32),
            (Platform::Linux, Arch::Aarch64) => Some(5i32),
            (Platform::Macos, Arch::X86) => None,
            (Platform::Macos, Arch::X86_64) => Some(6i32),
            (Platform::Macos, Arch::Aarch64) => Some(7i32),
        }
    }

    /// The number the delivery server knows this platform by.
    pub fn platform_type(self, arch: Arch) -> (r: Option<i32>)
        ensures
            r == self.platform_type_spec(arch),
    {
        match (self, arch) {
            (Platform::Windows, Arch::X86) => Some(0i32),
            (Platform::Windows, Arch::X86_64) => Some(1i32),
            (Platform::Windows, Arch::Aarch64) => Some(2i32),
            (Platform::Linux, Arch::X86) => Some(3i32),
            (Platform::Linux, Arch::X86_64) => Some(4i32),
            (Platform::Linux, Arch::Aarch64) => Some(5i32),
            (Platform::Macos, Arch::X86) => None,
            (Platform::Macos, Arch::X86_64) => Some(6i32),
            (Platform::Macos, Arch::Aarch64) => Some(7i32),
        }
    }
}

/// The processor family the updater was built for.
#[allow(non_camel_case_types)]
#[derive(Clone, Copy, Debug, PartialEq, Eq, Structural)]
pub enum Arch {
    X86,
    X86_64,
    Aarch64,
}

/// A value that was patched into the binary, without the zero characters
/// that pad it.
pub fn clean_placeholder(dirty: &str) -> (r: String)
    ensures
        r@ == crate::text::without_char_upto(dirty@, '\0', dirty@.len() as int),
{
    crate::text::remove_char(dirty, '\0')
}

} // verus!
