//! Per-path capability queries.
//!
//! On this platform the filesystem layer is fully permissive, so
//! readability and writability are constant. Executability is a policy
//! over the file kind and the file-name extension alone: a path is
//! executable iff it names a regular file whose extension, compared
//! case-insensitively with its leading separator, appears in the
//! executable-extension registry. Device, FIFO, socket, setuid, setgid
//! and sticky concepts do not exist here, so the corresponding
//! predicates are always `false`, and the identity query yields a fixed
//! sentinel that callers must read as "identity unknown".

use vstd::prelude::*;

use crate::extensions::ExtensionSet;
use crate::extensions::folded;
use crate::extensions::set_contains_ignore_case;

verus! {

/// An input/output failure surfaced to a caller. The capability
/// queries of this platform never produce one; the variant exists
/// because the interface carries genuine filesystem errors where the
/// platform can raise them.
#[derive(Clone, Copy, PartialEq, Eq, Structural, Debug)]
pub enum Error {
    Io,
}

/// Identity of a filesystem object: device and inode numbers. This
/// platform populates neither, so every query yields the sentinel pair
/// `(0, 0)`; equal identities must be read as "identity unknown", never
/// as proof that two paths name the same file.
#[derive(Clone, Copy, PartialEq, Eq, Structural, Debug)]
pub struct FileIdentity {
    pub device: u64,
    pub inode: u64,
}

/// The sentinel identity reported for every path on a platform without
/// identity tracking.
pub open spec fn sentinel_identity() -> FileIdentity {
    FileIdentity { device: 0, inode: 0 }
}

/// What the identity query returns here: always the sentinel, never an
/// error.
pub open spec fn identity_result_spec() -> Result<FileIdentity, Error> {
    Ok(sentinel_identity())
}

/// What the platform reports about one path: whether it names a regular
/// file, and the file-name extension if there is one (without its
/// leading separator, exactly as the platform hands it out).
pub struct PathFacts {
    pub is_regular_file: bool,
    pub extension: Option<String>,
}

/// Whether a path with the given facts is executable under the policy:
/// a regular file whose extension, with the leading separator put back,
/// case-insensitively matches an entry of the registry. A path without
/// an extension is never executable.
pub open spec fn executable_spec(
    is_regular_file: bool,
    extension: Option<Seq<char>>,
    exts: Seq<Seq<char>>,
) -> bool {
    match extension {
        Some(e) => is_regular_file && set_contains_ignore_case(exts, seq!['.'] + e),
        None => false,
    }
}

impl PathFacts {
    /// The view of the extension, if there is one.
    pub open spec fn extension_view(&self) -> Option<Seq<char>> {
        match self.extension {
            Some(e) => Some(e@),
            None => None,
        }
    }

    /// The filesystem layer of this platform is fully permissive, so
    /// every path is readable.
    pub fn readable(&self) -> (r: bool)
        ensures
            r,
    {
        true
    }

    /// The filesystem layer of this platform is fully permissive, so
    /// every path is writable.
    pub fn writable(&self) -> (r: bool)
        ensures
            r,
    {
        true
    }

    /// Whether the path is executable under the extension policy.
    pub fn executable(&self, exts: &ExtensionSet) -> (r: bool)
        ensures
            r == executable_spec(self.is_regular_file, self.extension_view(), exts@),
    {
        if !self.is_regular_file {
            return false;
        }
        match &self.extension {
            None => false,
            Some(ext) => {
                let dotted = String::from_str(".").concat(ext.as_str());
                proof {
                    reveal_strlit(".");
                    assert("."@ =~= seq!['.']);
                }
                exts.contains_ignore_case(dotted.as_str())
            },
        }
    }

    /// Block devices do not exist on this platform.
    pub fn exists_and_is_block_device(&self) -> (r: bool)
        ensures
            !r,
    {
        false
    }

    /// Character devices do not exist on this platform.
    pub fn exists_and_is_char_device(&self) -> (r: bool)
        ensures
            !r,
    {
        false
    }

    /// FIFOs do not exist on this platform.
    pub fn exists_and_is_fifo(&self) -> (r: bool)
        ensures
            !r,
    {
        false
    }

    /// Filesystem sockets do not exist on this platform.
    pub fn exists_and_is_socket(&self) -> (r: bool)
        ensures
            !r,
    {
        false
    }

    /// The setgid bit does not exist on this platform.
    pub fn exists_and_is_setgid(&self) -> (r: bool)
        ensures
            !r,
    {
        false
    }

    /// The setuid bit does not exist on this platform.
    pub fn exists_and_is_setuid(&self) -> (r: bool)
        ensures
            !r,
    {
        false
    }

    /// The sticky bit does not exist on this platform.
    pub fn exists_and_is_sticky_bit(&self) -> (r: bool)
        ensures
            !r,
    {
        false
    }

    /// The identity query: this platform tracks no device or inode
    /// numbers, so it always succeeds with the sentinel pair.
    pub fn get_device_and_inode(&self) -> (r: Result<FileIdentity, Error>)
        ensures
            r == identity_result_spec(),
    {
        Ok(FileIdentity { device: 0, inode: 0 })
    }
}

/// Stand-in for a platform metadata record. This platform exposes no
/// ownership model, so the accessors report the fixed default owner.
pub struct Metadata {}

impl Metadata {
    /// The owning user: always the default, there is no ownership model.
    pub fn uid(&self) -> (r: u32)
        ensures
            r == 0,
    {
        0
    }

    /// The owning group: always the default, there is no ownership model.
    pub fn gid(&self) -> (r: u32)
        ensures
            r == 0,
    {
        0
    }
}

/// A path that does not name a regular file is never executable,
/// whatever its extension and whatever the registry holds.
pub proof fn lemma_non_regular_file_not_executable(
    extension: Option<Seq<char>>,
    exts: Seq<Seq<char>>,
)
    ensures
        !executable_spec(false, extension, exts),
{
}

/// A path without an extension is never executable, whatever its file
/// kind and whatever the registry holds.
pub proof fn lemma_no_extension_not_executable(is_regular_file: bool, exts: Seq<Seq<char>>)
    ensures
        !executable_spec(is_regular_file, None, exts),
{
}

/// A path is executable exactly when it names a regular file and its
/// extension, case-folded and with the leading separator put back,
/// appears among the case-folded entries of the registry.
pub proof fn lemma_executable_characterization(
    is_regular_file: bool,
    e: Seq<char>,
    exts: Seq<Seq<char>>,
)
    ensures
        executable_spec(is_regular_file, Some(e), exts) <==> (is_regular_file && exists|k: int|
            0 <= k < exts.len() && folded(exts[k]) == folded(seq!['.'] + e)),
{
}

/// The identity query yields the same sentinel for every path, so two
/// results that obey its contract are always equal: equal identities
/// carry no information that two paths name the same file.
pub proof fn lemma_identity_sentinel(
    r1: Result<FileIdentity, Error>,
    r2: Result<FileIdentity, Error>,
)
    requires
        r1 == identity_result_spec(),
        r2 == identity_result_spec(),
    ensures
        r1 == r2,
        r1 == Ok::<FileIdentity, Error>(sentinel_identity()),
        sentinel_identity().device == 0 && sentinel_identity().inode == 0,
{
}

} // verus!
