//! Filesystem-capability and executable-resolution layer for a shell
//! runtime on a platform without Unix permission, device or inode
//! concepts.
//!
//! The layer answers per-path capability questions (readable, writable,
//! executable, special-file kinds, identity, ownership), derives the
//! registry of executable file-name suffixes from an environment signal,
//! and enumerates the default directories in which to search for
//! commands. Predicates whose underlying concept does not exist on this
//! platform are honestly `false`, never synthesized as `true`.

#![allow(unused_imports)]

use vstd::prelude::*;

pub mod capability;
pub mod extensions;
pub mod search_path;

pub use capability::Error;
pub use capability::FileIdentity;
pub use capability::Metadata;
pub use capability::PathFacts;
pub use extensions::ExtensionSet;
pub use extensions::executable_extensions;
pub use search_path::get_default_executable_search_paths;
pub use search_path::get_default_standard_utils_paths;

verus! {

/// The views of a sequence of strings, as sequences of characters.
pub open spec fn string_views(ss: Seq<String>) -> Seq<Seq<char>> {
    ss.map_values(|s: String| s@)
}

/// The view of an optional borrowed string.
pub open spec fn opt_str_view(s: Option<&str>) -> Option<Seq<char>> {
    match s {
        Some(t) => Some(t@),
        None => None,
    }
}

} // verus!
