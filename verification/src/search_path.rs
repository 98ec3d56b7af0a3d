//! Default search paths for executables and standard utilities.
//!
//! Both listings are derived from the platform's system-root signal:
//! when it is present, the single entry is the system-binary
//! subdirectory under that root; when it is absent, the listing is
//! empty. Absence of configuration is never an error. The two
//! operations currently coincide on purpose: this platform has no
//! distinct convention for a standard-utility location, but the
//! interface keeps them separate.

use vstd::prelude::*;

use crate::opt_str_view;
use crate::string_views;

verus! {

/// The system-binary directory under the given root: the fixed
/// subdirectory name, joined with the platform separator unless the
/// root already ends in one.
pub open spec fn system32_of(root: Seq<char>) -> Seq<char> {
    if root.len() == 0 {
        "System32"@
    } else if root.last() == '\\' || root.last() == '/' {
        root + "System32"@
    } else {
        root + "\\System32"@
    }
}

/// The search-path listing derived from the system-root signal: one
/// entry when the signal is present, none when it is absent.
pub open spec fn search_paths_spec(root: Option<Seq<char>>) -> Seq<Seq<char>> {
    match root {
        None => Seq::<Seq<char>>::empty(),
        Some(r) => seq![system32_of(r)],
    }
}

/// The system-binary directory under `root`.
fn system32_path(root: &str) -> (r: String)
    ensures
        r@ == system32_of(root@),
{
    let n = root.unicode_len();
    if n == 0 {
        String::from_str("System32")
    } else {
        let c = root.get_char(n - 1);
        proof {
            assert(root@.last() == root@[n - 1]);
        }
        if c == '\\' || c == '/' {
            String::from_str(root).concat("System32")
        } else {
            String::from_str(root).concat("\\System32")
        }
    }
}

/// The default directories in which to search for executables, derived
/// from the system-root signal; empty when the signal is absent.
pub fn get_default_executable_search_paths(system_root: Option<&str>) -> (r: Vec<String>)
    ensures
        string_views(r@) == search_paths_spec(opt_str_view(system_root)),
{
    let mut paths: Vec<String> = Vec::new();
    match system_root {
        None => {
            proof {
                assert(string_views(paths@) =~= search_paths_spec(None));
            }
        },
        Some(root) => {
            let p = system32_path(root);
            paths.push(p);
            proof {
                assert(string_views(paths@) =~= seq![system32_of(root@)]);
            }
        },
    }
    paths
}

/// The default directories in which to look for standard utilities.
/// This platform has no distinct utility-location convention, so the
/// listing coincides with the executable search paths; the operation is
/// kept separate so callers need not bake that coincidence in.
pub fn get_default_standard_utils_paths(system_root: Option<&str>) -> (r: Vec<String>)
    ensures
        string_views(r@) == search_paths_spec(opt_str_view(system_root)),
{
    let mut paths: Vec<String> = Vec::new();
    match system_root {
        None => {
            proof {
                assert(string_views(paths@) =~= search_paths_spec(None));
            }
        },
        Some(root) => {
            let p = system32_path(root);
            paths.push(p);
            proof {
                assert(string_views(paths@) =~= seq![system32_of(root@)]);
            }
        },
    }
    paths
}

} // verus!
