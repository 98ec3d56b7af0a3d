use shellfs::executable_extensions;
use shellfs::FileIdentity;
use shellfs::Metadata;
use shellfs::PathFacts;

fn facts(is_regular_file: bool, extension: Option<&str>) -> PathFacts {
    PathFacts { is_regular_file, extension: extension.map(str::to_owned) }
}

#[test]
fn every_path_is_readable_and_writable() {
    let f = facts(false, None);
    assert!(f.readable());
    assert!(f.writable());
    let g = facts(true, Some("exe"));
    assert!(g.readable());
    assert!(g.writable());
}

#[test]
fn non_regular_file_is_never_executable() {
    let set = executable_extensions(None);
    assert!(!facts(false, Some("exe")).executable(&set));
    assert!(!facts(false, Some("EXE")).executable(&set));
    assert!(!facts(false, None).executable(&set));
}

#[test]
fn path_without_extension_is_never_executable() {
    let set = executable_extensions(None);
    assert!(!facts(true, None).executable(&set));
}

#[test]
fn executable_iff_extension_in_registry_case_folded() {
    let set = executable_extensions(None);
    assert!(facts(true, Some("exe")).executable(&set));
    assert!(facts(true, Some("ExE")).executable(&set));
    assert!(facts(true, Some("bat")).executable(&set));
    assert!(!facts(true, Some("xyz")).executable(&set));
    assert!(!facts(true, Some("")).executable(&set));
}

#[test]
fn executable_respects_configured_registry() {
    let set = executable_extensions(Some(".PS1;exe;.bat"));
    assert!(facts(true, Some("ps1")).executable(&set));
    assert!(facts(true, Some("exe")).executable(&set));
    assert!(facts(true, Some("BAT")).executable(&set));
    assert!(!facts(true, Some("com")).executable(&set));
}

#[test]
fn special_file_predicates_are_false() {
    let f = facts(true, Some("exe"));
    assert!(!f.exists_and_is_block_device());
    assert!(!f.exists_and_is_char_device());
    assert!(!f.exists_and_is_fifo());
    assert!(!f.exists_and_is_socket());
    assert!(!f.exists_and_is_setgid());
    assert!(!f.exists_and_is_setuid());
    assert!(!f.exists_and_is_sticky_bit());
}

#[test]
fn identity_is_the_sentinel_for_distinct_paths() {
    let a = facts(true, Some("exe")).get_device_and_inode();
    let b = facts(true, Some("bat")).get_device_and_inode();
    assert_eq!(a, Ok(FileIdentity { device: 0, inode: 0 }));
    assert_eq!(b, Ok(FileIdentity { device: 0, inode: 0 }));
    // Equal sentinels carry no information that the two paths name the
    // same file.
    assert_eq!(a, b);
}

#[test]
fn ownership_defaults_to_zero() {
    let m = Metadata {};
    assert_eq!(m.uid(), 0);
    assert_eq!(m.gid(), 0);
}
