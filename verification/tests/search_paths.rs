use shellfs::get_default_executable_search_paths;
use shellfs::get_default_standard_utils_paths;

#[test]
fn system_root_yields_system_binary_directory() {
    let paths = get_default_executable_search_paths(Some("C:\\Windows"));
    assert_eq!(paths, vec!["C:\\Windows\\System32".to_string()]);
}

#[test]
fn absent_system_root_yields_empty_listing() {
    let paths = get_default_executable_search_paths(None);
    assert!(paths.is_empty());
}

#[test]
fn utils_listing_derives_from_the_same_signal() {
    assert_eq!(
        get_default_standard_utils_paths(Some("C:\\Windows")),
        vec!["C:\\Windows\\System32".to_string()]
    );
    assert!(get_default_standard_utils_paths(None).is_empty());
}

#[test]
fn trailing_separator_is_not_doubled() {
    assert_eq!(
        get_default_executable_search_paths(Some("C:\\Windows\\")),
        vec!["C:\\Windows\\System32".to_string()]
    );
    assert_eq!(
        get_default_executable_search_paths(Some("D:/root/")),
        vec!["D:/root/System32".to_string()]
    );
}

#[test]
fn empty_system_root_yields_bare_subdirectory() {
    assert_eq!(
        get_default_executable_search_paths(Some("")),
        vec!["System32".to_string()]
    );
}
