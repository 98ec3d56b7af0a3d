use shellfs::executable_extensions;
use shellfs::ExtensionSet;

fn assert_default_set(set: &ExtensionSet) {
    let entries = set.entries();
    assert_eq!(entries.len(), 4);
    for expected in [".COM", ".EXE", ".BAT", ".CMD"] {
        assert!(entries.iter().any(|e| e == expected), "missing {expected}");
    }
}

#[test]
fn absent_signal_yields_default_set() {
    let set = executable_extensions(None);
    assert_default_set(&set);
}

#[test]
fn signal_entries_are_normalized() {
    let set = executable_extensions(Some(".PS1;exe;.bat"));
    let entries = set.entries();
    assert_eq!(entries.len(), 3);
    for expected in [".PS1", ".exe", ".bat"] {
        assert!(entries.iter().any(|e| e == expected), "missing {expected}");
    }
}

#[test]
fn empty_signal_falls_back_to_default_set() {
    let set = executable_extensions(Some(""));
    assert_default_set(&set);
}

#[test]
fn whitespace_signal_falls_back_to_default_set() {
    let set = executable_extensions(Some("   \t  "));
    assert_default_set(&set);
}

#[test]
fn non_ascii_whitespace_is_trimmed() {
    let set = executable_extensions(Some(".exe\u{00A0};\u{2003}com\u{3000}"));
    let entries = set.entries();
    assert_eq!(entries.len(), 2);
    assert_eq!(entries[0], ".exe");
    assert_eq!(entries[1], ".com");
}

#[test]
fn non_ascii_whitespace_signal_falls_back_to_default_set() {
    let set = executable_extensions(Some("\u{00A0}"));
    assert_default_set(&set);
    let set = executable_extensions(Some("\u{2000}\u{0085}\u{202F};\u{205F}"));
    assert_default_set(&set);
}

#[test]
fn blank_entries_signal_falls_back_to_default_set() {
    let set = executable_extensions(Some(" ; ;\t; "));
    assert_default_set(&set);
}

#[test]
fn entries_are_trimmed_and_kept_in_order() {
    let set = executable_extensions(Some("  com ;\t.exe ;; cmd"));
    let entries = set.entries();
    assert_eq!(entries.len(), 3);
    assert_eq!(entries[0], ".com");
    assert_eq!(entries[1], ".exe");
    assert_eq!(entries[2], ".cmd");
}

#[test]
fn default_set_order_is_conventional() {
    let set = executable_extensions(None);
    let entries = set.entries();
    assert_eq!(entries[0], ".COM");
    assert_eq!(entries[1], ".EXE");
    assert_eq!(entries[2], ".BAT");
    assert_eq!(entries[3], ".CMD");
}

#[test]
fn membership_folds_ascii_case() {
    let set = executable_extensions(None);
    assert!(set.contains_ignore_case(".exe"));
    assert!(set.contains_ignore_case(".EXE"));
    assert!(set.contains_ignore_case(".Bat"));
    assert!(!set.contains_ignore_case("exe"));
    assert!(!set.contains_ignore_case(".xyz"));
    assert!(!set.contains_ignore_case(""));
}

#[test]
fn non_ascii_entries_are_kept_and_fold_ascii_only() {
    let set = executable_extensions(Some(" .é ;md"));
    let entries = set.entries();
    assert_eq!(entries.len(), 2);
    assert_eq!(entries[0], ".é");
    assert_eq!(entries[1], ".md");
    assert!(set.contains_ignore_case(".é"));
    // Folding is ASCII-only: an accented capital stays distinct.
    assert!(!set.contains_ignore_case(".É"));
    assert!(set.contains_ignore_case(".MD"));
}

#[test]
fn recomputation_yields_identical_entries() {
    let a = executable_extensions(Some(".PS1;exe;.bat"));
    let b = executable_extensions(Some(".PS1;exe;.bat"));
    assert_eq!(a.entries(), b.entries());
    let c = executable_extensions(None);
    let d = executable_extensions(None);
    assert_eq!(c.entries(), d.entries());
}

#[test]
fn registry_len_matches_entries() {
    let set = executable_extensions(Some(".a;.b"));
    assert_eq!(set.len(), 2);
    assert_eq!(set.entries().len(), 2);
}
