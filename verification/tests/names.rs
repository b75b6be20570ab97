use las::hidden::{is_excluded, is_excluded_entry, is_hidden};

#[test]
fn names_with_leading_period_are_hidden() {
    assert!(is_hidden(".git"));
    assert!(is_hidden(".bashrc"));
    assert!(is_hidden("."));
    assert!(is_hidden(".."));
    assert!(is_hidden(".é"));
}

#[test]
fn other_names_are_not_hidden() {
    assert!(!is_hidden("a.txt"));
    assert!(!is_hidden("src"));
    assert!(!is_hidden(""));
    assert!(!is_hidden(" .git"));
    assert!(!is_hidden("é.txt"));
}

#[test]
fn hidden_names_are_excluded_only_when_skipping() {
    assert!(is_excluded(true, ".git"));
    assert!(!is_excluded(false, ".git"));
    assert!(!is_excluded(true, "a.txt"));
    assert!(!is_excluded(false, "a.txt"));
    assert!(!is_excluded(true, ""));
}

#[test]
fn entry_without_readable_name_is_not_excluded() {
    assert!(!is_excluded_entry(true, None));
    assert!(!is_excluded_entry(false, None));
    assert!(is_excluded_entry(true, Some(".git")));
    assert!(!is_excluded_entry(false, Some(".git")));
    assert!(!is_excluded_entry(true, Some("a.txt")));
}
