use vidfetch::chars::{contains_ci, ends_with_ci, str_eq, trim_spaces};

#[test]
fn trims_both_ends() {
    assert_eq!(trim_spaces("  2024.3.5 \n"), "2024.3.5");
    assert_eq!(trim_spaces("no-edges"), "no-edges");
    assert_eq!(trim_spaces("   \t \n"), "");
    assert_eq!(trim_spaces(""), "");
}

#[test]
fn string_equality_is_exact() {
    assert!(str_eq("abc", "abc"));
    assert!(!str_eq("abc", "abd"));
    assert!(!str_eq("abc", "abcd"));
    assert!(str_eq("", ""));
}

#[test]
fn substring_search_folds_ascii_case() {
    assert!(contains_ci("FFmpeg-N-WIN64-GPL.zip", "win64"));
    assert!(contains_ci("plain", ""));
    assert!(!contains_ci("linux64", "win64"));
}

#[test]
fn suffix_test_folds_ascii_case() {
    assert!(ends_with_ci("bundle.ZIP", ".zip"));
    assert!(!ends_with_ci("bundle.zip.sha256", ".zip"));
    assert!(!ends_with_ci("zip", ".zip"));
}
