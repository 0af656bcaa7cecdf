use vidfetch::urlcheck::{is_valid_url, screen_urls};

#[test]
fn accepts_well_formed_urls() {
    assert!(is_valid_url("https://example.com/watch?v=abc"));
    assert!(is_valid_url("http://example.com/"));
}

#[test]
fn rejects_malformed_urls() {
    assert!(!is_valid_url("not a url"));
    assert!(!is_valid_url(""));
    assert!(!is_valid_url("example.com/no-scheme"));
}

#[test]
fn screening_keeps_valid_entries_in_order() {
    let batch = vec![
        "https://example.com/a".to_string(),
        "nonsense".to_string(),
        "https://example.com/b".to_string(),
        "".to_string(),
    ];
    let kept = screen_urls(&batch);
    assert_eq!(kept, vec!["https://example.com/a".to_string(), "https://example.com/b".to_string()]);
}

#[test]
fn screening_an_empty_batch_yields_nothing() {
    let batch: Vec<String> = Vec::new();
    assert!(screen_urls(&batch).is_empty());
}
