use vidfetch::progress::{classify_stderr_line, parse_progress, ProgressState, StderrEvent};

#[test]
fn parses_progress_line() {
    assert_eq!(parse_progress("[download]  12.3%"), Some(12));
}

#[test]
fn rounds_half_up_and_clamps() {
    assert_eq!(parse_progress("[download]  99.9%"), Some(100));
    assert_eq!(parse_progress("[download]  12.5%"), Some(13));
    assert_eq!(parse_progress("[download]  12.49%"), Some(12));
    assert_eq!(parse_progress("[download]  250.0%"), Some(100));
    assert_eq!(parse_progress("[download]  0.4%"), Some(0));
    assert_eq!(parse_progress("[download]  100.0%"), Some(100));
}

#[test]
fn finds_leftmost_match_inside_line() {
    assert_eq!(parse_progress("frag 3: [download]  42.7% ETA 00:12"), Some(43));
    assert_eq!(parse_progress("xx[download] 5.0% tail"), Some(5));
}

#[test]
fn rejects_lines_without_full_pattern() {
    assert_eq!(parse_progress("ERROR: network unreachable"), None);
    assert_eq!(parse_progress("[download]  12.3"), None);
    assert_eq!(parse_progress("[download]  12%"), None);
    assert_eq!(parse_progress("[download].5%"), None);
    assert_eq!(parse_progress("[download]12.3%"), None);
    assert_eq!(parse_progress("short"), None);
}

#[test]
fn streamer_reaches_final_progress_and_forwards_diagnostics() {
    let lines = ["[download]  12.3%", "[download]  99.9%", "ERROR: network unreachable"];
    let mut state = ProgressState::new();
    let mut forwarded: Vec<&str> = Vec::new();
    for line in lines.iter() {
        match classify_stderr_line(line) {
            ev @ StderrEvent::Progress(_) => state.apply(ev),
            StderrEvent::Diagnostic => forwarded.push(line),
        }
    }
    assert!(state.get() >= 99);
    assert_eq!(forwarded, vec!["ERROR: network unreachable"]);
}

#[test]
fn diagnostic_leaves_progress_unchanged() {
    let mut state = ProgressState::new();
    state.apply(StderrEvent::Progress(55));
    state.apply(StderrEvent::Diagnostic);
    assert_eq!(state.get(), 55);
}

#[test]
fn progress_state_clamps_updates() {
    let mut state = ProgressState::new();
    state.apply(StderrEvent::Progress(300));
    assert_eq!(state.get(), 100);
}
