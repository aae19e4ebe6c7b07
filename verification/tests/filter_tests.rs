use huiz::filter::{filter_line, DisclaimerRule};
use huiz::{hide_line, HideState};

#[test]
fn disclaimer_round_trip_blank_terminated() {
    let rules = vec![DisclaimerRule {
        start: "<start-marker>".to_string(),
        end: Some(String::new()),
    }];
    let mut st = HideState::NotStarted;
    let block = ["<start-marker> text\n", "more boilerplate\n", "\n", "REAL DATA\n"];
    let hidden: Vec<bool> = block.iter().map(|l| filter_line(&rules, &mut st, l)).collect();
    assert_eq!(hidden, vec![true, true, true, false]);
    assert_eq!(st, HideState::NotStarted);
}

#[test]
fn hide_line_block_to_end_of_stream() {
    let mut st = HideState::NotStarted;
    assert!(hide_line(&mut st, "TERMS OF USE: You are not authorized to access this\n"));
    assert_eq!(st, HideState::ToEnd);
    assert!(hide_line(&mut st, "Domain Name: EXAMPLE.COM\n"));
    assert_eq!(st, HideState::ToEnd);
}

#[test]
fn hide_line_marker_terminated_block() {
    let mut st = HideState::NotStarted;
    assert!(hide_line(&mut st, "This Registry database contains ONLY .EDU resources.\n"));
    assert!(matches!(st, HideState::InBlock(_)));
    assert!(hide_line(&mut st, "some boilerplate in the middle\n"));
    assert!(matches!(st, HideState::InBlock(_)));
    // The line starting with the text end-marker closes the block and is
    // itself shown.
    assert!(!hide_line(&mut st, "domain names. Registrants may check theirs.\n"));
    assert_eq!(st, HideState::NotStarted);
    assert!(!hide_line(&mut st, "Domain Name: EXAMPLE.EDU\n"));
}

#[test]
fn hide_line_blank_terminated_block() {
    let mut st = HideState::NotStarted;
    assert!(hide_line(&mut st, "# Welcome to the OVH WHOIS Server\n"));
    assert!(matches!(st, HideState::InBlock(_)));
    assert!(hide_line(&mut st, "# all rights reserved\n"));
    assert!(hide_line(&mut st, "\r\n"));
    assert_eq!(st, HideState::NotStarted);
    assert!(!hide_line(&mut st, "Domain Name: EXAMPLE.COM\n"));
}

#[test]
fn hide_line_disabled_shows_everything() {
    let mut st = HideState::Disabled;
    assert!(!hide_line(&mut st, "TERMS OF USE: You are not authorized\n"));
    assert_eq!(st, HideState::Disabled);
}

#[test]
fn hide_line_plain_lines_shown() {
    let mut st = HideState::NotStarted;
    assert!(!hide_line(&mut st, "Domain Name: EXAMPLE.COM\n"));
    assert_eq!(st, HideState::NotStarted);
}
