use lazy_proxy::readiness::{line_is_ready, scan_for_ready};

#[test]
fn test_line_contains_pattern() {
    let pattern = b"Done".to_vec();
    assert!(line_is_ready(
        &b"[12:00:01] [Server thread/INFO]: Done (3.2s)! For help, type \"help\"".to_vec(),
        &pattern
    ));
    assert!(line_is_ready(&b"Done".to_vec(), &pattern));
    assert!(!line_is_ready(&b"Loading libraries...".to_vec(), &pattern));
    assert!(!line_is_ready(&b"done".to_vec(), &pattern));
    assert!(!line_is_ready(&b"Don".to_vec(), &pattern));
}

#[test]
fn test_empty_pattern_matches_any_line() {
    assert!(line_is_ready(&b"anything".to_vec(), &Vec::new()));
    assert!(line_is_ready(&Vec::new(), &Vec::new()));
}

#[test]
fn test_scan_returns_first_matching_line() {
    // The first N lines lack the ready substring; the (N+1)th has it.
    // All N prior lines are echoed before readiness is reported.
    let lines = vec![
        b"Starting server...".to_vec(),
        b"Loading world".to_vec(),
        b"Preparing spawn area".to_vec(),
        b"Done (3.2s)! For help, type \"help\"".to_vec(),
        b"A later Done line is not the first".to_vec(),
    ];
    let scan = scan_for_ready(&lines, &b"Done".to_vec());
    assert!(scan.found);
    assert_eq!(scan.echoed, 3);
}

#[test]
fn test_scan_without_match_echoes_everything() {
    let lines = vec![b"one".to_vec(), b"two".to_vec(), b"three".to_vec()];
    let scan = scan_for_ready(&lines, &b"ready".to_vec());
    assert!(!scan.found);
    assert_eq!(scan.echoed, 3);
}

#[test]
fn test_scan_empty_output() {
    let scan = scan_for_ready(&Vec::new(), &b"ready".to_vec());
    assert!(!scan.found);
    assert_eq!(scan.echoed, 0);
}
