use overlay_core::handshake::{
    check_response, command_line, scan_command, teleport_command, RESPONSE_POLL_ATTEMPTS,
    RESPONSE_POLL_INTERVAL_MS,
};

#[test]
fn scan_command_text() {
    assert_eq!(scan_command(), b"SCAN".to_vec());
}

#[test]
fn teleport_command_text() {
    assert_eq!(teleport_command(b"Shrine of Flame"), b"TPNAME Shrine of Flame".to_vec());
}

#[test]
fn command_line_appends_timestamp() {
    let cmd = scan_command();
    assert_eq!(command_line(&cmd, 1723456789012), b"SCAN 1723456789012".to_vec());
}

#[test]
fn response_with_matching_timestamp_is_taken() {
    let r = check_response(b"OK 3 points\nTIMESTAMP:1723456789012", 1723456789012);
    assert_eq!(r, Some(b"OK 3 points".to_vec()));
}

#[test]
fn response_without_marker_is_taken() {
    let r = check_response(b"  OK \r\n", 55);
    assert_eq!(r, Some(b"OK".to_vec()));
}

#[test]
fn response_with_other_timestamp_is_ignored() {
    let r = check_response(b"OK\nTIMESTAMP:999", 55);
    assert_eq!(r, None);
}

#[test]
fn response_body_is_cut_at_first_marker() {
    let r = check_response(b"first TIMESTAMP:7 second TIMESTAMP:8", 7);
    assert_eq!(r, Some(b"first".to_vec()));
}

#[test]
fn poll_budget_is_five_seconds() {
    assert_eq!(RESPONSE_POLL_ATTEMPTS * RESPONSE_POLL_INTERVAL_MS, 5000);
}
