use overlay_core::gamepad::{axis_payload, button_name, button_payload, event_script, gamepad_step, PadButton, PadEvent};
use overlay_core::payload::coord_line;
use overlay_core::text::{decimal_u64, find_bytes, text_bytes, trim_bytes};

#[test]
fn decimal_renders_zero() {
    assert_eq!(decimal_u64(0), b"0".to_vec());
}

#[test]
fn decimal_renders_digits() {
    assert_eq!(decimal_u64(7), b"7".to_vec());
    assert_eq!(decimal_u64(42), b"42".to_vec());
    assert_eq!(decimal_u64(1723456789012), b"1723456789012".to_vec());
}

#[test]
fn text_bytes_copies_ascii() {
    assert_eq!(text_bytes("TIMESTAMP:"), b"TIMESTAMP:".to_vec());
}

#[test]
fn find_bytes_first_occurrence() {
    assert_eq!(find_bytes(b"abcabc", b"bc"), Some(1));
    assert_eq!(find_bytes(b"abcabc", b"ca"), Some(2));
    assert_eq!(find_bytes(b"abcabc", b"d"), None);
    assert_eq!(find_bytes(b"abc", b""), Some(0));
    assert_eq!(find_bytes(b"ab", b"abc"), None);
}

#[test]
fn trim_removes_surrounding_whitespace() {
    assert_eq!(trim_bytes(b"  OK \r\n"), b"OK".to_vec());
    assert_eq!(trim_bytes(b"no-trim"), b"no-trim".to_vec());
    assert_eq!(trim_bytes(b" \t \n"), Vec::<u8>::new());
    assert_eq!(trim_bytes(b""), Vec::<u8>::new());
    assert_eq!(trim_bytes(b"a b"), b"a b".to_vec());
}

#[test]
fn button_names_match_ui() {
    assert_eq!(button_name(PadButton::South), Some(b"A".to_vec()));
    assert_eq!(button_name(PadButton::East), Some(b"B".to_vec()));
    assert_eq!(button_name(PadButton::DPadLeft), Some(b"DPAD_LEFT".to_vec()));
    assert_eq!(button_name(PadButton::DPadRight), Some(b"DPAD_RIGHT".to_vec()));
    assert_eq!(button_name(PadButton::Other), None);
}

#[test]
fn button_payload_renders_json() {
    let p = button_payload(PadButton::South, true).unwrap();
    assert_eq!(p, br#"{"type":"button","button":"A","state":"pressed"}"#.to_vec());
    let r = button_payload(PadButton::DPadRight, false).unwrap();
    assert_eq!(r, br#"{"type":"button","button":"DPAD_RIGHT","state":"released"}"#.to_vec());
    assert_eq!(button_payload(PadButton::Other, true), None);
}

#[test]
fn axis_payload_renders_direction() {
    assert_eq!(axis_payload(-1), br#"{"type":"axis","axis":"left_x","direction":-1}"#.to_vec());
    assert_eq!(axis_payload(0), br#"{"type":"axis","axis":"left_x","direction":0}"#.to_vec());
    assert_eq!(axis_payload(1), br#"{"type":"axis","axis":"left_x","direction":1}"#.to_vec());
}

#[test]
fn gamepad_step_deduplicates_stick() {
    let (d, p) = gamepad_step(0, PadEvent::StickMoved(1));
    assert_eq!(d, 1);
    assert_eq!(p, Some(axis_payload(1)));
    let (d2, p2) = gamepad_step(1, PadEvent::StickMoved(1));
    assert_eq!(d2, 1);
    assert_eq!(p2, None);
    let (d3, p3) = gamepad_step(1, PadEvent::StickMoved(0));
    assert_eq!(d3, 0);
    assert_eq!(p3, Some(axis_payload(0)));
}

#[test]
fn gamepad_step_keeps_direction_on_buttons() {
    let (d, p) = gamepad_step(1, PadEvent::ButtonPressed(PadButton::East));
    assert_eq!(d, 1);
    assert_eq!(p, Some(button_payload(PadButton::East, true).unwrap()));
    let (d2, p2) = gamepad_step(-1, PadEvent::ButtonReleased(PadButton::Other));
    assert_eq!(d2, -1);
    assert_eq!(p2, None);
}

#[test]
fn event_script_wraps_payload() {
    let s = event_script(b"{}");
    assert_eq!(
        s,
        b"window.dispatchEvent(new CustomEvent('gamepad-event', { detail: {} }));".to_vec()
    );
}

#[test]
fn coord_line_with_label() {
    let line = coord_line(b"1.5", b"-2.25", Some(b"Shrine"));
    assert_eq!(line, b"{\"label\":\"Shrine\",\"x\":1.5,\"y\":-2.25}\n".to_vec());
}

#[test]
fn coord_line_without_label() {
    let line = coord_line(b"0", b"0", None);
    assert_eq!(line, b"{\"label\":null,\"x\":0,\"y\":0}\n".to_vec());
}

#[test]
fn coord_line_escapes_label() {
    let line = coord_line(b"1", b"2", Some(b"a\"b\\c\nd\x01"));
    assert_eq!(
        line,
        b"{\"label\":\"a\\\"b\\\\c\\nd\\u0001\",\"x\":1,\"y\":2}\n".to_vec()
    );
}

#[test]
fn coord_line_is_valid_json() {
    let mut line = coord_line(b"1.5", b"-2.25", Some(b"tab\there"));
    assert_eq!(line.pop(), Some(b'\n'));
    let v: serde_json::Value = serde_json::from_slice(&line).unwrap();
    assert_eq!(v.get("label").unwrap().as_str().unwrap(), "tab\there");
    assert_eq!(v.get("x").unwrap().as_f64().unwrap(), 1.5);
    assert_eq!(v.get("y").unwrap().as_f64().unwrap(), -2.25);
}
