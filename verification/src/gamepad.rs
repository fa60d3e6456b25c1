//! Gamepad events as the UI sees them. The shell polls the controller and
//! normalizes what it reads: a button press or release of one of the four
//! buttons the overlay reacts to, or a horizontal stick direction already
//! folded to -1, 0 or 1. This module decides what each event does to the
//! poller's state and renders the JSON payload and the script line that
//! deliver it to the webview.

use vstd::prelude::*;

verus! {

use crate::text::{lit_bytes, int_bytes, push_text, push_bytes, push_decimal_i64, text_bytes};

/// The gamepad buttons the poller reports; `Other` stands for every button
/// the overlay ignores.
#[derive(Clone, Copy, PartialEq, Eq, Structural, Debug)]
pub enum PadButton {
    South,
    East,
    DPadLeft,
    DPadRight,
    Other,
}

/// A normalized gamepad event: a button edge, or the left stick's horizontal
/// direction after thresholding.
#[derive(Clone, Copy, PartialEq, Eq, Structural, Debug)]
pub enum PadEvent {
    ButtonPressed(PadButton),
    ButtonReleased(PadButton),
    StickMoved(i8),
}

/// The UI name of a button; `None` for buttons the overlay ignores.
pub open spec fn spec_button_name(b: PadButton) -> Option<Seq<u8>> {
    match b {
        PadButton::South => Some(lit_bytes("A"@)),
        PadButton::East => Some(lit_bytes("B"@)),
        PadButton::DPadLeft => Some(lit_bytes("DPAD_LEFT"@)),
        PadButton::DPadRight => Some(lit_bytes("DPAD_RIGHT"@)),
        PadButton::Other => None,
    }
}

/// Maps a button to its UI name.
pub fn button_name(b: PadButton) -> (r: Option<Vec<u8>>)
    ensures
        match r {
            Some(v) => spec_button_name(b) == Some(v@),
            None => spec_button_name(b) is None,
        },
{
    match b {
        PadButton::South => Some(text_bytes("A")),
        PadButton::East => Some(text_bytes("B")),
        PadButton::DPadLeft => Some(text_bytes("DPAD_LEFT")),
        PadButton::DPadRight => Some(text_bytes("DPAD_RIGHT")),
        PadButton::Other => None,
    }
}

/// The payload delivered for a button edge:
/// `{"type":"button","button":NAME,"state":STATE}`.
pub open spec fn spec_button_payload(name: Seq<u8>, pressed: bool) -> Seq<u8> {
    lit_bytes("{\"type\":\"button\",\"button\":\""@) + name + lit_bytes("\",\"state\":\""@) + (
    if pressed {
        lit_bytes("pressed"@)
    } else {
        lit_bytes("released"@)
    }) + lit_bytes("\"}"@)
}

/// The payload delivered for a stick move:
/// `{"type":"axis","axis":"left_x","direction":D}`.
pub open spec fn spec_axis_payload(direction: int) -> Seq<u8> {
    lit_bytes("{\"type\":\"axis\",\"axis\":\"left_x\",\"direction\":"@) + int_bytes(direction)
        + lit_bytes("}"@)
}

/// Renders the payload for a press or release of `b`; `None` for buttons the
/// overlay ignores.
pub fn button_payload(b: PadButton, pressed: bool) -> (r: Option<Vec<u8>>)
    ensures
        match r {
            Some(v) => spec_button_name(b) matches Some(n) && v@ == spec_button_payload(
                n,
                pressed,
            ),
            None => spec_button_name(b) is None,
        },
{
    let name = match button_name(b) {
        Some(n) => n,
        None => {
            return None;
        },
    };
    let mut out = text_bytes("{\"type\":\"button\",\"button\":\"");
    push_bytes(&mut out, name.as_slice());
    push_text(&mut out, "\",\"state\":\"");
    if pressed {
        push_text(&mut out, "pressed");
    } else {
        push_text(&mut out, "released");
    }
    push_text(&mut out, "\"}");
    Some(out)
}

/// Renders the payload for a stick direction.
pub fn axis_payload(direction: i8) -> (r: Vec<u8>)
    ensures
        r@ == spec_axis_payload(direction as int),
{
    let mut out = text_bytes("{\"type\":\"axis\",\"axis\":\"left_x\",\"direction\":");
    push_decimal_i64(&mut out, direction as i64);
    push_text(&mut out, "}");
    out
}

/// What one event does to the poller: the new horizontal direction, and the
/// payload to deliver, if any. A stick move is delivered only when the
/// direction actually changed; ignored buttons deliver nothing.
pub open spec fn spec_gamepad_step(horizontal_dir: int, event: PadEvent) -> (int, Option<
    Seq<u8>,
>) {
    match event {
        PadEvent::ButtonPressed(b) => (
            horizontal_dir,
            match spec_button_name(b) {
                Some(n) => Some(spec_button_payload(n, true)),
                None => None,
            },
        ),
        PadEvent::ButtonReleased(b) => (
            horizontal_dir,
            match spec_button_name(b) {
                Some(n) => Some(spec_button_payload(n, false)),
                None => None,
            },
        ),
        PadEvent::StickMoved(d) => if d as int == horizontal_dir {
            (horizontal_dir, None)
        } else {
            (d as int, Some(spec_axis_payload(d as int)))
        },
    }
}

/// Advances the poller's state by one event.
pub fn gamepad_step(horizontal_dir: i8, event: PadEvent) -> (r: (i8, Option<Vec<u8>>))
    ensures
        ({
            let (nd, np) = spec_gamepad_step(horizontal_dir as int, event);
            &&& r.0 as int == nd
            &&& match r.1 {
                Some(v) => np == Some(v@),
                None => np is None,
            }
        }),
{
    match event {
        PadEvent::ButtonPressed(b) => (horizontal_dir, button_payload(b, true)),
        PadEvent::ButtonReleased(b) => (horizontal_dir, button_payload(b, false)),
        PadEvent::StickMoved(d) => {
            if d == horizontal_dir {
                (horizontal_dir, None)
            } else {
                (d, Some(axis_payload(d)))
            }
        },
    }
}

/// The line of script evaluated in the webview to deliver a payload.
pub open spec fn spec_event_script(payload: Seq<u8>) -> Seq<u8> {
    lit_bytes("window.dispatchEvent(new CustomEvent('gamepad-event', { detail: "@) + payload
        + lit_bytes(" }));"@)
}

/// Renders the script line that hands a payload to the UI.
pub fn event_script(payload: &[u8]) -> (r: Vec<u8>)
    ensures
        r@ == spec_event_script(payload@),
{
    let mut out = text_bytes("window.dispatchEvent(new CustomEvent('gamepad-event', { detail: ");
    push_bytes(&mut out, payload);
    push_text(&mut out, " }));");
    out
}

} // verus!
