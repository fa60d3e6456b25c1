use overlay_core::geometry::{
    fallback_monitor, initial_placement, position_in_bounds, MonitorRect, Placement,
    WindowGeometry, DEFAULT_WINDOW_HEIGHT, DEFAULT_WINDOW_WIDTH,
};
use overlay_core::persist::{geometry_json, parse_geometry};
use overlay_core::winstyle::{layered_style_plan, LAYERED_STYLE_BIT};

fn monitor(x: i32, y: i32, width: u32, height: u32) -> MonitorRect {
    MonitorRect { x, y, width, height }
}

fn geometry(x: i32, y: i32, width: u32, height: u32) -> WindowGeometry {
    WindowGeometry { x, y, width, height }
}

#[test]
fn geometry_json_text() {
    let g = geometry(-12, 34, 1280, 900);
    assert_eq!(geometry_json(&g), b"{\"x\":-12,\"y\":34,\"width\":1280,\"height\":900}".to_vec());
}

#[test]
fn geometry_json_parses_back() {
    let g = geometry(i32::MIN, i32::MAX, u32::MAX, 0);
    assert_eq!(parse_geometry(&geometry_json(&g)), Some(g));
}

#[test]
fn parse_accepts_whitespace() {
    let text = b" {\n  \"x\": -1,\n  \"y\": 2,\n  \"width\": 640,\n  \"height\": 480\n}\n";
    assert_eq!(parse_geometry(text), Some(geometry(-1, 2, 640, 480)));
}

#[test]
fn parse_rejects_malformed_texts() {
    assert_eq!(parse_geometry(b""), None);
    assert_eq!(parse_geometry(b"{}"), None);
    assert_eq!(parse_geometry(b"{\"x\":1,\"y\":2,\"width\":3,\"height\":4} extra"), None);
    // fields out of order
    assert_eq!(parse_geometry(b"{\"y\":2,\"x\":1,\"width\":3,\"height\":4}"), None);
    // a leading zero
    assert_eq!(parse_geometry(b"{\"x\":01,\"y\":2,\"width\":3,\"height\":4}"), None);
    // no digits after the sign
    assert_eq!(parse_geometry(b"{\"x\":-,\"y\":2,\"width\":3,\"height\":4}"), None);
    // a missing closing brace
    assert_eq!(parse_geometry(b"{\"x\":1,\"y\":2,\"width\":3,\"height\":4"), None);
}

#[test]
fn parse_rejects_out_of_range_values() {
    assert_eq!(parse_geometry(b"{\"x\":2147483648,\"y\":0,\"width\":1,\"height\":1}"), None);
    assert_eq!(parse_geometry(b"{\"x\":-2147483649,\"y\":0,\"width\":1,\"height\":1}"), None);
    assert_eq!(parse_geometry(b"{\"x\":0,\"y\":0,\"width\":4294967296,\"height\":1}"), None);
    assert_eq!(parse_geometry(b"{\"x\":0,\"y\":0,\"width\":-1,\"height\":1}"), None);
    // the extreme values themselves are fine
    assert_eq!(
        parse_geometry(b"{\"x\":-2147483648,\"y\":2147483647,\"width\":4294967295,\"height\":0}"),
        Some(geometry(i32::MIN, i32::MAX, u32::MAX, 0))
    );
}

#[test]
fn geometry_json_is_json_for_serde() {
    let g = geometry(-5, 7, 1280, 900);
    let v: serde_json::Value = serde_json::from_slice(&geometry_json(&g)).unwrap();
    assert_eq!(v.get("x").unwrap().as_i64().unwrap(), -5);
    assert_eq!(v.get("y").unwrap().as_i64().unwrap(), 7);
    assert_eq!(v.get("width").unwrap().as_u64().unwrap(), 1280);
    assert_eq!(v.get("height").unwrap().as_u64().unwrap(), 900);
}

#[test]
fn bounds_check_sees_overlap() {
    let monitors = vec![monitor(0, 0, 1920, 1080), monitor(1920, 0, 1920, 1080)];
    // fully on the second monitor
    assert!(position_in_bounds(&monitors, &geometry(2000, 100, 1280, 900)));
    // partly hanging off the left edge still overlaps
    assert!(position_in_bounds(&monitors, &geometry(-100, 100, 1280, 900)));
    // fully below every monitor
    assert!(!position_in_bounds(&monitors, &geometry(0, 2000, 1280, 900)));
    // touching edges do not count as overlap
    assert!(!position_in_bounds(&vec![monitor(0, 0, 100, 100)], &geometry(100, 0, 10, 10)));
}

#[test]
fn bounds_check_passes_without_monitors() {
    assert!(position_in_bounds(&Vec::new(), &geometry(99999, 99999, 10, 10)));
}

#[test]
fn fallback_prefers_primary() {
    let monitors = vec![monitor(0, 0, 100, 100)];
    let primary = monitor(500, 0, 200, 200);
    assert_eq!(fallback_monitor(Some(primary), &monitors), Some(primary));
    assert_eq!(fallback_monitor(None, &monitors), Some(monitors[0]));
    assert_eq!(fallback_monitor(None, &Vec::new()), None);
}

#[test]
fn placement_defaults_without_saved_geometry() {
    let p = initial_placement(None, &vec![monitor(0, 0, 1920, 1080)], None);
    assert_eq!(p, Placement::DefaultSize { width: DEFAULT_WINDOW_WIDTH, height: DEFAULT_WINDOW_HEIGHT });
}

#[test]
fn placement_restores_visible_geometry() {
    let g = geometry(100, 100, 1280, 900);
    let p = initial_placement(Some(g), &vec![monitor(0, 0, 1920, 1080)], None);
    assert_eq!(p, Placement::Restore { geometry: g });
}

#[test]
fn placement_centers_lost_geometry() {
    let g = geometry(10000, 10000, 1280, 900);
    let p = initial_placement(Some(g), &vec![monitor(0, 0, 1920, 1080)], None);
    assert_eq!(p, Placement::Centered { width: 1280, height: 900, x: 320, y: 90 });
}

#[test]
fn placement_centers_on_primary_monitor() {
    let g = geometry(-50000, 0, 640, 480);
    let primary = monitor(100, 200, 800, 600);
    let p = initial_placement(Some(g), &vec![monitor(0, 0, 100, 100)], Some(primary));
    assert_eq!(p, Placement::Centered { width: 640, height: 480, x: 180, y: 260 });
}

#[test]
fn centering_rounds_toward_zero_for_large_windows() {
    // the window is wider than the monitor: the offset is negative and odd
    let g = geometry(90000, 90000, 1001, 900);
    let p = initial_placement(Some(g), &vec![monitor(0, 0, 800, 1080)], None);
    // (800 - 1001) / 2 rounds toward zero to -100
    assert_eq!(p, Placement::Centered { width: 1001, height: 900, x: -100, y: 90 });
}

#[test]
fn style_plan_enables_layering() {
    let p = layered_style_plan(0, false);
    assert_eq!(p.new_style, LAYERED_STYLE_BIT);
    assert!(p.set_style);
    assert!(p.set_alpha);
    assert!(!p.opaque_background);
}

#[test]
fn style_plan_is_idempotent_on_layered_windows() {
    let p = layered_style_plan(LAYERED_STYLE_BIT | 0x40, false);
    assert_eq!(p.new_style, LAYERED_STYLE_BIT | 0x40);
    assert!(!p.set_style);
    assert!(p.set_alpha);
}

#[test]
fn style_plan_disables_layering_when_opaque() {
    let p = layered_style_plan(LAYERED_STYLE_BIT | 0x40, true);
    assert_eq!(p.new_style, 0x40);
    assert!(p.set_style);
    assert!(!p.set_alpha);
    assert!(p.opaque_background);
    let q = layered_style_plan(0x40, true);
    assert!(!q.set_style);
    assert_eq!(q.new_style, 0x40);
}
