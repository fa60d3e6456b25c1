use overlay_core::points::validate_points_json;

#[test]
fn valid_catalog_text_is_accepted() {
    assert!(validate_points_json(b"{\"points\":[{\"name\":\"Shrine\",\"x\":1.5}]}").is_ok());
    assert!(validate_points_json(b"[]").is_ok());
}

#[test]
fn broken_catalog_text_is_rejected() {
    let e = validate_points_json(b"{\"points\":[").unwrap_err();
    assert!(e.starts_with("Invalid JSON:"));
    assert!(validate_points_json(b"").is_err());
    assert!(validate_points_json(b"{} trailing").is_err());
}
