use imgmesser::content_type::ContentType;

#[test]
fn test_content_type_enum_from_extension_str() {
    assert_eq!(ContentType::from_str("jpg"), ContentType::JPEG);
}

#[test]
fn test_content_type_enum_from_content_type_str() {
    assert_eq!(ContentType::from_str("image/jpeg"), ContentType::JPEG);
}

#[test]
fn test_content_type_enum_from_unmatched_str() {
    assert_eq!(ContentType::from_str("text/html"), ContentType::UNKNOWN);
}

#[test]
fn test_content_type_enum_from_extension() {
    assert_eq!(ContentType::from_str("jpg"), ContentType::JPEG);
}

#[test]
fn test_content_type_enum_to_string() {
    assert_eq!(ContentType::JPEG.to_string(), "image/jpeg");
}

#[test]
fn content_type_parses_every_known_hint() {
    assert_eq!(ContentType::from_str("jpeg"), ContentType::JPEG);
    assert_eq!(ContentType::from_str("image/png"), ContentType::PNG);
    assert_eq!(ContentType::from_str("gif"), ContentType::GIF);
    assert_eq!(ContentType::from_str("image/webp"), ContentType::WEBP);
    assert_eq!(ContentType::from_str("bmp"), ContentType::BMP);
    assert_eq!(ContentType::from_str(""), ContentType::UNKNOWN);
    assert_eq!(ContentType::from_str("image/"), ContentType::UNKNOWN);
    assert_eq!(ContentType::from_str("JPG"), ContentType::UNKNOWN);
    assert_eq!(ContentType::from_str("image/image/png"), ContentType::UNKNOWN);
}

#[test]
fn content_type_codes_round_trip() {
    for t in [
        ContentType::UNKNOWN,
        ContentType::JPEG,
        ContentType::PNG,
        ContentType::GIF,
        ContentType::WEBP,
        ContentType::BMP,
    ] {
        assert_eq!(ContentType::from_int(t.code()), t);
        assert_eq!(ContentType::from_str(&t.to_string()), t);
    }
    assert_eq!(ContentType::from_int(2), ContentType::PNG);
    assert_eq!(ContentType::from_int(6), ContentType::UNKNOWN);
    assert_eq!(ContentType::from_int(-1), ContentType::UNKNOWN);
    assert_eq!(ContentType::UNKNOWN.to_string(), "application/octet-stream");
}
