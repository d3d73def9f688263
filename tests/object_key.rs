use imgmesser::object_key::{
    file_extension, get_object_path, image_id_text, key_extension_text, object_path, parse_image_id,
};

const ID: u128 = 0x67e55044_10b1_426f_9247_bb680e5fe0c8;

#[test]
fn image_id_text_is_hyphenated_lower_case() {
    assert_eq!(image_id_text(ID), "67e55044-10b1-426f-9247-bb680e5fe0c8");
}

#[test]
fn image_id_parses_back() {
    assert_eq!(parse_image_id("67e55044-10b1-426f-9247-bb680e5fe0c8"), Some(ID));
    assert_eq!(parse_image_id("67E55044-10B1-426F-9247-BB680E5FE0C8"), Some(ID));
    assert_eq!(parse_image_id("not-a-uuid"), None);
    assert_eq!(parse_image_id(""), None);
}

#[test]
fn object_key_uses_id_and_extension() {
    assert_eq!(
        get_object_path("user-ns", ID, "holiday.png"),
        "user-ns/67e55044-10b1-426f-9247-bb680e5fe0c8.png"
    );
}

#[test]
fn object_key_defaults_to_jpg() {
    assert_eq!(
        get_object_path("ns", ID, "photo"),
        "ns/67e55044-10b1-426f-9247-bb680e5fe0c8.jpg"
    );
    assert_eq!(
        get_object_path("ns", ID, ".hidden"),
        "ns/67e55044-10b1-426f-9247-bb680e5fe0c8.jpg"
    );
}

#[test]
fn extension_follows_path_rules() {
    assert_eq!(file_extension("a.tar.gz"), Some("gz"));
    assert_eq!(file_extension("dir/pic.webp"), Some("webp"));
    assert_eq!(file_extension("pic.png/"), Some("png"));
    assert_eq!(file_extension("pic.png/."), Some("png"));
    assert_eq!(file_extension("name."), Some(""));
    assert_eq!(file_extension("..x"), Some("x"));
    assert_eq!(file_extension(".bashrc"), None);
    assert_eq!(file_extension("dir.d/file"), None);
    assert_eq!(file_extension("a.b/.."), None);
    assert_eq!(file_extension("/"), None);
    assert_eq!(file_extension(""), None);
    for p in ["a.tar.gz", "dir/pic.webp", "pic.png/", "name.", ".bashrc", "a.b/..", "x/./y.z"] {
        let expected = std::path::Path::new(p).extension().and_then(|e| e.to_str());
        assert_eq!(file_extension(p), expected, "{}", p);
    }
}

#[test]
fn object_path_takes_the_extension_as_given() {
    assert_eq!(object_path("b", 1, "gif"), "b/00000000-0000-0000-0000-000000000001.gif");
    assert_eq!(key_extension_text("x.tar.gz"), "gz");
    assert_eq!(key_extension_text("noext"), "jpg");
}
