use imgmesser::content_type::ContentType;
use imgmesser::metadata::MetadataStore;

#[test]
fn insert_image_ignores_a_taken_name_or_id() {
    let mut m = MetadataStore::new();
    assert!(m.insert_image(1, "a.png", ContentType::PNG, "u"));
    assert!(!m.insert_image(2, "a.png", ContentType::PNG, "u"));
    assert!(!m.insert_image(1, "b.png", ContentType::PNG, "u"));
    assert!(m.insert_image(3, "a.png", ContentType::PNG, "other"));
    assert_eq!(m.find_image_id_by_name("a.png", "u"), Some(1));
    assert_eq!(m.find_image_id_by_name("a.png", "other"), Some(3));
    assert_eq!(m.find_image_id_by_name("b.png", "u"), None);
}

#[test]
fn insert_image_version_refuses_unknown_image_and_repeated_token() {
    let mut m = MetadataStore::new();
    assert_eq!(m.insert_image_version(9, "v1", 1, 1, 1), None);
    m.insert_image(9, "a.png", ContentType::PNG, "u");
    assert_eq!(m.insert_image_version(9, "v1", 2, 3, 4), Some("v1".to_string()));
    assert_eq!(m.insert_image_version(9, "v1", 2, 3, 4), None);
    assert_eq!(m.insert_image_version(9, "v2", 5, 6, 7), Some("v2".to_string()));
    let info = m.find_image(9, "u").unwrap();
    assert_eq!(info.version, "v2");
    let img = m.find_image_with_lineage(9, "u").unwrap();
    assert_eq!((img.width, img.height, img.size), (5, 6, 7));
    assert_eq!((img.version_index, img.version_count), (2, 2));
    assert!(m.find_image(9, "someone-else").is_none());
}

#[test]
fn image_without_versions_is_not_listed() {
    let mut m = MetadataStore::new();
    m.insert_image(1, "a.png", ContentType::PNG, "u");
    assert!(m.find_image(1, "u").is_none());
    assert!(m.find_all_images("u").is_empty());
    assert_eq!(m.revert_image_version(1), None);
    assert_eq!(m.restore_image_version(1), None);
}

#[test]
fn delete_removes_the_whole_lineage() {
    let mut m = MetadataStore::new();
    m.insert_image(1, "a.png", ContentType::PNG, "u");
    m.insert_image_version(1, "v1", 1, 1, 1);
    m.insert_image_version(1, "v2", 1, 1, 1);
    m.delete_image(1);
    assert!(m.find_image_with_lineage(1, "u").is_none());
    assert_eq!(m.find_image_id_by_name("a.png", "u"), None);
    assert!(m.insert_image(1, "a.png", ContentType::PNG, "u"));
    assert!(m.find_image(1, "u").is_none());
}
