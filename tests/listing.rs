use imgmesser::content_type::ContentType;
use imgmesser::listing::{paginate, sort_newest_first, KeyedImage, ObjectSummary};
use imgmesser::metadata::Image;

fn obj(key: Option<&str>, t: Option<u64>) -> ObjectSummary {
    ObjectSummary { key: key.map(|k| k.to_string()), size: 1, last_modified: t }
}

fn image(id: u128, name: &str) -> Image {
    Image {
        id,
        name: name.to_string(),
        content_type: ContentType::PNG,
        extension: "png".to_string(),
        created_at: 0,
        last_modified: 0,
        version: "0".to_string(),
        width: 1,
        height: 1,
        size: 1,
        version_index: 1,
        version_count: 1,
        latest_version: true,
        initial_version: true,
    }
}

fn keyed(key: &str, id: u128) -> KeyedImage {
    KeyedImage { key: key.to_string(), image: image(id, key) }
}

#[test]
fn sort_is_newest_first_and_stable() {
    let objs = vec![
        obj(Some("a"), Some(5)),
        obj(Some("b"), None),
        obj(Some("c"), Some(9)),
        obj(Some("d"), Some(5)),
    ];
    let sorted = sort_newest_first(&objs);
    let keys: Vec<Option<String>> = sorted.iter().map(|o| o.key.clone()).collect();
    assert_eq!(
        keys,
        vec![Some("c".to_string()), Some("a".to_string()), Some("d".to_string()), Some("b".to_string())]
    );
}

#[test]
fn orphaned_objects_are_left_out_but_counted() {
    let objs = vec![obj(Some("k1"), Some(1)), obj(Some("orphan"), Some(2)), obj(None, Some(3))];
    let rows = vec![keyed("k1", 1)];
    let page = paginate(&objs, &rows, 1, 10);
    assert_eq!(page.total, 3);
    assert!(!page.has_more);
    assert_eq!(page.images.len(), 1);
    assert_eq!(page.images[0].id, 1);
}

#[test]
fn the_last_row_with_a_key_wins() {
    let objs = vec![obj(Some("k"), Some(1))];
    let rows = vec![keyed("k", 1), keyed("k", 2)];
    let page = paginate(&objs, &rows, 1, 1);
    assert_eq!(page.images[0].id, 2);
}

#[test]
fn page_past_the_end_is_empty() {
    let objs = vec![obj(Some("k"), Some(1)), obj(Some("j"), Some(2))];
    let rows = vec![keyed("k", 1), keyed("j", 2)];
    let page = paginate(&objs, &rows, 3, 1);
    assert_eq!(page.images.len(), 0);
    assert_eq!(page.total, 2);
    assert!(!page.has_more);
    let first = paginate(&objs, &rows, 1, 1);
    assert_eq!(first.images[0].id, 2);
    assert!(first.has_more);
}
