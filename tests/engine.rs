use imgmesser::content_type::ContentType;
use imgmesser::errors::ImageError;
use imgmesser::store::{UploadImage, VersionedImageStore};
use imgmesser::users::UserInfo;

fn user(name: &str, base: &str) -> UserInfo {
    UserInfo { username: name.to_string(), object_base_path: base.to_string() }
}

fn png(name: &str, data: &[u8]) -> UploadImage {
    UploadImage {
        name: name.to_string(),
        content_type: ContentType::PNG,
        data: data.to_vec(),
        dimensions: (4, 3),
    }
}

fn bytes_of(s: &VersionedImageStore, id: u128, u: &UserInfo) -> Vec<u8> {
    s.get_one(id, u).unwrap().unwrap().data
}

#[test]
fn upload_then_get_one_returns_the_bytes() {
    let mut s = VersionedImageStore::new(true);
    let u = user("alice", "ns-a");
    s.upload_with_id(png("cat.png", b"\x89PNG-bytes"), &u, 1).unwrap();
    let got = s.get_one(1, &u).unwrap().unwrap();
    assert_eq!(got.data, b"\x89PNG-bytes".to_vec());
    assert_eq!(got.content_type, "image/png");
}

#[test]
fn upload_with_fresh_id_round_trips() {
    let mut s = VersionedImageStore::new(true);
    let u = user("alice", "ns-a");
    s.upload(png("dog.png", b"woof"), &u).unwrap();
    let list = s.get_metadata_for_all(&u, 1, 10).unwrap();
    assert_eq!(list.images.len(), 1);
    let id = list.images[0].id;
    assert_eq!(bytes_of(&s, id, &u), b"woof".to_vec());
}

#[test]
fn lineage_navigation_is_reversible() {
    let mut s = VersionedImageStore::new(true);
    let u = user("bob", "ns-b");
    s.upload_with_id(png("pic.png", b"A"), &u, 7).unwrap();
    s.upload_with_id(png("pic.png", b"B"), &u, 8).unwrap();
    s.upload_with_id(png("pic.png", b"C"), &u, 9).unwrap();
    assert_eq!(bytes_of(&s, 7, &u), b"C".to_vec());

    assert_eq!(s.revert(7, &u).unwrap(), Some("1".to_string()));
    assert_eq!(bytes_of(&s, 7, &u), b"B".to_vec());
    assert_eq!(s.revert(7, &u).unwrap(), Some("0".to_string()));
    assert_eq!(bytes_of(&s, 7, &u), b"A".to_vec());
    assert_eq!(s.revert(7, &u).unwrap(), None);
    assert_eq!(bytes_of(&s, 7, &u), b"A".to_vec());
    let meta = s.get_metadata_for_one(7, &u).unwrap().unwrap();
    assert!(meta.initial_version && !meta.latest_version);
    assert_eq!(meta.version_index, 1);

    assert_eq!(s.restore(7, &u).unwrap(), Some("1".to_string()));
    assert_eq!(bytes_of(&s, 7, &u), b"B".to_vec());
    assert_eq!(s.restore(7, &u).unwrap(), Some("2".to_string()));
    assert_eq!(bytes_of(&s, 7, &u), b"C".to_vec());
    assert_eq!(s.restore(7, &u).unwrap(), None);
    assert_eq!(bytes_of(&s, 7, &u), b"C".to_vec());
    let meta = s.get_metadata_for_one(7, &u).unwrap().unwrap();
    assert!(meta.latest_version && !meta.initial_version);
    assert_eq!((meta.version_index, meta.version_count), (3, 3));
}

#[test]
fn rename_preserves_identity_and_bytes() {
    let mut s = VersionedImageStore::new(true);
    let u = user("carol", "ns-c");
    s.upload_with_id(png("old.png", b"one"), &u, 3).unwrap();
    s.upload_with_id(png("old.png", b"two"), &u, 4).unwrap();
    let before = s.get_metadata_for_one(3, &u).unwrap().unwrap();
    assert_eq!(s.rename(3, "new.png", &u).unwrap(), Some("new.png".to_string()));
    let after = s.get_metadata_for_one(3, &u).unwrap().unwrap();
    assert_eq!(after.id, 3);
    assert_eq!(after.name, "new.png");
    assert_eq!(after.version, before.version);
    assert_eq!(after.version_count, 2);
    assert_eq!(bytes_of(&s, 3, &u), b"two".to_vec());
}

#[test]
fn rename_to_a_taken_name_changes_nothing() {
    let mut s = VersionedImageStore::new(true);
    let u = user("carol", "ns-c");
    s.upload_with_id(png("a.png", b"a"), &u, 1).unwrap();
    s.upload_with_id(png("b.png", b"b"), &u, 2).unwrap();
    assert_eq!(s.rename(1, "b.png", &u).unwrap(), None);
    assert_eq!(s.get_metadata_for_one(1, &u).unwrap().unwrap().name, "a.png");
}

#[test]
fn pagination_over_twenty_five_images() {
    let mut s = VersionedImageStore::new(true);
    let u = user("dave", "ns-d");
    for i in 0..25u128 {
        let name = format!("img{}.png", i);
        s.upload_with_id(png(&name, &[i as u8]), &u, 100 + i).unwrap();
    }
    let page2 = s.get_metadata_for_all(&u, 2, 10).unwrap();
    assert_eq!(page2.images.len(), 10);
    assert_eq!(page2.total, 25);
    assert!(page2.has_more);
    // Newest first: page 2 starts at the eleventh newest upload.
    assert_eq!(page2.images[0].id, 100 + 14);
    let page3 = s.get_metadata_for_all(&u, 3, 10).unwrap();
    assert_eq!(page3.images.len(), 5);
    assert_eq!(page3.total, 25);
    assert!(!page3.has_more);
    assert_eq!(page3.images[4].id, 100);
    let page4 = s.get_metadata_for_all(&u, 4, 10).unwrap();
    assert_eq!(page4.images.len(), 0);
    assert!(!page4.has_more);
}

#[test]
fn same_name_upload_adds_a_version_not_an_image() {
    let mut s = VersionedImageStore::new(true);
    let u = user("erin", "ns-e");
    s.upload_with_id(png("x.png", b"1"), &u, 11).unwrap();
    let first = s.get_metadata_for_all(&u, 1, 10).unwrap();
    assert_eq!(first.images.len(), 1);
    assert_eq!(first.images[0].version_count, 1);
    s.upload_with_id(png("x.png", b"2"), &u, 12).unwrap();
    let all = s.get_metadata_for_all(&u, 1, 10).unwrap();
    assert_eq!(all.images.len(), 1);
    assert_eq!(all.images[0].id, 11);
    assert_eq!(all.images[0].version_count, 2);
    assert!(s.get_metadata_for_one(12, &u).unwrap().is_none());
}

#[test]
fn exactly_one_current_version_after_each_step() {
    let mut s = VersionedImageStore::new(true);
    let u = user("fay", "ns-f");
    s.upload_with_id(png("p.png", b"1"), &u, 5).unwrap();
    s.upload_with_id(png("p.png", b"2"), &u, 6).unwrap();
    s.revert(5, &u).unwrap();
    s.upload_with_id(png("p.png", b"3"), &u, 7).unwrap();
    let m = s.get_metadata_for_one(5, &u).unwrap().unwrap();
    assert_eq!((m.version_index, m.version_count), (3, 3));
    assert!(m.latest_version);
    assert_eq!(bytes_of(&s, 5, &u), b"3".to_vec());
}

#[test]
fn other_users_images_are_invisible() {
    let mut s = VersionedImageStore::new(true);
    let a = user("alice", "ns-a");
    let b = user("bob", "ns-b");
    s.upload_with_id(png("x.png", b"secret"), &a, 1).unwrap();
    assert!(s.get_one(1, &b).unwrap().is_none());
    assert!(s.get_metadata_for_one(1, &b).unwrap().is_none());
    assert!(matches!(s.revert(1, &b), Err(ImageError::NotFound)));
    assert!(matches!(s.delete(1, &b), Err(ImageError::NotFound)));
    assert_eq!(s.get_metadata_for_all(&b, 1, 10).unwrap().total, 0);
}

#[test]
fn delete_removes_metadata_and_live_object() {
    let mut s = VersionedImageStore::new(true);
    let u = user("gus", "ns-g");
    s.upload_with_id(png("d.png", b"x"), &u, 9).unwrap();
    s.delete(9, &u).unwrap();
    assert!(s.get_one(9, &u).unwrap().is_none());
    let list = s.get_metadata_for_all(&u, 1, 10).unwrap();
    assert_eq!(list.total, 0);
    assert!(matches!(s.delete(9, &u), Err(ImageError::NotFound)));
    assert!(matches!(s.restore(9, &u), Err(ImageError::NotFound)));
    assert!(matches!(s.rename(9, "y.png", &u), Err(ImageError::NotFound)));
}

#[test]
fn unversioned_bucket_records_no_version() {
    let mut s = VersionedImageStore::new(false);
    let u = user("hal", "ns-h");
    s.upload_with_id(png("u.png", b"x"), &u, 2).unwrap();
    assert!(s.get_one(2, &u).unwrap().is_none());
    let list = s.get_metadata_for_all(&u, 1, 10).unwrap();
    assert_eq!(list.total, 1);
    assert_eq!(list.images.len(), 0);
}

#[test]
fn upload_all_stores_every_image() {
    let mut s = VersionedImageStore::new(true);
    let u = user("ivy", "ns-i");
    s.upload_all(vec![png("a.png", b"a"), png("b.png", b"b"), png("a.png", b"a2")], &u).unwrap();
    let list = s.get_metadata_for_all(&u, 1, 10).unwrap();
    assert_eq!(list.total, 2);
    assert_eq!(list.images.len(), 2);
    let a = list.images.iter().find(|i| i.name == "a.png").unwrap();
    assert_eq!(a.version_count, 2);
    assert_eq!(bytes_of(&s, a.id, &u), b"a2".to_vec());
}

#[test]
fn rename_to_another_extension_keeps_the_object_key() {
    let mut s = VersionedImageStore::new(true);
    let u = user("jan", "ns-j");
    s.upload_with_id(png("shot.png", b"pixels"), &u, 21).unwrap();
    assert_eq!(s.rename(21, "shot.jpg", &u).unwrap(), Some("shot.jpg".to_string()));
    assert_eq!(bytes_of(&s, 21, &u), b"pixels".to_vec());
    assert_eq!(s.get_metadata_for_one(21, &u).unwrap().unwrap().extension, "png");
    // A later upload under the new name is a new version of the same object.
    s.upload_with_id(png("shot.jpg", b"more"), &u, 22).unwrap();
    assert_eq!(bytes_of(&s, 21, &u), b"more".to_vec());
    let list = s.get_metadata_for_all(&u, 1, 10).unwrap();
    assert_eq!(list.total, 1);
    assert_eq!(list.images.len(), 1);
    assert_eq!(list.images[0].version_count, 2);
}
