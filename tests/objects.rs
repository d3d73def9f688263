use imgmesser::objects::{ObjectStore, StoreError};

#[test]
fn versioned_bucket_keeps_every_revision() {
    let mut b = ObjectStore::new(true);
    assert_eq!(b.put(b"one".to_vec(), "ns/k.png"), Ok(Some("0".to_string())));
    assert_eq!(b.put(b"two".to_vec(), "ns/k.png"), Ok(Some("1".to_string())));
    assert_eq!(b.get("ns/k.png", "0"), Ok(b"one".to_vec()));
    assert_eq!(b.get("ns/k.png", "1"), Ok(b"two".to_vec()));
    assert_eq!(b.get("ns/k.png", "7"), Err(StoreError::NoSuchVersion));
    assert_eq!(b.get("ns/other.png", "0"), Err(StoreError::NoSuchVersion));
    let listed = b.list("ns");
    assert_eq!(listed.len(), 1);
    assert_eq!(listed[0].key.as_deref(), Some("ns/k.png"));
    assert_eq!(listed[0].size, 3);
    assert_eq!(listed[0].last_modified, Some(1));
    b.delete("ns/k.png");
    assert!(b.list("ns").is_empty());
    assert_eq!(b.get("ns/k.png", "1"), Ok(b"two".to_vec()));
}

#[test]
fn unversioned_bucket_serves_only_the_live_object() {
    let mut b = ObjectStore::new(false);
    assert_eq!(b.put(b"one".to_vec(), "k"), Ok(None));
    assert_eq!(b.put(b"two".to_vec(), "k"), Ok(None));
    assert_eq!(b.get("k", ""), Ok(b"two".to_vec()));
    b.delete("k");
    assert_eq!(b.get("k", ""), Err(StoreError::NoSuchVersion));
}

#[test]
fn listing_matches_by_prefix() {
    let mut b = ObjectStore::new(true);
    b.put(vec![1], "alice/a.png").unwrap();
    b.put(vec![2], "bob/b.png").unwrap();
    b.put(vec![3], "alice/c.png").unwrap();
    let keys: Vec<Option<String>> = b.list("alice/").into_iter().map(|o| o.key).collect();
    assert_eq!(keys, vec![Some("alice/a.png".to_string()), Some("alice/c.png".to_string())]);
    assert_eq!(b.list("").len(), 3);
    assert!(b.list("carol").is_empty());
}
