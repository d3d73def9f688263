//! Merges the object store's listing with the metadata rows of a user into a
//! page of images: the listing decides presence and order, the metadata the
//! facts.
use vstd::prelude::*;

use crate::metadata::Image;
use crate::object_key::{object_key, object_path};
use vstd::seq_lib::lemma_multiset_commutative;

verus! {

/// One entry of the object store's listing.
pub struct ObjectSummary {
    pub key: Option<String>,
    pub size: u64,
    /// Modification time, in nanoseconds since the epoch.
    pub last_modified: Option<u64>,
}

/// A metadata row together with the object key derived for it.
pub struct KeyedImage {
    pub key: String,
    pub image: Image,
}

/// One page of a user's images.
pub struct ImageList {
    pub images: Vec<Image>,
    /// Number of objects found in the user's namespace.
    pub total: usize,
    pub has_more: bool,
}

/// Sort rank of a listing entry: its modification time; an entry without one
/// ranks below all others.
pub open spec fn rank(o: ObjectSummary) -> int {
    match o.last_modified {
        Some(t) => t as int,
        None => -1,
    }
}

/// Inserts `x` into `s` (sorted newest first) after every entry at least as new.
pub open spec fn insert_desc(s: Seq<ObjectSummary>, x: ObjectSummary) -> Seq<ObjectSummary>
    decreases s.len(),
{
    if s.len() == 0 {
        seq![x]
    } else if rank(s[0]) >= rank(x) {
        seq![s[0]] + insert_desc(s.skip(1), x)
    } else {
        seq![x] + s
    }
}

/// The listing sorted newest first; entries of equal rank keep their order.
pub open spec fn sort_desc(s: Seq<ObjectSummary>) -> Seq<ObjectSummary>
    decreases s.len(),
{
    if s.len() == 0 {
        seq![]
    } else {
        insert_desc(sort_desc(s.drop_last()), s.last())
    }
}

/// The image registered under key `k`; of several, the last one.
pub open spec fn lookup(keyed: Seq<(Seq<char>, Image)>, k: Seq<char>) -> Option<Image>
    decreases keyed.len(),
{
    if keyed.len() == 0 {
        None
    } else if keyed.last().0 == k {
        Some(keyed.last().1)
    } else {
        lookup(keyed.drop_last(), k)
    }
}

/// The keyed rows as pairs of key characters and image.
pub open spec fn key_pairs(keyed: Seq<KeyedImage>) -> Seq<(Seq<char>, Image)> {
    keyed.map_values(|k: KeyedImage| (k.key@, k.image))
}

/// The image that a listing entry stands for, if any.
pub open spec fn match_entry(keyed: Seq<(Seq<char>, Image)>, o: ObjectSummary) -> Option<Image> {
    match o.key {
        Some(k) => lookup(keyed, k@),
        None => None,
    }
}

/// The images of the entries of `objs` that have a metadata match, in order.
pub open spec fn join(objs: Seq<ObjectSummary>, keyed: Seq<(Seq<char>, Image)>) -> Seq<Image>
    decreases objs.len(),
{
    if objs.len() == 0 {
        seq![]
    } else {
        let prev = join(objs.drop_last(), keyed);
        match match_entry(keyed, objs.last()) {
            Some(img) => prev.push(img),
            None => prev,
        }
    }
}

/// First position of a page.
pub open spec fn page_start(page: nat, limit: nat) -> int {
    (page - 1) * limit
}

/// End (exclusive) of a page within `total` entries.
pub open spec fn page_end(total: nat, page: nat, limit: nat) -> int {
    let e = page_start(page, limit) + limit;
    if e < total {
        e
    } else {
        total as int
    }
}

/// The images of page `page` (of `limit` entries) of the sorted listing.
pub open spec fn page_images(
    objects: Seq<ObjectSummary>,
    keyed: Seq<(Seq<char>, Image)>,
    page: nat,
    limit: nat,
) -> Seq<Image> {
    let start = page_start(page, limit);
    let end = page_end(objects.len(), page, limit);
    if start < end {
        join(sort_desc(objects).subrange(start, end), keyed)
    } else {
        seq![]
    }
}

proof fn lemma_insert_desc_at(s: Seq<ObjectSummary>, x: ObjectSummary, j: int)
    requires
        0 <= j <= s.len(),
        forall|k: int| 0 <= k < j ==> rank(s[k]) >= rank(x),
        j < s.len() ==> rank(s[j]) < rank(x),
    ensures
        insert_desc(s, x) == s.take(j) + seq![x] + s.skip(j),
    decreases s.len(),
{
    if s.len() == 0 {
        assert(s.take(j) + seq![x] + s.skip(j) =~= seq![x]);
    } else if j == 0 {
        assert(s.take(j) + seq![x] + s.skip(j) =~= seq![x] + s);
    } else {
        let t = s.skip(1);
        assert forall|k: int| 0 <= k < j - 1 implies rank(t[k]) >= rank(x) by {
            assert(t[k] == s[k + 1]);
        }
        lemma_insert_desc_at(t, x, j - 1);
        assert(seq![s[0]] + (t.take(j - 1) + seq![x] + t.skip(j - 1)) =~= s.take(j) + seq![x]
            + s.skip(j));
    }
}

/// Sorted newest first.
pub open spec fn sorted_desc(s: Seq<ObjectSummary>) -> bool {
    forall|i: int, j: int| 0 <= i < j < s.len() ==> rank(s[i]) >= rank(s[j])
}

proof fn lemma_insert_desc_head(s: Seq<ObjectSummary>, x: ObjectSummary)
    ensures
        insert_desc(s, x).len() > 0,
        insert_desc(s, x)[0] == if s.len() > 0 && rank(s[0]) >= rank(x) {
            s[0]
        } else {
            x
        },
{
}

proof fn lemma_insert_desc_sorted(s: Seq<ObjectSummary>, x: ObjectSummary)
    requires
        sorted_desc(s),
    ensures
        sorted_desc(insert_desc(s, x)),
        insert_desc(s, x).to_multiset() == s.to_multiset().insert(x),
    decreases s.len(),
{
    broadcast use vstd::multiset::group_multiset_axioms, vstd::seq_lib::group_to_multiset_ensures;

    if s.len() == 0 {
        assert(insert_desc(s, x) =~= seq![x]);
        assert(seq![x] =~= Seq::<ObjectSummary>::empty().push(x));
    } else if rank(s[0]) >= rank(x) {
        let t = s.skip(1);
        assert(sorted_desc(t)) by {
            assert forall|i: int, j: int| 0 <= i < j < t.len() implies rank(t[i]) >= rank(t[j]) by {
                assert(t[i] == s[i + 1] && t[j] == s[j + 1]);
            }
        }
        lemma_insert_desc_sorted(t, x);
        lemma_insert_desc_head(t, x);
        lemma_insert_desc_len(t, x);
        let r = insert_desc(t, x);
        let whole = seq![s[0]] + r;
        assert forall|i: int, j: int| 0 <= i < j < whole.len() implies rank(whole[i]) >= rank(
            whole[j],
        ) by {
            if i == 0 {
                assert(whole[j] == r[j - 1]);
                assert(rank(r[0]) >= rank(r[j - 1]));
                if t.len() > 0 {
                    assert(rank(s[0]) >= rank(s[1]));
                }
            } else {
                assert(whole[i] == r[i - 1] && whole[j] == r[j - 1]);
            }
        }
        lemma_multiset_commutative(seq![s[0]], r);
        lemma_multiset_commutative(seq![s[0]], t);
        assert(seq![s[0]] + t =~= s);
    } else {
        let whole = seq![x] + s;
        assert forall|i: int, j: int| 0 <= i < j < whole.len() implies rank(whole[i]) >= rank(
            whole[j],
        ) by {
            if i == 0 {
                assert(whole[j] == s[j - 1]);
                if j > 1 {
                    assert(rank(s[0]) >= rank(s[j - 1]));
                }
            } else {
                assert(whole[i] == s[i - 1] && whole[j] == s[j - 1]);
            }
        }
        lemma_multiset_commutative(seq![x], s);
    }
}

/// The listing order holds exactly the entries of the listing, rearranged
/// newest first.
pub proof fn lemma_sort_desc_sorted(s: Seq<ObjectSummary>)
    ensures
        sorted_desc(sort_desc(s)),
        sort_desc(s).to_multiset() == s.to_multiset(),
    decreases s.len(),
{
    broadcast use vstd::multiset::group_multiset_axioms, vstd::seq_lib::group_to_multiset_ensures;

    if s.len() == 0 {
        assert(sort_desc(s) =~= s);
    } else {
        lemma_sort_desc_sorted(s.drop_last());
        lemma_insert_desc_sorted(sort_desc(s.drop_last()), s.last());
        assert(s.drop_last().push(s.last()) =~= s);
    }
}

pub proof fn lemma_insert_desc_len(s: Seq<ObjectSummary>, x: ObjectSummary)
    ensures
        insert_desc(s, x).len() == s.len() + 1,
    decreases s.len(),
{
    if s.len() > 0 && rank(s[0]) >= rank(x) {
        lemma_insert_desc_len(s.skip(1), x);
    }
}

pub proof fn lemma_sort_desc_len(s: Seq<ObjectSummary>)
    ensures
        sort_desc(s).len() == s.len(),
    decreases s.len(),
{
    if s.len() > 0 {
        lemma_sort_desc_len(s.drop_last());
        lemma_insert_desc_len(sort_desc(s.drop_last()), s.last());
    }
}

fn copy_summary(o: &ObjectSummary) -> (r: ObjectSummary)
    ensures
        r == *o,
{
    ObjectSummary {
        key: match &o.key {
            Some(k) => Some(k.clone()),
            None => None,
        },
        size: o.size,
        last_modified: o.last_modified,
    }
}

/// A field-for-field copy of an image.
pub fn copy_image(img: &Image) -> (r: Image)
    ensures
        r == *img,
{
    Image {
        id: img.id,
        name: img.name.clone(),
        content_type: img.content_type,
        extension: img.extension.clone(),
        created_at: img.created_at,
        last_modified: img.last_modified,
        version: img.version.clone(),
        width: img.width,
        height: img.height,
        size: img.size,
        version_index: img.version_index,
        version_count: img.version_count,
        latest_version: img.latest_version,
        initial_version: img.initial_version,
    }
}

fn newer_or_same(a: &ObjectSummary, b: &ObjectSummary) -> (r: bool)
    ensures
        r == (rank(*a) >= rank(*b)),
{
    match (a.last_modified, b.last_modified) {
        (Some(x), Some(y)) => x >= y,
        (Some(_), None) => true,
        (None, Some(_)) => false,
        (None, None) => true,
    }
}

/// The listing sorted newest first, entries of equal rank in listing order.
pub fn sort_newest_first(objects: &Vec<ObjectSummary>) -> (r: Vec<ObjectSummary>)
    ensures
        r@ == sort_desc(objects@),
{
    let mut out: Vec<ObjectSummary> = Vec::new();
    let mut i: usize = 0;
    while i < objects.len()
        invariant
            i <= objects@.len(),
            out@ == sort_desc(objects@.take(i as int)),
            out@.len() == i,
        decreases objects@.len() - i,
    {
        let x = copy_summary(&objects[i]);
        let mut j: usize = 0;
        while j < out.len() && newer_or_same(&out[j], &x)
            invariant
                j <= out@.len(),
                forall|k: int| 0 <= k < j ==> rank(out@[k]) >= rank(x),
            decreases out@.len() - j,
        {
            j += 1;
        }
        proof {
            lemma_insert_desc_at(out@, x, j as int);
            assert(objects@.take(i + 1).drop_last() =~= objects@.take(i as int));
            assert(objects@.take(i + 1).last() == x);
        }
        let ghost before = out@;
        out.insert(j, x);
        assert(out@ =~= before.take(j as int) + seq![x] + before.skip(j as int));
        i += 1;
    }
    assert(objects@.take(i as int) =~= objects@);
    out
}

/// The image registered under `key`; of several, the last one.
fn find_keyed<'a>(keyed: &'a Vec<KeyedImage>, key: &String) -> (r: Option<&'a Image>)
    ensures
        r matches Some(img) ==> lookup(key_pairs(keyed@), key@) == Some(*img),
        r is None ==> lookup(key_pairs(keyed@), key@) is None,
{
    let ghost pairs = key_pairs(keyed@);
    let mut i = keyed.len();
    assert(pairs.take(i as int) =~= pairs);
    while i > 0
        invariant
            i <= keyed@.len(),
            pairs == key_pairs(keyed@),
            lookup(pairs, key@) == lookup(pairs.take(i as int), key@),
        decreases i,
    {
        let t = Ghost(pairs.take(i as int));
        assert(t@.last() == pairs[i - 1]);
        if keyed[i - 1].key == *key {
            return Some(&keyed[i - 1].image);
        }
        assert(t@.drop_last() =~= pairs.take(i - 1));
        i -= 1;
    }
    None
}

/// One page of the listing: entries sorted newest first, the page window
/// taken, and each entry joined with the image registered under its key;
/// entries without a match are left out. `total` counts listing entries.
pub fn paginate(objects: &Vec<ObjectSummary>, keyed: &Vec<KeyedImage>, page: u32, limit: u32) -> (r:
    ImageList)
    requires
        page >= 1,
        1 <= limit <= 100,
    ensures
        r.total == objects@.len(),
        r.has_more == (page_end(objects@.len(), page as nat, limit as nat) < objects@.len()),
        r.images@ == page_images(objects@, key_pairs(keyed@), page as nat, limit as nat),
{
    let sorted = sort_newest_first(objects);
    let total = objects.len();
    let p64: u64 = page as u64 - 1;
    let l64: u64 = limit as u64;
    assert(p64 * l64 <= 0xffff_ffff * 100) by (nonlinear_arith)
        requires
            p64 <= 0xffff_ffff,
            l64 <= 100,
    ;
    let start64: u64 = p64 * l64;
    let end64: u64 = if start64 + (limit as u64) < total as u64 {
        start64 + (limit as u64)
    } else {
        total as u64
    };
    let has_more = end64 < total as u64;
    let mut images: Vec<Image> = Vec::new();
    proof {
        lemma_sort_desc_len(objects@);
    }
    if start64 < end64 {
        let start = start64 as usize;
        let end = end64 as usize;
        let ghost window = sorted@.subrange(start as int, end as int);
        let mut i = start;
        while i < end
            invariant
                start <= i <= end <= sorted@.len(),
                window == sorted@.subrange(start as int, end as int),
                images@ == join(sorted@.subrange(start as int, i as int), key_pairs(keyed@)),
            decreases end - i,
        {
            let ghost w = sorted@.subrange(start as int, i + 1);
            assert(w.drop_last() =~= sorted@.subrange(start as int, i as int));
            assert(w.last() == sorted@[i as int]);
            match &sorted[i].key {
                Some(k) => match find_keyed(keyed, k) {
                    Some(img) => images.push(copy_image(img)),
                    None => {},
                },
                None => {},
            }
            i += 1;
        }
    }
    ImageList { images, total, has_more }
}

/// The page of `user`'s images: each metadata row is keyed by the object key
/// derived from `base_path`, its id and its key extension, then the listing
/// is paged and joined.
pub fn merge_listing(
    objects: &Vec<ObjectSummary>,
    db_images: &Vec<Image>,
    base_path: &str,
    page: u32,
    limit: u32,
) -> (r: ImageList)
    requires
        page >= 1,
        1 <= limit <= 100,
    ensures
        r.total == objects@.len(),
        r.has_more == (page_end(objects@.len(), page as nat, limit as nat) < objects@.len()),
        r.images@ == page_images(
            objects@,
            keyed_images(db_images@, base_path@),
            page as nat,
            limit as nat,
        ),
{
    let mut keyed: Vec<KeyedImage> = Vec::new();
    let mut i: usize = 0;
    while i < db_images.len()
        invariant
            i <= db_images@.len(),
            key_pairs(keyed@) == keyed_images(db_images@.take(i as int), base_path@),
        decreases db_images@.len() - i,
    {
        let img = &db_images[i];
        let key = object_path(base_path, img.id, img.extension.as_str());
        let ghost before = keyed@;
        keyed.push(KeyedImage { key, image: copy_image(img) });
        assert(key_pairs(keyed@) =~= key_pairs(before).push((key@, *img)));
        assert(db_images@.take(i + 1) =~= db_images@.take(i as int).push(*img));
        i += 1;
    }
    assert(db_images@.take(i as int) =~= db_images@);
    paginate(objects, &keyed, page, limit)
}

/// Each image paired with the object key derived for it.
pub open spec fn keyed_images(images: Seq<Image>, base: Seq<char>) -> Seq<(Seq<char>, Image)> {
    images.map_values(|img: Image| (object_key(base, img.id, img.extension@), img))
}

/// Every entry of `objs` has a metadata match.
pub open spec fn all_matched(objs: Seq<ObjectSummary>, keyed: Seq<(Seq<char>, Image)>) -> bool {
    forall|i: int| 0 <= i < objs.len() ==> (#[trigger] match_entry(keyed, objs[i])) is Some
}

proof fn lemma_insert_matched(s: Seq<ObjectSummary>, x: ObjectSummary, keyed: Seq<(Seq<char>, Image)>)
    requires
        all_matched(s, keyed),
        match_entry(keyed, x) is Some,
    ensures
        all_matched(insert_desc(s, x), keyed),
    decreases s.len(),
{
    if s.len() > 0 && rank(s[0]) >= rank(x) {
        let t = s.skip(1);
        assert forall|i: int| 0 <= i < t.len() implies (#[trigger] match_entry(keyed, t[i])) is Some by {
            assert(t[i] == s[i + 1]);
        }
        lemma_insert_matched(t, x, keyed);
        let r = seq![s[0]] + insert_desc(t, x);
        assert forall|i: int| 0 <= i < r.len() implies (#[trigger] match_entry(keyed, r[i])) is Some by {
            if i > 0 {
                assert(r[i] == insert_desc(t, x)[i - 1]);
            }
        }
    } else if s.len() > 0 {
        let r = seq![x] + s;
        assert forall|i: int| 0 <= i < r.len() implies (#[trigger] match_entry(keyed, r[i])) is Some by {
            if i > 0 {
                assert(r[i] == s[i - 1]);
            }
        }
    }
}

proof fn lemma_sort_matched(s: Seq<ObjectSummary>, keyed: Seq<(Seq<char>, Image)>)
    requires
        all_matched(s, keyed),
    ensures
        all_matched(sort_desc(s), keyed),
    decreases s.len(),
{
    if s.len() > 0 {
        let d = s.drop_last();
        assert forall|i: int| 0 <= i < d.len() implies (#[trigger] match_entry(keyed, d[i])) is Some by {
            assert(d[i] == s[i]);
        }
        lemma_sort_matched(d, keyed);
        assert(match_entry(keyed, s[s.len() - 1]) is Some);
        lemma_insert_matched(sort_desc(d), s.last(), keyed);
    }
}

proof fn lemma_join_len(objs: Seq<ObjectSummary>, keyed: Seq<(Seq<char>, Image)>)
    requires
        all_matched(objs, keyed),
    ensures
        join(objs, keyed).len() == objs.len(),
    decreases objs.len(),
{
    if objs.len() > 0 {
        let d = objs.drop_last();
        assert forall|i: int| 0 <= i < d.len() implies (#[trigger] match_entry(keyed, d[i])) is Some by {
            assert(d[i] == objs[i]);
        }
        lemma_join_len(d, keyed);
        assert(match_entry(keyed, objs[objs.len() - 1]) is Some);
    }
}

/// When every listed object has a metadata row, a page holds exactly the
/// entries of its window: `limit` of them on every page before the last
/// non-empty one, the remainder on that one, none after; `has_more` (the
/// window ends before `total`) holds exactly on the pages before the last.
pub proof fn lemma_page_size(
    objects: Seq<ObjectSummary>,
    keyed: Seq<(Seq<char>, Image)>,
    page: nat,
    limit: nat,
)
    requires
        page >= 1,
        limit >= 1,
        all_matched(objects, keyed),
    ensures
        page_images(objects, keyed, page, limit).len() == if page_start(page, limit) < page_end(
            objects.len(),
            page,
            limit,
        ) {
            page_end(objects.len(), page, limit) - page_start(page, limit)
        } else {
            0
        },
        page * limit < objects.len() ==> page_images(objects, keyed, page, limit).len() == limit
            && page_end(objects.len(), page, limit) < objects.len(),
        page * limit >= objects.len() ==> page_end(objects.len(), page, limit) == objects.len(),
{
    let start = page_start(page, limit);
    let end = page_end(objects.len(), page, limit);
    assert(start + limit == page * limit) by (nonlinear_arith)
        requires
            start == (page - 1) * limit,
            page >= 1,
    ;
    assert(start >= 0) by (nonlinear_arith)
        requires
            start == (page - 1) * limit,
            page >= 1,
    ;
    if start < end {
        lemma_sort_desc_len(objects);
        lemma_sort_matched(objects, keyed);
        let w = sort_desc(objects).subrange(start, end);
        assert forall|i: int| 0 <= i < w.len() implies (#[trigger] match_entry(keyed, w[i])) is Some by {
            assert(w[i] == sort_desc(objects)[start + i]);
        }
        lemma_join_len(w, keyed);
    }
}

} // verus!
