//! The versioned image store: composes the metadata store and the object
//! store into upload, fetch, listing, delete, rename, revert and restore.
use vstd::prelude::*;
use vstd::string::*;

use crate::content_type::ContentType;
use crate::errors::ImageError;
use crate::lineage::{
    current_index, has_current, lemma_move_current, lineage_wf, move_current, restore_target,
    revert_target, ImageVersion,
};
use crate::listing::{keyed_images, merge_listing, page_end, page_images, ImageList};
use crate::metadata::{
    has_id, has_name, index_of_id, lemma_index_of_id, lineage_image, listed_images, name_index,
    named, owned_current, same_identity, Image, ImageRecord, MetadataStore,
};
use crate::object_key::{
    key_extension, key_extension_text, new_image_id, object_key, object_path,
};
use crate::objects::{listing, retired, revision_data, ObjectStore, StoreError};
use crate::text::{decimal, lemma_decimal_injective};
use crate::users::UserInfo;

verus! {

/// Data for an image yet to be uploaded.
pub struct UploadImage {
    pub name: String,
    pub content_type: ContentType,
    pub data: Vec<u8>,
    /// Width and height in pixels.
    pub dimensions: (u32, u32),
}

/// An image's bytes and the MIME type to serve them under.
pub struct ImageData {
    pub content_type: String,
    pub data: Vec<u8>,
}

/// Whether `tok` is a token that the object store issued before `clock`.
pub open spec fn issued(tok: Seq<char>, clock: nat) -> bool {
    exists|t: nat| t < clock && tok == #[trigger] decimal(t)
}

/// Every version token recorded in the metadata was issued by the object store.
pub open spec fn tokens_issued(rs: Seq<ImageRecord>, clock: nat) -> bool {
    forall|i: int, j: int|
        0 <= i < rs.len() && 0 <= j < rs[i].versions@.len() ==> issued(
            #[trigger] rs[i].versions@[j].version@,
            clock,
        )
}

/// The bytes that fetching image `id` as `user` yields: the revision named by
/// the current version, under the key derived from the owner's namespace and
/// the image's id and key extension.
pub open spec fn stored_image(
    meta: MetadataStore,
    objects: ObjectStore,
    id: u128,
    user: UserInfo,
) -> Option<Seq<u8>> {
    let rs = meta.records();
    if owned_current(rs, id, user.username@) {
        let rec = rs[index_of_id(rs, id)];
        let vs = rec.versions@;
        revision_data(
            objects.entries(),
            objects.versioned(),
            object_key(user.object_base_path@, id, rec.extension@),
            vs[current_index(vs)].version@,
        )
    } else {
        None
    }
}

/// Which image an upload goes to: the image that already has the name, as a
/// new version (`false`), or a new image with the fresh id (`true`).
pub fn upload_target(existing: Option<u128>, fresh: u128) -> (r: (u128, bool))
    ensures
        r == match existing {
            Some(id) => (id, false),
            None => (fresh, true),
        },
{
    match existing {
        Some(id) => (id, false),
        None => (fresh, true),
    }
}

/// What a revert or restore reports: the token that the current pointer
/// moved to, or `None` when nothing moved or the token is the one that was
/// already current.
pub fn navigation_result(previous: &String, moved: Option<String>) -> (r: Option<String>)
    ensures
        moved matches Some(v) && v@ != previous@ ==> r == moved,
        moved matches Some(v) && v@ == previous@ ==> r is None,
        moved is None ==> r is None,
{
    match moved {
        Some(v) => if v == *previous {
            None
        } else {
            Some(v)
        },
        None => None,
    }
}

/// What uploading `image` for `user` does when `new_id` is the id drawn for
/// a new image, from store `s` to store `t` with result `r`:
/// - it fails, with an object-store error and no change, exactly when the
///   bucket cannot stamp another revision;
/// - otherwise it stores the bytes as a new live object under the image's
///   key, whatever happens to the metadata writes that follow;
/// - under a name that `user` already has, that image keeps its row and id
///   and, in a versioned bucket with room on the metadata clock, gains one
///   version: the token that the bucket issued, made the only current one;
///   else the metadata is unchanged;
/// - under a new name (and an unused id), one row is added, with one current
///   version in a versioned bucket;
/// - when a version was recorded, fetching the image yields the bytes.
pub open spec fn upload_outcome(
    s: VersionedImageStore,
    t: VersionedImageStore,
    image: UploadImage,
    user: UserInfo,
    new_id: u128,
    r: Result<(), ImageError>,
) -> bool {
    let rs = s.meta().records();
    let fs = t.meta().records();
    let name = image.name@;
    let un = user.username@;
    let existing = has_name(rs, name, un);
    let k = name_index(rs, name, un);
    let id = if existing {
        rs[k].id
    } else {
        new_id
    };
    let ext = if existing {
        rs[k].extension@
    } else {
        key_extension(name)
    };
    let clock = s.meta().clock();
    let oc = s.objects().clock();
    let versioned = s.objects().versioned();
    let es = t.objects().entries();
    let n = s.objects().entries().len();
    let recorded = versioned && if existing {
        clock < u64::MAX
    } else {
        !has_id(rs, new_id) && clock + 1 < u64::MAX
    };
    &&& r is Err == (oc == u64::MAX)
    &&& r is Err ==> (r matches Err(ImageError::S3OperationFailure(_)) && t == s)
    &&& r is Ok ==> {
        &&& t.objects().clock() == oc + 1
        &&& t.objects().versioned() == versioned
        &&& t.meta().clock() <= clock + 2
        &&& es.len() == n + 1
        &&& retired(es.take(n as int), s.objects().entries(), object_key(user.object_base_path@, id, ext))
        &&& es[n as int].key@ == object_key(user.object_base_path@, id, ext)
        &&& es[n as int].data@ == image.data@
        &&& es[n as int].live
    }
    &&& r is Ok && existing && !recorded ==> fs == rs
    &&& r is Ok && existing && recorded ==> {
        let vs = rs[k].versions@;
        let nv = fs[k].versions@;
        &&& fs.len() == rs.len()
        &&& same_identity(fs[k], rs[k])
        &&& forall|j: int| 0 <= j < rs.len() && j != k ==> fs[j] == rs[j]
        &&& nv.len() == vs.len() + 1
        &&& nv.take(vs.len() as int) == move_current(vs, -1)
        &&& nv == move_current(nv, vs.len() as int)
        &&& has_current(nv) && current_index(nv) == vs.len()
        &&& new_version_row(nv.last(), image, oc, clock)
    }
    &&& r is Ok && !existing && !has_id(rs, new_id) && clock < u64::MAX ==> {
        let row = fs[rs.len() as int];
        &&& fs.len() == rs.len() + 1
        &&& fs.take(rs.len() as int) == rs
        &&& row.id == new_id && row.name@ == name && row.username@ == un
        &&& row.content_type == image.content_type && row.created_at == clock
        &&& row.extension@ == ext
        &&& row.versions@.len() == if recorded {
            1int
        } else {
            0int
        }
        &&& recorded ==> has_current(row.versions@) && current_index(row.versions@) == 0
            && new_version_row(row.versions@[0], image, oc, clock + 1)
    }
    &&& r is Ok && recorded ==> t.image_bytes(id, user) == Some(image.data@)
}

/// Uploads of `images` in turn, each with the id drawn in `ids`, lead from
/// each of `states` to the next.
pub open spec fn upload_chain(
    states: Seq<VersionedImageStore>,
    ids: Seq<u128>,
    images: Seq<UploadImage>,
    user: UserInfo,
) -> bool {
    &&& states.len() == images.len() + 1
    &&& ids.len() == images.len()
    &&& forall|k: int|
        0 <= k < images.len() ==> upload_outcome(
            states[k],
            states[k + 1],
            images[k],
            user,
            #[trigger] ids[k],
            Ok(()),
        )
}

/// The version row that an upload of `image` records: the token that the
/// bucket issued at stamp `oc`, metadata stamp `ts`, current, with the
/// image's dimensions and size.
pub open spec fn new_version_row(v: ImageVersion, image: UploadImage, oc: nat, ts: nat) -> bool {
    &&& v.version@ == decimal(oc)
    &&& v.ts == ts
    &&& v.current
    &&& v.width == image.dimensions.0 && v.height == image.dimensions.1
    &&& v.size == image.data@.len()
}

/// The metadata store and the object store, kept in agreement.
pub struct VersionedImageStore {
    meta: MetadataStore,
    objects: ObjectStore,
}

fn store_error_text(e: StoreError) -> (r: String) {
    match e {
        StoreError::Exhausted => String::from_str("revision clock exhausted"),
        StoreError::NoSuchVersion => String::from_str("no such object version"),
    }
}

impl VersionedImageStore {
    pub closed spec fn meta(&self) -> MetadataStore {
        self.meta
    }

    pub closed spec fn objects(&self) -> ObjectStore {
        self.objects
    }

    pub open spec fn wf(&self) -> bool {
        &&& self.meta().wf()
        &&& self.objects().wf()
        &&& tokens_issued(self.meta().records(), self.objects().clock())
    }

    /// The bytes that fetching image `id` as `user` yields, if any.
    pub open spec fn image_bytes(&self, id: u128, user: UserInfo) -> Option<Seq<u8>> {
        stored_image(self.meta(), self.objects(), id, user)
    }

    /// An empty store over a bucket with or without versioning.
    pub fn new(versioned: bool) -> (s: VersionedImageStore)
        ensures
            s.wf(),
            s.meta().records().len() == 0,
            s.objects().entries().len() == 0,
            s.objects().versioned() == versioned,
            s.meta().clock() == 0,
            s.objects().clock() == 0,
    {
        VersionedImageStore { meta: MetadataStore::new(), objects: ObjectStore::new(versioned) }
    }

    /// Bytes and MIME type of the current version of image `id`; `None` if
    /// `user` has no such image with a current version. Fetches the revision
    /// that the metadata names, so bytes and metadata agree.
    pub fn get_one(&self, id: u128, user: &UserInfo) -> (r: Result<Option<ImageData>, ImageError>)
        requires
            self.wf(),
        ensures
            !owned_current(self.meta().records(), id, user.username@) ==> r matches Ok(None),
            owned_current(self.meta().records(), id, user.username@) ==> {
                let rs = self.meta().records();
                let rec = rs[index_of_id(rs, id)];
                match self.image_bytes(id, *user) {
                    Some(d) => r matches Ok(Some(img)) && img.data@ == d
                        && img.content_type@ == rec.content_type.mime(),
                    None => r matches Err(ImageError::S3OperationFailure(_)),
                }
            },
    {
        let info = match self.meta.find_image(id, user.username.as_str()) {
            Some(info) => info,
            None => return Ok(None),
        };
        let key = object_path(user.object_base_path.as_str(), id, info.extension.as_str());
        match self.objects.get(key.as_str(), info.version.as_str()) {
            Ok(data) => Ok(Some(ImageData { content_type: info.content_type.to_string(), data })),
            Err(e) => Err(ImageError::S3OperationFailure(store_error_text(e))),
        }
    }

    /// Image `id` of `user` with its current version and lineage position.
    pub fn get_metadata_for_one(&self, id: u128, user: &UserInfo) -> (r: Result<
        Option<Image>,
        ImageError,
    >)
        requires
            self.wf(),
        ensures
            r matches Ok(o) && (o is Some == owned_current(
                self.meta().records(),
                id,
                user.username@,
            )) && (o matches Some(img) ==> img == lineage_image(
                self.meta().records()[index_of_id(self.meta().records(), id)],
            )),
    {
        Ok(self.meta.find_image_with_lineage(id, user.username.as_str()))
    }

    /// Page `page` (of `limit` entries) of `user`'s images: the objects in
    /// the user's namespace, newest first, joined with their metadata rows.
    pub fn get_metadata_for_all(&self, user: &UserInfo, page: u32, limit: u32) -> (r: Result<
        ImageList,
        ImageError,
    >)
        requires
            self.wf(),
            page >= 1,
            1 <= limit <= 100,
        ensures
            r matches Ok(list) && {
                let objs = listing(self.objects().entries(), user.object_base_path@);
                let keyed = keyed_images(
                    listed_images(self.meta().records(), user.username@),
                    user.object_base_path@,
                );
                &&& list.total == objs.len()
                &&& list.has_more == (page_end(objs.len(), page as nat, limit as nat) < objs.len())
                &&& list.images@ == page_images(objs, keyed, page as nat, limit as nat)
            },
    {
        let objects = self.objects.list(user.object_base_path.as_str());
        let db_images = self.meta.find_all_images(user.username.as_str());
        Ok(merge_listing(&objects, &db_images, user.object_base_path.as_str(), page, limit))
    }

    /// Deletes image `id` of `user`: first its metadata row with the whole
    /// lineage, then the live object under its key. `NotFound` if `user`
    /// has no such image with a current version.
    pub fn delete(&mut self, id: u128, user: &UserInfo) -> (r: Result<(), ImageError>)
        requires
            old(self).wf(),
        ensures
            final(self).wf(),
            ({
                let rs = old(self).meta().records();
                let i = index_of_id(rs, id);
                &&& !owned_current(rs, id, user.username@) ==> (r matches Err(
                    ImageError::NotFound,
                ) && *final(self) == *old(self))
                &&& owned_current(rs, id, user.username@) ==> {
                    &&& r is Ok
                    &&& final(self).meta().records() == rs.remove(i)
                    &&& retired(
                        final(self).objects().entries(),
                        old(self).objects().entries(),
                        object_key(user.object_base_path@, id, rs[i].extension@),
                    )
                }
            }),
    {
        let info = match self.meta.find_image(id, user.username.as_str()) {
            Some(info) => info,
            None => return Err(ImageError::NotFound),
        };
        let ghost rs = self.meta.records();
        self.meta.delete_image(id);
        let key = object_path(user.object_base_path.as_str(), id, info.extension.as_str());
        self.objects.delete(key.as_str());
        proof {
            let i = index_of_id(rs, id);
            let ns = self.meta.records();
            assert forall|a: int, b: int|
                0 <= a < ns.len() && 0 <= b < ns[a].versions@.len() implies issued(
                #[trigger] ns[a].versions@[b].version@,
                self.objects.clock(),
            ) by {
                let a0 = if a < i { a } else { a + 1 };
                assert(ns[a] == rs[a0]);
                assert(issued(rs[a0].versions@[b].version@, self.objects.clock()));
            }
        }
        Ok(())
    }

    /// Moves the current pointer of a lineage and keeps the invariant.
    proof fn lemma_moved_tokens(rs: Seq<ImageRecord>, ns: Seq<ImageRecord>, i: int, p: int, clock: nat)
        requires
            tokens_issued(rs, clock),
            0 <= i < rs.len(),
            ns.len() == rs.len(),
            forall|k: int| 0 <= k < rs.len() && k != i ==> ns[k] == rs[k],
            ns[i].versions@ == move_current(rs[i].versions@, p),
        ensures
            tokens_issued(ns, clock),
    {
        assert forall|a: int, b: int| 0 <= a < ns.len() && 0 <= b < ns[a].versions@.len() implies issued(
            #[trigger] ns[a].versions@[b].version@,
            clock,
        ) by {
            assert(issued(rs[a].versions@[b].version@, clock));
        }
    }

    /// Makes the version before the current one current and returns its
    /// token; `Ok(None)`, without change, at the initial version.
    /// `NotFound` if `user` has no such image with a current version.
    pub fn revert(&mut self, id: u128, user: &UserInfo) -> (r: Result<Option<String>, ImageError>)
        requires
            old(self).wf(),
        ensures
            final(self).wf(),
            final(self).objects() == old(self).objects(),
            ({
                let rs = old(self).meta().records();
                let i = index_of_id(rs, id);
                let vs = rs[i].versions@;
                let fs = final(self).meta().records();
                &&& !owned_current(rs, id, user.username@) ==> (r matches Err(
                    ImageError::NotFound,
                ) && fs == rs)
                &&& owned_current(rs, id, user.username@) ==> match revert_target(vs) {
                    Some(p) => r matches Ok(Some(v)) && v@ == vs[p].version@ && fs.len()
                        == rs.len() && fs[i].versions@ == move_current(vs, p) && fs[i].id == id
                        && same_identity(fs[i], rs[i]) && (forall|k: int|
                        0 <= k < rs.len() && k != i ==> fs[k] == rs[k]),
                    None => r matches Ok(None) && fs == rs,
                }
            }),
    {
        let info = match self.meta.find_image(id, user.username.as_str()) {
            Some(info) => info,
            None => return Err(ImageError::NotFound),
        };
        let ghost rs = self.meta.records();
        let ghost i = index_of_id(rs, id);
        let ghost vs = rs[i].versions@;
        proof {
            assert(lineage_wf(vs, self.meta.clock()));
        }
        let moved = self.meta.revert_image_version(id);
        proof {
            if let Some(p) = revert_target(vs) {
                Self::lemma_moved_tokens(rs, self.meta.records(), i, p, self.objects.clock());
            }
        }
        Ok(navigation_result(&info.version, moved))
    }

    /// Makes the version after the current one current and returns its
    /// token; `Ok(None)`, without change, at the latest version.
    /// `NotFound` if `user` has no such image with a current version.
    pub fn restore(&mut self, id: u128, user: &UserInfo) -> (r: Result<Option<String>, ImageError>)
        requires
            old(self).wf(),
        ensures
            final(self).wf(),
            final(self).objects() == old(self).objects(),
            ({
                let rs = old(self).meta().records();
                let i = index_of_id(rs, id);
                let vs = rs[i].versions@;
                let fs = final(self).meta().records();
                &&& !owned_current(rs, id, user.username@) ==> (r matches Err(
                    ImageError::NotFound,
                ) && fs == rs)
                &&& owned_current(rs, id, user.username@) ==> match restore_target(vs) {
                    Some(p) => r matches Ok(Some(v)) && v@ == vs[p].version@ && fs.len()
                        == rs.len() && fs[i].versions@ == move_current(vs, p) && fs[i].id == id
                        && same_identity(fs[i], rs[i]) && (forall|k: int|
                        0 <= k < rs.len() && k != i ==> fs[k] == rs[k]),
                    None => r matches Ok(None) && fs == rs,
                }
            }),
    {
        let info = match self.meta.find_image(id, user.username.as_str()) {
            Some(info) => info,
            None => return Err(ImageError::NotFound),
        };
        let ghost rs = self.meta.records();
        let ghost i = index_of_id(rs, id);
        let ghost vs = rs[i].versions@;
        proof {
            assert(lineage_wf(vs, self.meta.clock()));
        }
        let moved = self.meta.restore_image_version(id);
        proof {
            if let Some(p) = restore_target(vs) {
                Self::lemma_moved_tokens(rs, self.meta.records(), i, p, self.objects.clock());
            }
        }
        Ok(navigation_result(&info.version, moved))
    }

    /// Renames image `id` of `user`; the new name, or `Ok(None)` when the
    /// owner already has another image of that name. The image keeps its id,
    /// its lineage, its object key and its objects, so fetching it yields the
    /// same bytes as before.
    pub fn rename(&mut self, id: u128, new_name: &str, user: &UserInfo) -> (r: Result<
        Option<String>,
        ImageError,
    >)
        requires
            old(self).wf(),
        ensures
            final(self).wf(),
            final(self).objects() == old(self).objects(),
            ({
                let rs = old(self).meta().records();
                let i = index_of_id(rs, id);
                let fs = final(self).meta().records();
                let ok = !(exists|k: int|
                    0 <= k < rs.len() && k != i && named(rs[k], new_name@, rs[i].username@));
                &&& !owned_current(rs, id, user.username@) ==> (r matches Err(
                    ImageError::NotFound,
                ) && fs == rs)
                &&& owned_current(rs, id, user.username@) && !ok ==> (r matches Ok(None) && fs == rs)
                &&& owned_current(rs, id, user.username@) && ok ==> {
                    &&& r matches Ok(Some(n)) && n@ == new_name@
                    &&& fs.len() == rs.len()
                    &&& fs[i].id == id && fs[i].name@ == new_name@
                    &&& fs[i].versions == rs[i].versions
                    &&& fs[i].username == rs[i].username
                    &&& fs[i].content_type == rs[i].content_type
                    &&& fs[i].created_at == rs[i].created_at
                    &&& fs[i].extension == rs[i].extension
                    &&& forall|k: int| 0 <= k < rs.len() && k != i ==> fs[k] == rs[k]
                    &&& final(self).image_bytes(id, *user) == old(self).image_bytes(id, *user)
                }
            }),
    {
        let info = match self.meta.find_image(id, user.username.as_str()) {
            Some(info) => info,
            None => return Err(ImageError::NotFound),
        };
        let ghost rs = self.meta.records();
        let renamed = self.meta.rename_image(id, new_name);
        proof {
            let i = index_of_id(rs, id);
            let ns = self.meta.records();
            assert forall|a: int, b: int|
                0 <= a < ns.len() && 0 <= b < ns[a].versions@.len() implies issued(
                #[trigger] ns[a].versions@[b].version@,
                self.objects.clock(),
            ) by {
                assert(issued(rs[a].versions@[b].version@, self.objects.clock()));
            }
            if renamed is Some {
                lemma_index_of_id(ns, i);
            }
        }
        Ok(renamed)
    }

    /// Uploads `image` for `user`. Under a name that `user` already has, the
    /// bytes become a new version of that image; otherwise a new image with
    /// id `new_id` is created. The bytes are stored first; a failure there
    /// fails the upload and changes nothing. The metadata writes that follow
    /// are best effort: if one is refused the upload still succeeds. A bucket
    /// without versioning returns no token, and then no version is recorded.
    pub fn upload_with_id(&mut self, image: UploadImage, user: &UserInfo, new_id: u128) -> (r:
        Result<(), ImageError>)
        requires
            old(self).wf(),
        ensures
            final(self).wf(),
            upload_outcome(*old(self), *final(self), image, *user, new_id, r),
    {
        let ghost rs = self.meta.records();
        let ghost oc = self.objects.clock();
        let ghost s0 = *self;
        let ghost img = image;
        let UploadImage { name, content_type, data: bytes, dimensions } = image;
        let existing = self.meta.find_image_id_by_name(name.as_str(), user.username.as_str());
        let (id, is_new) = upload_target(existing, new_id);
        proof {
            if !is_new {
                lemma_name_index_id(rs, name@, user.username@);
            }
        }
        let ext = if is_new {
            key_extension_text(name.as_str())
        } else {
            match self.meta.find_key_extension(id) {
                Some(e) => e,
                None => key_extension_text(name.as_str()),
            }
        };
        let key = object_path(user.object_base_path.as_str(), id, ext.as_str());
        let size = bytes.len() as u64;
        let token = match self.objects.put(bytes, key.as_str()) {
            Ok(t) => t,
            Err(e) => return Err(ImageError::S3OperationFailure(store_error_text(e))),
        };
        proof {
            lemma_issued_later(rs, oc);
        }
        if is_new {
            let _ = self.meta.insert_image(id, name.as_str(), content_type, user.username.as_str());
            proof {
                let ns = self.meta.records();
                assert forall|a: int, b: int|
                    0 <= a < ns.len() && 0 <= b < ns[a].versions@.len() implies issued(
                    #[trigger] ns[a].versions@[b].version@,
                    self.objects.clock(),
                ) by {
                    assert(a < rs.len());
                    assert(ns[a] == rs[a]);
                }
            }
        }
        let ghost ms = self.meta.records();
        let ghost mi = index_of_id(ms, id);
        match token {
            Some(v) => {
                proof {
                    if has_id(ms, id) {
                        assert forall|j: int| 0 <= j < ms[mi].versions@.len() implies ms[mi].versions@[j].version@
                            != v@ by {
                            assert(issued(ms[mi].versions@[j].version@, oc));
                            let t = choose|t: nat| t < oc && ms[mi].versions@[j].version@ == #[trigger] decimal(t);
                            if decimal(t) == decimal(oc) {
                                lemma_decimal_injective(t, oc);
                            }
                        }
                    }
                }
                let _ = self.meta.insert_image_version(id, v.as_str(), dimensions.0, dimensions.1, size);
                proof {
                    let ns = self.meta.records();
                    assert forall|a: int, b: int|
                        0 <= a < ns.len() && 0 <= b < ns[a].versions@.len() implies issued(
                        #[trigger] ns[a].versions@[b].version@,
                        self.objects.clock(),
                    ) by {
                        if ns != ms && a == mi {
                            let vs = ms[mi].versions@;
                            if b < vs.len() {
                                assert(ns[a].versions@.take(vs.len() as int)[b] == move_current(vs, -1)[b]);
                                assert(issued(vs[b].version@, self.objects.clock()));
                            } else {
                                assert(ns[a].versions@[b].version@ == decimal(oc));
                            }
                        } else {
                            assert(ns[a] == ms[a]);
                        }
                    }
                }
            },
            None => {},
        }
        proof {
            let fs = self.meta.records();
            if self.objects.versioned() && fs != ms && has_id(ms, id) {
                let i = index_of_id(ms, id);
                let nv = fs[i].versions@;
                lemma_index_of_id(fs, i);
                lemma_move_current(nv, nv.len() - 1);
                lemma_index_of_id(ms, i);
            }
            let name_s = img.name@;
            let un = user.username@;
            let existing = has_name(rs, name_s, un);
            let k = name_index(rs, name_s, un);
            let clock = s0.meta().clock();
            let versioned = s0.objects().versioned();
            let recorded = versioned && if existing {
                clock < u64::MAX
            } else {
                !has_id(rs, new_id) && clock + 1 < u64::MAX
            };
            assert(existing == !is_new);
            assert(existing && !recorded ==> fs == rs);
            if existing && recorded {
                let vs = rs[k].versions@;
                let nv = fs[k].versions@;
                assert(fs.len() == rs.len());
                assert(same_identity(fs[k], rs[k]));
                assert(nv.len() == vs.len() + 1);
                assert(has_current(nv) && current_index(nv) == vs.len());
                assert(new_version_row(nv.last(), img, oc, clock));
            }
            if !existing && !has_id(rs, new_id) && clock < u64::MAX {
                let row = fs[rs.len() as int];
                assert(fs.len() == rs.len() + 1);
                assert(fs.take(rs.len() as int) == rs);
                assert(row.versions@.len() == if recorded { 1int } else { 0int });
                if recorded {
                    assert(has_current(row.versions@) && current_index(row.versions@) == 0);
                    assert(new_version_row(row.versions@[0], img, oc, clock + 1));
                }
            }
            assert(recorded ==> self.image_bytes(id, *user) == Some(img.data@));
        }
        Ok(())
    }

    /// Uploads each of `images` for `user` in order, stopping at the first
    /// failure: each stored image goes from one state to the next as
    /// `upload_outcome` says; it fails, with an object-store error, exactly
    /// when the bucket runs out of revision stamps before the last image, and
    /// then the images before the failing one stay stored.
    pub fn upload_all(&mut self, images: Vec<UploadImage>, user: &UserInfo) -> (r: Result<
        (),
        ImageError,
    >)
        requires
            old(self).wf(),
        ensures
            final(self).wf(),
            r is Ok == (old(self).objects().clock() + images@.len() <= u64::MAX),
            r is Ok ==> exists|states: Seq<VersionedImageStore>, ids: Seq<u128>|
                #[trigger] upload_chain(states, ids, images@, *user) && states[0] == *old(self)
                    && states.last() == *final(self),
            r is Err ==> (r matches Err(ImageError::S3OperationFailure(_))) && exists|
                states: Seq<VersionedImageStore>,
                ids: Seq<u128>,
            |
                #[trigger] upload_chain(states, ids, images@.take(states.len() - 1), *user)
                    && states.len() <= images@.len() && states[0] == *old(self) && states.last()
                    == *final(self),
    {
        let mut rest = images;
        let ghost all = rest@;
        let ghost start = self.objects.clock();
        let ghost mut states: Seq<VersionedImageStore> = seq![*self];
        let ghost mut ids: Seq<u128> = seq![];
        let mut done: u64 = 0;
        proof {
            assert(all.take(0) =~= Seq::<UploadImage>::empty());
        }
        while rest.len() > 0
            invariant
                self.wf(),
                all == images@,
                done + rest@.len() == all.len(),
                rest@ == all.skip(done as int),
                self.objects().clock() == start + done,
                self.objects().clock() <= u64::MAX,
                start == old(self).objects().clock(),
                states.len() == done + 1,
                upload_chain(states, ids, all.take(done as int), *user),
                states[0] == *old(self),
                states.last() == *self,
            decreases rest@.len(),
        {
            let image = rest.remove(0);
            assert(image == all[done as int]);
            let id = new_image_id();
            let ghost before = *self;
            match self.upload_with_id(image, user, id) {
                Ok(()) => {},
                Err(e) => {
                    proof {
                        assert(states.last() == *self);
                        assert(all.skip(done as int).len() > 0);
                    }
                    return Err(e);
                },
            }
            proof {
                let ns = states.push(*self);
                let nids = ids.push(id);
                let t = all.take(done + 1);
                assert forall|k: int| 0 <= k < t.len() implies upload_outcome(
                    ns[k],
                    ns[k + 1],
                    t[k],
                    *user,
                    #[trigger] nids[k],
                    Ok(()),
                ) by {
                    if k < done {
                        assert(ids[k] == nids[k]);
                        assert(all.take(done as int)[k] == t[k]);
                    }
                }
                assert(upload_chain(ns, nids, t, *user));
                states = ns;
                ids = nids;
            }
            done = done + 1;
        }
        assert(all.take(done as int) =~= all);
        Ok(())
    }

    /// Uploads `image` for `user`, drawing a fresh id in case the name is new
    /// to `user`; what it does is `upload_outcome` for the id drawn.
    pub fn upload(&mut self, image: UploadImage, user: &UserInfo) -> (r: Result<(), ImageError>)
        requires
            old(self).wf(),
        ensures
            final(self).wf(),
            exists|id: u128| #[trigger] upload_outcome(*old(self), *final(self), image, *user, id, r),
    {
        let id = new_image_id();
        self.upload_with_id(image, user, id)
    }
}

/// The image found by name is the one found by its id.
proof fn lemma_name_index_id(rs: Seq<ImageRecord>, name: Seq<char>, user: Seq<char>)
    requires
        forall|a: int, b: int| 0 <= a < b < rs.len() ==> rs[a].id != rs[b].id,
        has_name(rs, name, user),
    ensures
        0 <= name_index(rs, name, user) < rs.len(),
        named(rs[name_index(rs, name, user)], name, user),
        has_id(rs, rs[name_index(rs, name, user)].id),
        index_of_id(rs, rs[name_index(rs, name, user)].id) == name_index(rs, name, user),
{
    lemma_index_of_id(rs, name_index(rs, name, user));
}

/// Tokens issued before a clock are issued before any later clock.
proof fn lemma_issued_later(rs: Seq<ImageRecord>, clock: nat)
    requires
        tokens_issued(rs, clock),
    ensures
        tokens_issued(rs, clock + 1),
{
    assert forall|a: int, b: int| 0 <= a < rs.len() && 0 <= b < rs[a].versions@.len() implies issued(
        #[trigger] rs[a].versions@[b].version@,
        clock + 1,
    ) by {
        assert(issued(rs[a].versions@[b].version@, clock));
        let t = choose|t: nat| t < clock && rs[a].versions@[b].version@ == #[trigger] decimal(t);
        assert(t < clock + 1);
    }
}

} // verus!
