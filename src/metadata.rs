//! The metadata repository: image rows, each owning its version lineage.
use vstd::prelude::*;
use vstd::string::*;

use crate::content_type::ContentType;
use crate::object_key::{key_extension, key_extension_text};
use crate::text::str_eq;
use crate::lineage::{
    current_index, exactly_one_current, has_current, lemma_current_index,
    lemma_move_current, lineage_wf, move_current, restore_target, revert_target, ImageVersion,
};

verus! {

/// An image row and the versions that it owns.
pub struct ImageRecord {
    pub id: u128,
    pub name: String,
    pub content_type: ContentType,
    pub created_at: u64,
    pub username: String,
    /// Extension of the image's object key, fixed when the image is created.
    pub extension: String,
    pub versions: Vec<ImageVersion>,
}

/// The fields that address an image's current revision in both stores.
pub struct ImageInfo {
    pub id: u128,
    pub name: String,
    pub username: String,
    pub content_type: ContentType,
    /// Extension of the image's object key.
    pub extension: String,
    /// Token of the current version.
    pub version: String,
}

/// An image's facts together with its current version and lineage position.
pub struct Image {
    pub id: u128,
    pub name: String,
    pub content_type: ContentType,
    /// Extension of the image's object key.
    pub extension: String,
    pub created_at: u64,
    /// Timestamp of the current version.
    pub last_modified: u64,
    pub version: String,
    pub width: u32,
    pub height: u32,
    pub size: u64,
    /// 1-based rank of the current version in timestamp order.
    pub version_index: u64,
    pub version_count: u64,
    pub latest_version: bool,
    pub initial_version: bool,
}

/// The lineage projection of a record whose lineage has a current version.
pub open spec fn lineage_image(r: ImageRecord) -> Image {
    let vs = r.versions@;
    let c = current_index(vs);
    Image {
        id: r.id,
        name: r.name,
        content_type: r.content_type,
        extension: r.extension,
        created_at: r.created_at,
        last_modified: vs[c].ts,
        version: vs[c].version,
        width: vs[c].width,
        height: vs[c].height,
        size: vs[c].size,
        version_index: (c + 1) as u64,
        version_count: vs.len() as u64,
        latest_version: c + 1 == vs.len(),
        initial_version: c == 0,
    }
}

/// The lineage projections of `user`'s images that have a current version,
/// in table order.
pub open spec fn listed_images(rs: Seq<ImageRecord>, user: Seq<char>) -> Seq<Image>
    decreases rs.len(),
{
    if rs.len() == 0 {
        seq![]
    } else {
        let prev = listed_images(rs.drop_last(), user);
        if rs.last().username@ == user && has_current(rs.last().versions@) {
            prev.push(lineage_image(rs.last()))
        } else {
            prev
        }
    }
}

pub open spec fn has_id(rs: Seq<ImageRecord>, id: u128) -> bool {
    exists|i: int| 0 <= i < rs.len() && rs[i].id == id
}

/// Position of the row with the given id.
pub open spec fn index_of_id(rs: Seq<ImageRecord>, id: u128) -> int {
    choose|i: int| 0 <= i < rs.len() && rs[i].id == id
}

pub open spec fn named(r: ImageRecord, name: Seq<char>, user: Seq<char>) -> bool {
    r.name@ == name && r.username@ == user
}

pub open spec fn has_name(rs: Seq<ImageRecord>, name: Seq<char>, user: Seq<char>) -> bool {
    exists|i: int| 0 <= i < rs.len() && named(rs[i], name, user)
}

/// Position of `user`'s image called `name`.
pub open spec fn name_index(rs: Seq<ImageRecord>, name: Seq<char>, user: Seq<char>) -> int {
    choose|k: int| 0 <= k < rs.len() && named(rs[k], name, user)
}

/// With unique names, the witness is the one.
pub proof fn lemma_name_index(rs: Seq<ImageRecord>, k: int, name: Seq<char>, user: Seq<char>)
    requires
        forall|i: int, j: int|
            0 <= i < j < rs.len() ==> !named(rs[i], rs[j].name@, rs[j].username@),
        0 <= k < rs.len(),
        named(rs[k], name, user),
    ensures
        has_name(rs, name, user),
        name_index(rs, name, user) == k,
{
    let j = name_index(rs, name, user);
    assert(0 <= j < rs.len() && named(rs[j], name, user));
    if j < k {
        assert(!named(rs[j], rs[k].name@, rs[k].username@));
    } else if k < j {
        assert(!named(rs[k], rs[j].name@, rs[j].username@));
    }
}

/// Whether the row with `id` belongs to `user` and has a current version.
pub open spec fn owned_current(rs: Seq<ImageRecord>, id: u128, user: Seq<char>) -> bool {
    has_id(rs, id) && rs[index_of_id(rs, id)].username@ == user && has_current(
        rs[index_of_id(rs, id)].versions@,
    )
}

/// Ids are unique, `(name, username)` pairs are unique, lineages are well formed.
pub open spec fn records_wf(rs: Seq<ImageRecord>, clock: nat) -> bool {
    &&& forall|i: int, j: int| 0 <= i < j < rs.len() ==> rs[i].id != rs[j].id
    &&& forall|i: int, j: int|
        0 <= i < j < rs.len() ==> !named(rs[i], rs[j].name@, rs[j].username@)
    &&& forall|i: int| 0 <= i < rs.len() ==> lineage_wf(#[trigger] rs[i].versions@, clock)
}

/// Two rows agree on everything but their versions.
pub open spec fn same_identity(a: ImageRecord, b: ImageRecord) -> bool {
    &&& a.id == b.id
    &&& a.name == b.name
    &&& a.content_type == b.content_type
    &&& a.created_at == b.created_at
    &&& a.username == b.username
    &&& a.extension == b.extension
}

/// Rows other than `i` are unchanged.
pub open spec fn others_unchanged(a: Seq<ImageRecord>, b: Seq<ImageRecord>, i: int) -> bool {
    a.len() == b.len() && forall|k: int| 0 <= k < a.len() && k != i ==> a[k] == b[k]
}

pub proof fn lemma_index_of_id(rs: Seq<ImageRecord>, i: int)
    requires
        forall|a: int, b: int| 0 <= a < b < rs.len() ==> rs[a].id != rs[b].id,
        0 <= i < rs.len(),
    ensures
        has_id(rs, rs[i].id),
        index_of_id(rs, rs[i].id) == i,
{
    let j = index_of_id(rs, rs[i].id);
    assert(0 <= j < rs.len() && rs[j].id == rs[i].id);
}

/// The metadata store: the image table with its lineages, and the clock that
/// stamps new rows.
pub struct MetadataStore {
    images: Vec<ImageRecord>,
    clock: u64,
}

/// Points the current flag of `vs` at position `p`.
fn point_current_at(vs: &mut Vec<ImageVersion>, p: usize)
    ensures
        final(vs)@ == move_current(old(vs)@, p as int),
{
    let n = vs.len();
    let mut k: usize = 0;
    while k < n
        invariant
            n == vs@.len() == old(vs)@.len(),
            k <= n,
            forall|j: int| 0 <= j < k ==> vs@[j] == move_current(old(vs)@, p as int)[j],
            forall|j: int| k <= j < n ==> vs@[j] == old(vs)@[j],
        decreases n - k,
    {
        vs[k].current = k == p;
        k += 1;
    }
    assert(vs@ =~= move_current(old(vs)@, p as int));
}

/// Position of the current version of `vs`.
fn find_current(vs: &Vec<ImageVersion>) -> (r: Option<usize>)
    requires
        exactly_one_current(vs@),
    ensures
        r matches Some(c) ==> has_current(vs@) && c == current_index(vs@) && c < vs@.len(),
        r is None ==> !has_current(vs@),
{
    let mut k: usize = 0;
    while k < vs.len()
        invariant
            exactly_one_current(vs@),
            k <= vs@.len(),
            forall|j: int| 0 <= j < k ==> !vs@[j].current,
        decreases vs@.len() - k,
    {
        if vs[k].current {
            proof {
                lemma_current_index(vs@, k as int);
            }
            return Some(k);
        }
        k += 1;
    }
    None
}

/// The lineage projection of a row whose current version is at `c`.
fn project(r: &ImageRecord, c: usize) -> (img: Image)
    requires
        exactly_one_current(r.versions@),
        has_current(r.versions@),
        c == current_index(r.versions@),
    ensures
        img == lineage_image(*r),
{
    let v = &r.versions[c];
    let n = r.versions.len();
    Image {
        id: r.id,
        name: r.name.clone(),
        content_type: r.content_type,
        extension: r.extension.clone(),
        created_at: r.created_at,
        last_modified: v.ts,
        version: v.version.clone(),
        width: v.width,
        height: v.height,
        size: v.size,
        version_index: (c + 1) as u64,
        version_count: n as u64,
        latest_version: c + 1 == n,
        initial_version: c == 0,
    }
}

impl MetadataStore {
    pub closed spec fn records(&self) -> Seq<ImageRecord> {
        self.images@
    }

    pub closed spec fn clock(&self) -> nat {
        self.clock as nat
    }

    pub open spec fn wf(&self) -> bool {
        records_wf(self.records(), self.clock())
    }

    /// An empty store.
    pub fn new() -> (s: MetadataStore)
        ensures
            s.wf(),
            s.records().len() == 0,
            s.clock() == 0,
    {
        MetadataStore { images: Vec::new(), clock: 0 }
    }

    fn find_index(&self, id: u128) -> (r: Option<usize>)
        requires
            self.wf(),
        ensures
            r matches Some(i) ==> has_id(self.records(), id) && i == index_of_id(
                self.records(),
                id,
            ) && i < self.records().len(),
            r is None ==> !has_id(self.records(), id),
    {
        let mut i: usize = 0;
        while i < self.images.len()
            invariant
                self.wf(),
                i <= self.images@.len(),
                forall|j: int| 0 <= j < i ==> self.images@[j].id != id,
            decreases self.images@.len() - i,
        {
            if self.images[i].id == id {
                proof {
                    lemma_index_of_id(self.records(), i as int);
                }
                return Some(i);
            }
            i += 1;
        }
        None
    }

    /// Inserts a new image row stamped with the store's clock. Nothing is
    /// inserted, and `false` returned, when `username` already has an image
    /// called `name`, when `id` is taken, or when the clock is exhausted.
    pub fn insert_image(
        &mut self,
        id: u128,
        name: &str,
        content_type: ContentType,
        username: &str,
    ) -> (r: bool)
        requires
            old(self).wf(),
        ensures
            final(self).wf(),
            r == (!has_id(old(self).records(), id) && !has_name(
                old(self).records(),
                name@,
                username@,
            ) && old(self).clock() < u64::MAX),
            r ==> {
                let n = old(self).records().len();
                let last = final(self).records()[n as int];
                &&& final(self).records().len() == n + 1
                &&& final(self).records().take(n as int) == old(self).records()
                &&& last.id == id && last.name@ == name@ && last.username@ == username@
                &&& last.content_type == content_type && last.created_at == old(self).clock()
                &&& last.extension@ == key_extension(name@)
                &&& last.versions@.len() == 0
                &&& final(self).clock() == old(self).clock() + 1
            },
            !r ==> final(self).records() == old(self).records() && final(self).clock()
                == old(self).clock(),
    {
        if self.find_index(id).is_some() || self.find_image_id_by_name(name, username).is_some()
            || self.clock == u64::MAX {
            return false;
        }
        let rec = ImageRecord {
            id,
            name: String::from_str(name),
            content_type,
            created_at: self.clock,
            username: String::from_str(username),
            extension: key_extension_text(name),
            versions: Vec::new(),
        };
        let ghost old_rs = self.images@;
        self.images.push(rec);
        self.clock = self.clock + 1;
        assert(self.images@.take(old_rs.len() as int) =~= old_rs);
        assert forall|i: int| 0 <= i < self.images@.len() implies lineage_wf(
            #[trigger] self.images@[i].versions@,
            self.clock as nat,
        ) by {
            if i < old_rs.len() {
                assert(lineage_wf(old_rs[i].versions@, (self.clock - 1) as nat));
            } else {
                assert(self.images@[i].versions@ =~= Seq::<ImageVersion>::empty());
            }
        }
        assert forall|i: int, j: int| 0 <= i < j < self.images@.len() implies !named(
            self.images@[i],
            self.images@[j].name@,
            self.images@[j].username@,
        ) by {
            if j == old_rs.len() {
                assert(!named(old_rs[i], name@, username@));
            }
        }
        true
    }

    /// Appends a current version to the lineage of image `image_id` and
    /// demotes every other version. Returns the token, or `None` without any
    /// change when there is no such image, the image already has a version
    /// with this token, or the clock is exhausted.
    pub fn insert_image_version(
        &mut self,
        image_id: u128,
        version: &str,
        width: u32,
        height: u32,
        size: u64,
    ) -> (r: Option<String>)
        requires
            old(self).wf(),
        ensures
            final(self).wf(),
            ({
                let rs = old(self).records();
                let i = index_of_id(rs, image_id);
                let vs = rs[i].versions@;
                let ok = has_id(rs, image_id) && old(self).clock() < u64::MAX && forall|k: int|
                    0 <= k < vs.len() ==> vs[k].version@ != version@;
                &&& r is Some == ok
                &&& r matches Some(v) ==> v@ == version@
                &&& ok ==> {
                    let fs = final(self).records();
                    let nv = fs[i].versions@;
                    &&& others_unchanged(fs, rs, i)
                    &&& same_identity(fs[i], rs[i])
                    &&& nv.len() == vs.len() + 1
                    &&& nv.take(vs.len() as int) == move_current(vs, -1)
                    &&& nv.last().version@ == version@ && nv.last().ts == old(self).clock()
                    &&& nv.last().current
                    &&& nv.last().width == width && nv.last().height == height
                    &&& nv.last().size == size
                    &&& nv == move_current(nv, vs.len() as int)
                    &&& final(self).clock() == old(self).clock() + 1
                }
                &&& !ok ==> final(self).records() == rs && final(self).clock() == old(self).clock()
            }),
    {
        let i = match self.find_index(image_id) {
            Some(i) => i,
            None => return None,
        };
        if self.clock == u64::MAX {
            return None;
        }
        let n = self.images[i].versions.len();
        let mut k: usize = 0;
        while k < n
            invariant
                self.wf(),
                self.images@ == old(self).records(),
                i == index_of_id(old(self).records(), image_id),
                i < self.images@.len(),
                n == self.images@[i as int].versions@.len(),
                k <= n,
                forall|j: int|
                    0 <= j < k ==> self.images@[i as int].versions@[j].version@ != version@,
            decreases n - k,
        {
            if str_eq(self.images[i].versions[k].version.as_str(), version) {
                assert(self.images@[i as int].versions@[k as int].version@ == version@);
                return None;
            }
            k += 1;
        }
        let ghost old_rs = self.images@;
        let ghost vs = old_rs[i as int].versions@;
        let ts = self.clock;
        let row = ImageVersion {
            version: String::from_str(version),
            ts,
            current: true,
            width,
            height,
            size,
        };
        self.images[i].versions.push(row);
        point_current_at(&mut self.images[i].versions, n);
        self.clock = self.clock + 1;
        let ghost nv = self.images@[i as int].versions@;
        proof {
            lemma_move_current(vs.push(row), n as int);
            assert(nv.take(n as int) =~= move_current(vs, -1));
            assert(nv == move_current(nv, n as int)) by {
                assert(move_current(nv, n as int) =~= nv);
            }
            assert forall|a: int| 0 <= a < self.images@.len() implies lineage_wf(
                #[trigger] self.images@[a].versions@,
                self.clock as nat,
            ) by {
                assert(lineage_wf(old_rs[a].versions@, ts as nat));
                if a == i {
                    assert forall|x: int, y: int| 0 <= x < y < nv.len() implies nv[x].ts
                        < nv[y].ts by {
                        if y == n {
                            assert(vs[x].ts < ts);
                        }
                    }
                    assert forall|x: int, y: int| 0 <= x < y < nv.len() implies nv[x].version@
                        != nv[y].version@ by {
                        if y == n {
                            assert(vs[x].version@ != version@);
                        }
                    }
                }
            }
            assert forall|a: int, b: int| 0 <= a < b < self.images@.len() implies !named(
                self.images@[a],
                self.images@[b].name@,
                self.images@[b].username@,
            ) by {
                assert(!named(old_rs[a], old_rs[b].name@, old_rs[b].username@));
            }
        }
        Some(String::from_str(version))
    }

    /// The addressing facts of image `id` of `username`, with its current
    /// version; `None` if there is no such image or it has no current version.
    pub fn find_image(&self, id: u128, username: &str) -> (r: Option<ImageInfo>)
        requires
            self.wf(),
        ensures
            r is Some == owned_current(self.records(), id, username@),
            r matches Some(info) ==> {
                let rec = self.records()[index_of_id(self.records(), id)];
                let vs = rec.versions@;
                &&& info.id == id && info.name == rec.name && info.username == rec.username
                &&& info.content_type == rec.content_type
                &&& info.extension == rec.extension
                &&& info.version == vs[current_index(vs)].version
            },
    {
        let i = match self.find_index(id) {
            Some(i) => i,
            None => return None,
        };
        let rec = &self.images[i];
        if !str_eq(rec.username.as_str(), username) {
            return None;
        }
        assert(lineage_wf(self.images@[i as int].versions@, self.clock as nat));
        match find_current(&rec.versions) {
            Some(c) => Some(
                ImageInfo {
                    id,
                    name: rec.name.clone(),
                    username: rec.username.clone(),
                    content_type: rec.content_type,
                    extension: rec.extension.clone(),
                    version: rec.versions[c].version.clone(),
                },
            ),
            None => None,
        }
    }

    /// Image `id` of `username` with its current version and lineage position;
    /// `None` if there is no such image or it has no current version.
    pub fn find_image_with_lineage(&self, id: u128, username: &str) -> (r: Option<Image>)
        requires
            self.wf(),
        ensures
            r is Some == owned_current(self.records(), id, username@),
            r matches Some(img) ==> img == lineage_image(
                self.records()[index_of_id(self.records(), id)],
            ),
    {
        let i = match self.find_index(id) {
            Some(i) => i,
            None => return None,
        };
        let rec = &self.images[i];
        if !str_eq(rec.username.as_str(), username) {
            return None;
        }
        assert(lineage_wf(self.images@[i as int].versions@, self.clock as nat));
        match find_current(&rec.versions) {
            Some(c) => Some(project(rec, c)),
            None => None,
        }
    }

    /// Every image of `username` that has a current version, in table order,
    /// each with its own lineage position.
    pub fn find_all_images(&self, username: &str) -> (r: Vec<Image>)
        requires
            self.wf(),
        ensures
            r@ == listed_images(self.records(), username@),
    {
        let mut out: Vec<Image> = Vec::new();
        let mut i: usize = 0;
        while i < self.images.len()
            invariant
                self.wf(),
                i <= self.images@.len(),
                out@ == listed_images(self.images@.take(i as int), username@),
            decreases self.images@.len() - i,
        {
            let rec = &self.images[i];
            assert(self.images@.take(i + 1).drop_last() =~= self.images@.take(i as int));
            assert(self.images@.take(i + 1).last() == *rec);
            assert(lineage_wf(self.images@[i as int].versions@, self.clock as nat));
            if str_eq(rec.username.as_str(), username) {
                match find_current(&rec.versions) {
                    Some(c) => out.push(project(rec, c)),
                    None => {},
                }
            }
            i += 1;
        }
        assert(self.images@.take(i as int) =~= self.images@);
        out
    }

    /// Deletes image `id` together with its whole lineage.
    pub fn delete_image(&mut self, id: u128)
        requires
            old(self).wf(),
        ensures
            final(self).wf(),
            final(self).clock() == old(self).clock(),
            has_id(old(self).records(), id) ==> final(self).records() == old(self).records().remove(
                index_of_id(old(self).records(), id),
            ),
            !has_id(old(self).records(), id) ==> final(self).records() == old(self).records(),
    {
        match self.find_index(id) {
            Some(i) => {
                let ghost old_rs = self.images@;
                let _ = self.images.remove(i);
                assert forall|a: int, b: int| 0 <= a < b < self.images@.len() implies !named(
                    self.images@[a],
                    self.images@[b].name@,
                    self.images@[b].username@,
                ) by {
                    let a0 = if a < i { a } else { a + 1 };
                    let b0 = if b < i { b } else { b + 1 };
                    assert(!named(old_rs[a0], old_rs[b0].name@, old_rs[b0].username@));
                }
                assert forall|a: int, b: int| 0 <= a < b < self.images@.len() implies
                    self.images@[a].id != self.images@[b].id by {
                    let a0 = if a < i { a } else { a + 1 };
                    let b0 = if b < i { b } else { b + 1 };
                    assert(old_rs[a0].id != old_rs[b0].id);
                }
                assert forall|a: int| 0 <= a < self.images@.len() implies lineage_wf(
                    #[trigger] self.images@[a].versions@,
                    self.clock as nat,
                ) by {
                    let a0 = if a < i { a } else { a + 1 };
                    assert(lineage_wf(old_rs[a0].versions@, self.clock as nat));
                }
            },
            None => {},
        }
    }

    /// Moves the current pointer of image `id` to position `p`.
    fn move_pointer(&mut self, i: usize, p: usize)
        requires
            old(self).wf(),
            i < old(self).records().len(),
            p < old(self).records()[i as int].versions@.len(),
        ensures
            final(self).wf(),
            final(self).clock() == old(self).clock(),
            others_unchanged(final(self).records(), old(self).records(), i as int),
            same_identity(final(self).records()[i as int], old(self).records()[i as int]),
            final(self).records()[i as int].versions@ == move_current(
                old(self).records()[i as int].versions@,
                p as int,
            ),
    {
        let ghost old_rs = self.images@;
        point_current_at(&mut self.images[i].versions, p);
        proof {
            assert forall|a: int| 0 <= a < self.images@.len() implies lineage_wf(
                #[trigger] self.images@[a].versions@,
                self.clock as nat,
            ) by {
                assert(lineage_wf(old_rs[a].versions@, self.clock as nat));
                if a == i {
                    lemma_move_current(old_rs[a].versions@, p as int);
                }
            }
            assert forall|a: int, b: int| 0 <= a < b < self.images@.len() implies !named(
                self.images@[a],
                self.images@[b].name@,
                self.images@[b].username@,
            ) by {
                assert(!named(old_rs[a], old_rs[b].name@, old_rs[b].username@));
            }
        }
    }

    /// Makes the version immediately preceding the current one current, and
    /// returns its token; `None`, without change, if there is no such image,
    /// no current version, or the current version is the initial one.
    pub fn revert_image_version(&mut self, id: u128) -> (r: Option<String>)
        requires
            old(self).wf(),
        ensures
            final(self).wf(),
            final(self).clock() == old(self).clock(),
            ({
                let rs = old(self).records();
                let i = index_of_id(rs, id);
                let vs = rs[i].versions@;
                &&& r is Some == (has_id(rs, id) && revert_target(vs) is Some)
                &&& r matches Some(v) ==> {
                    let p = revert_target(vs)->Some_0;
                    &&& v == vs[p].version
                    &&& others_unchanged(final(self).records(), rs, i)
                    &&& same_identity(final(self).records()[i], rs[i])
                    &&& final(self).records()[i].versions@ == move_current(vs, p)
                }
                &&& r is None ==> final(self).records() == rs
            }),
    {
        let i = match self.find_index(id) {
            Some(i) => i,
            None => return None,
        };
        assert(lineage_wf(self.images@[i as int].versions@, self.clock as nat));
        let c = match find_current(&self.images[i].versions) {
            Some(c) => c,
            None => return None,
        };
        if c == 0 {
            return None;
        }
        let v = self.images[i].versions[c - 1].version.clone();
        self.move_pointer(i, c - 1);
        Some(v)
    }

    /// Makes the version immediately following the current one current, and
    /// returns its token; `None`, without change, if there is no such image,
    /// no current version, or the current version is the latest one.
    pub fn restore_image_version(&mut self, id: u128) -> (r: Option<String>)
        requires
            old(self).wf(),
        ensures
            final(self).wf(),
            final(self).clock() == old(self).clock(),
            ({
                let rs = old(self).records();
                let i = index_of_id(rs, id);
                let vs = rs[i].versions@;
                &&& r is Some == (has_id(rs, id) && restore_target(vs) is Some)
                &&& r matches Some(v) ==> {
                    let p = restore_target(vs)->Some_0;
                    &&& v == vs[p].version
                    &&& others_unchanged(final(self).records(), rs, i)
                    &&& same_identity(final(self).records()[i], rs[i])
                    &&& final(self).records()[i].versions@ == move_current(vs, p)
                }
                &&& r is None ==> final(self).records() == rs
            }),
    {
        let i = match self.find_index(id) {
            Some(i) => i,
            None => return None,
        };
        assert(lineage_wf(self.images@[i as int].versions@, self.clock as nat));
        let c = match find_current(&self.images[i].versions) {
            Some(c) => c,
            None => return None,
        };
        let n = self.images[i].versions.len();
        assert(c < n);
        if c + 1 >= n {
            return None;
        }
        let v = self.images[i].versions[c + 1].version.clone();
        self.move_pointer(i, c + 1);
        Some(v)
    }

    /// Renames image `id` and returns the new name; `None`, without change, if
    /// there is no such image or its owner has another image of that name.
    pub fn rename_image(&mut self, id: u128, new_name: &str) -> (r: Option<String>)
        requires
            old(self).wf(),
        ensures
            final(self).wf(),
            final(self).clock() == old(self).clock(),
            ({
                let rs = old(self).records();
                let i = index_of_id(rs, id);
                let ok = has_id(rs, id) && !(exists|k: int|
                    0 <= k < rs.len() && k != i && named(rs[k], new_name@, rs[i].username@));
                let fs = final(self).records();
                &&& r is Some == ok
                &&& r matches Some(n) ==> n@ == new_name@
                &&& ok ==> {
                    &&& others_unchanged(fs, rs, i)
                    &&& fs[i].id == rs[i].id && fs[i].name@ == new_name@
                    &&& fs[i].content_type == rs[i].content_type
                    &&& fs[i].created_at == rs[i].created_at
                    &&& fs[i].username == rs[i].username
                    &&& fs[i].extension == rs[i].extension
                    &&& fs[i].versions == rs[i].versions
                }
                &&& !ok ==> fs == rs
            }),
    {
        let i = match self.find_index(id) {
            Some(i) => i,
            None => return None,
        };
        let mut k: usize = 0;
        while k < self.images.len()
            invariant
                self.wf(),
                self.images@ == old(self).records(),
                i == index_of_id(old(self).records(), id),
                i < self.images@.len(),
                k <= self.images@.len(),
                forall|j: int|
                    0 <= j < k && j != i ==> !named(
                        self.images@[j],
                        new_name@,
                        self.images@[i as int].username@,
                    ),
            decreases self.images@.len() - k,
        {
            if k != i && str_eq(self.images[k].name.as_str(), new_name) && str_eq(
                self.images[k].username.as_str(),
                self.images[i].username.as_str(),
            ) {
                assert(named(self.images@[k as int], new_name@, self.images@[i as int].username@));
                return None;
            }
            k += 1;
        }
        let ghost old_rs = self.images@;
        self.images[i].name = String::from_str(new_name);
        proof {
            assert forall|a: int, b: int| 0 <= a < b < self.images@.len() implies !named(
                self.images@[a],
                self.images@[b].name@,
                self.images@[b].username@,
            ) by {
                if a != i && b != i {
                    assert(!named(old_rs[a], old_rs[b].name@, old_rs[b].username@));
                }
            }
            assert forall|a: int, b: int| 0 <= a < b < self.images@.len() implies
                self.images@[a].id != self.images@[b].id by {
                assert(old_rs[a].id != old_rs[b].id);
            }
            assert forall|a: int| 0 <= a < self.images@.len() implies lineage_wf(
                #[trigger] self.images@[a].versions@,
                self.clock as nat,
            ) by {
                assert(lineage_wf(old_rs[a].versions@, self.clock as nat));
            }
        }
        Some(String::from_str(new_name))
    }

    /// The key extension of image `id`.
    pub fn find_key_extension(&self, id: u128) -> (r: Option<String>)
        requires
            self.wf(),
        ensures
            r is Some == has_id(self.records(), id),
            r matches Some(e) ==> e == self.records()[index_of_id(self.records(), id)].extension,
    {
        match self.find_index(id) {
            Some(i) => Some(self.images[i].extension.clone()),
            None => None,
        }
    }

    /// The id of `username`'s image called `name`.
    pub fn find_image_id_by_name(&self, name: &str, username: &str) -> (r: Option<u128>)
        requires
            self.wf(),
        ensures
            r is Some == has_name(self.records(), name@, username@),
            r matches Some(id) ==> id == self.records()[name_index(
                self.records(),
                name@,
                username@,
            )].id,
    {
        let mut i: usize = 0;
        while i < self.images.len()
            invariant
                self.wf(),
                i <= self.images@.len(),
                forall|j: int| 0 <= j < i ==> !named(self.images@[j], name@, username@),
            decreases self.images@.len() - i,
        {
            let r = &self.images[i];
            if str_eq(r.name.as_str(), name) && str_eq(r.username.as_str(), username) {
                assert(named(self.records()[i as int], name@, username@));
                proof {
                    lemma_name_index(self.records(), i as int, name@, username@);
                }
                return Some(r.id);
            }
            i += 1;
        }
        None
    }
}

/// In a well-formed store, every image that has at least one version has
/// exactly one current version; every operation of the store keeps it
/// well formed.
pub proof fn lemma_single_current(s: &MetadataStore, i: int)
    requires
        s.wf(),
        0 <= i < s.records().len(),
    ensures
        exactly_one_current(s.records()[i].versions@),
        s.records()[i].versions@.len() > 0 ==> has_current(s.records()[i].versions@),
{
    assert(lineage_wf(s.records()[i].versions@, s.clock()));
}

} // verus!
