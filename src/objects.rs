//! The object store: a bucket of revisions addressed by object key and
//! version token.
use vstd::prelude::*;
use vstd::string::*;

use crate::listing::ObjectSummary;
use crate::text::{decimal, decimal_text, has_prefix, starts_with, str_eq};

verus! {

/// One stored revision of an object.
pub struct StoredObject {
    pub key: String,
    /// Revision token; empty in a bucket without versioning.
    pub version: String,
    pub data: Vec<u8>,
    pub modified: u64,
    /// Whether this revision is the object's live one.
    pub live: bool,
}

/// Failure of an object-store operation.
#[derive(Clone, Copy, Debug, PartialEq, Eq, Structural)]
pub enum StoreError {
    /// The bucket's revision clock is exhausted.
    Exhausted,
    /// No revision with this key and token.
    NoSuchVersion,
}

/// The data of the last revision of `key` with token `version`; in a bucket
/// without versioning only a live revision can be fetched.
pub open spec fn revision_data(
    es: Seq<StoredObject>,
    versioned: bool,
    key: Seq<char>,
    version: Seq<char>,
) -> Option<Seq<u8>>
    decreases es.len(),
{
    if es.len() == 0 {
        None
    } else if es.last().key@ == key && es.last().version@ == version && (versioned
        || es.last().live) {
        Some(es.last().data@)
    } else {
        revision_data(es.drop_last(), versioned, key, version)
    }
}

/// The listing entry of a revision.
pub open spec fn summary(e: StoredObject) -> ObjectSummary {
    ObjectSummary {
        key: Some(e.key),
        size: e.data@.len() as u64,
        last_modified: Some(e.modified),
    }
}

/// The live revisions whose key starts with `prefix`, in store order.
pub open spec fn listing(es: Seq<StoredObject>, prefix: Seq<char>) -> Seq<ObjectSummary>
    decreases es.len(),
{
    if es.len() == 0 {
        seq![]
    } else if es.last().live && has_prefix(es.last().key@, prefix) {
        listing(es.drop_last(), prefix).push(summary(es.last()))
    } else {
        listing(es.drop_last(), prefix)
    }
}

/// `a` is `b` with the revisions of `key` no longer live.
pub open spec fn retired(a: Seq<StoredObject>, b: Seq<StoredObject>, key: Seq<char>) -> bool {
    &&& a.len() == b.len()
    &&& forall|i: int|
        0 <= i < a.len() ==> {
            &&& a[i].key == b[i].key
            &&& a[i].version == b[i].version
            &&& a[i].data == b[i].data
            &&& a[i].modified == b[i].modified
            &&& a[i].live == (b[i].live && b[i].key@ != key)
        }
}

/// An in-memory bucket, with or without versioning.
pub struct ObjectStore {
    entries: Vec<StoredObject>,
    clock: u64,
    versioned: bool,
}

fn copy_bytes(v: &Vec<u8>) -> (r: Vec<u8>)
    ensures
        r@ == v@,
{
    let mut out: Vec<u8> = Vec::new();
    let mut i: usize = 0;
    while i < v.len()
        invariant
            i <= v@.len(),
            out@ == v@.take(i as int),
        decreases v@.len() - i,
    {
        out.push(v[i]);
        assert(v@.take(i + 1) =~= v@.take(i as int).push(v@[i as int]));
        i += 1;
    }
    assert(v@.take(i as int) =~= v@);
    out
}

impl ObjectStore {
    pub closed spec fn entries(&self) -> Seq<StoredObject> {
        self.entries@
    }

    pub closed spec fn clock(&self) -> nat {
        self.clock as nat
    }

    pub closed spec fn versioned(&self) -> bool {
        self.versioned
    }

    /// Revisions are stamped in increasing order below the clock, and in a
    /// versioned bucket each token is the decimal text of the stamp.
    pub open spec fn wf(&self) -> bool {
        let es = self.entries();
        &&& self.clock() <= u64::MAX
        &&& forall|i: int, j: int| 0 <= i < j < es.len() ==> es[i].modified < es[j].modified
        &&& forall|i: int| 0 <= i < es.len() ==> es[i].modified < self.clock()
        &&& self.versioned() ==> forall|i: int|
            0 <= i < es.len() ==> #[trigger] es[i].version@ == decimal(es[i].modified as nat)
    }

    /// An empty bucket.
    pub fn new(versioned: bool) -> (s: ObjectStore)
        ensures
            s.wf(),
            s.entries().len() == 0,
            s.clock() == 0,
            s.versioned() == versioned,
    {
        ObjectStore { entries: Vec::new(), clock: 0, versioned }
    }

    fn retire(&mut self, key: &str)
        requires
            old(self).wf(),
        ensures
            final(self).wf(),
            retired(final(self).entries(), old(self).entries(), key@),
            final(self).clock() == old(self).clock(),
            final(self).versioned() == old(self).versioned(),
    {
        let n = self.entries.len();
        let mut i: usize = 0;
        while i < n
            invariant
                n == self.entries@.len() == old(self).entries@.len(),
                i <= n,
                self.clock == old(self).clock,
                self.versioned == old(self).versioned,
                forall|k: int|
                    0 <= k < n ==> {
                        &&& self.entries@[k].key == old(self).entries@[k].key
                        &&& self.entries@[k].version == old(self).entries@[k].version
                        &&& self.entries@[k].data == old(self).entries@[k].data
                        &&& self.entries@[k].modified == old(self).entries@[k].modified
                    },
                forall|k: int|
                    0 <= k < i ==> self.entries@[k].live == (old(self).entries@[k].live
                        && old(self).entries@[k].key@ != key@),
                forall|k: int| i <= k < n ==> self.entries@[k].live == old(self).entries@[k].live,
            decreases n - i,
        {
            if str_eq(self.entries[i].key.as_str(), key) {
                self.entries[i].live = false;
            }
            i += 1;
        }
        proof {
            let es = self.entries();
            let os = old(self).entries();
            assert forall|a: int| 0 <= a < es.len() && self.versioned() implies #[trigger]
                es[a].version@ == decimal(es[a].modified as nat) by {
                assert(os[a].version@ == decimal(os[a].modified as nat));
            }
            assert forall|a: int| 0 <= a < es.len() implies es[a].modified < self.clock() by {
                assert(os[a].modified < old(self).clock());
            }
            assert forall|a: int, b: int| 0 <= a < b < es.len() implies es[a].modified < es[b].modified by {
                assert(os[a].modified < os[b].modified);
            }
        }
    }

    /// Stores `data` as the new live revision of `key`. Returns the new
    /// revision's token in a versioned bucket, `None` in one without
    /// versioning; fails, without change, when the clock is exhausted.
    pub fn put(&mut self, data: Vec<u8>, key: &str) -> (r: Result<Option<String>, StoreError>)
        requires
            old(self).wf(),
        ensures
            final(self).wf(),
            final(self).versioned() == old(self).versioned(),
            r is Err == (old(self).clock() == u64::MAX),
            r is Err ==> *final(self) == *old(self),
            r matches Ok(t) ==> {
                let n = old(self).entries().len();
                let es = final(self).entries();
                &&& es.len() == n + 1
                &&& retired(es.take(n as int), old(self).entries(), key@)
                &&& es[n as int].key@ == key@ && es[n as int].data@ == data@
                &&& es[n as int].modified == old(self).clock() && es[n as int].live
                &&& final(self).clock() == old(self).clock() + 1
                &&& old(self).versioned() ==> t is Some && t->Some_0@ == decimal(
                    old(self).clock() as nat,
                ) && es[n as int].version@ == t->Some_0@
                &&& !old(self).versioned() ==> t is None && es[n as int].version@.len() == 0
            },
    {
        if self.clock == u64::MAX {
            return Err(StoreError::Exhausted);
        }
        self.retire(key);
        let stamp = self.clock;
        let token = if self.versioned {
            decimal_text(stamp)
        } else {
            String::new()
        };
        let ghost before = self.entries@;
        let entry = StoredObject {
            key: String::from_str(key),
            version: token.clone(),
            data,
            modified: stamp,
            live: true,
        };
        self.entries.push(entry);
        self.clock = stamp + 1;
        assert(self.entries@.take(before.len() as int) =~= before);
        proof {
            let es = self.entries@;
            assert forall|a: int| 0 <= a < es.len() && self.versioned implies #[trigger]
                es[a].version@ == decimal(es[a].modified as nat) by {
                if a < before.len() {
                    assert(before[a].version@ == decimal(before[a].modified as nat));
                }
            }
        }
        if self.versioned {
            Ok(Some(token))
        } else {
            Ok(None)
        }
    }

    /// The data of revision `version` of `key`.
    pub fn get(&self, key: &str, version: &str) -> (r: Result<Vec<u8>, StoreError>)
        ensures
            r is Ok == revision_data(self.entries(), self.versioned(), key@, version@) is Some,
            r matches Ok(d) ==> Some(d@) == revision_data(
                self.entries(),
                self.versioned(),
                key@,
                version@,
            ),
            r matches Err(e) ==> e == StoreError::NoSuchVersion,
    {
        let ghost es = self.entries@;
        let mut i = self.entries.len();
        assert(es.take(i as int) =~= es);
        while i > 0
            invariant
                i <= es.len(),
                es == self.entries@,
                revision_data(es, self.versioned, key@, version@) == revision_data(
                    es.take(i as int),
                    self.versioned,
                    key@,
                    version@,
                ),
            decreases i,
        {
            let e = &self.entries[i - 1];
            assert(es.take(i as int).last() == *e);
            if str_eq(e.key.as_str(), key) && str_eq(e.version.as_str(), version) && (
            self.versioned || e.live) {
                return Ok(copy_bytes(&e.data));
            }
            assert(es.take(i as int).drop_last() =~= es.take(i - 1));
            i -= 1;
        }
        Err(StoreError::NoSuchVersion)
    }

    /// The live objects whose key starts with `prefix`.
    pub fn list(&self, prefix: &str) -> (r: Vec<ObjectSummary>)
        ensures
            r@ == listing(self.entries(), prefix@),
    {
        let mut out: Vec<ObjectSummary> = Vec::new();
        let mut i: usize = 0;
        while i < self.entries.len()
            invariant
                i <= self.entries@.len(),
                out@ == listing(self.entries@.take(i as int), prefix@),
            decreases self.entries@.len() - i,
        {
            let e = &self.entries[i];
            assert(self.entries@.take(i + 1).drop_last() =~= self.entries@.take(i as int));
            assert(self.entries@.take(i + 1).last() == *e);
            if e.live && starts_with(e.key.as_str(), prefix) {
                out.push(
                    ObjectSummary {
                        key: Some(e.key.clone()),
                        size: e.data.len() as u64,
                        last_modified: Some(e.modified),
                    },
                );
            }
            i += 1;
        }
        assert(self.entries@.take(i as int) =~= self.entries@);
        out
    }

    /// Deletes the live object `key`; its revisions stay fetchable in a
    /// versioned bucket.
    pub fn delete(&mut self, key: &str)
        requires
            old(self).wf(),
        ensures
            final(self).wf(),
            retired(final(self).entries(), old(self).entries(), key@),
            final(self).clock() == old(self).clock(),
            final(self).versioned() == old(self).versioned(),
    {
        self.retire(key);
    }
}

} // verus!
