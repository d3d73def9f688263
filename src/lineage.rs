//! The version lineage of one image: a timestamp-ordered chain of versions
//! with a single movable "current" pointer.
use vstd::prelude::*;

verus! {

/// One version of an image, as the metadata store records it.
pub struct ImageVersion {
    /// Token issued by the object store for this revision.
    pub version: String,
    /// Creation timestamp, assigned by the metadata store.
    pub ts: u64,
    pub current: bool,
    pub width: u32,
    pub height: u32,
    /// Payload size in bytes.
    pub size: u64,
}

/// Whether `vs[c]` is flagged current.
pub open spec fn is_current_at(vs: Seq<ImageVersion>, c: int) -> bool {
    0 <= c < vs.len() && vs[c].current
}

/// At most one version is current.
pub open spec fn at_most_one_current(vs: Seq<ImageVersion>) -> bool {
    forall|i: int, j: int| is_current_at(vs, i) && is_current_at(vs, j) ==> i == j
}

/// Some version is current.
pub open spec fn has_current(vs: Seq<ImageVersion>) -> bool {
    exists|c: int| is_current_at(vs, c)
}

/// A non-empty lineage has exactly one current version.
pub open spec fn exactly_one_current(vs: Seq<ImageVersion>) -> bool {
    &&& at_most_one_current(vs)
    &&& vs.len() > 0 ==> has_current(vs)
}

/// The position of the current version.
pub open spec fn current_index(vs: Seq<ImageVersion>) -> int {
    choose|c: int| is_current_at(vs, c)
}

/// A well-formed lineage: strictly increasing timestamps below `clock`,
/// distinct version tokens, and exactly one current version if non-empty.
pub open spec fn lineage_wf(vs: Seq<ImageVersion>, clock: nat) -> bool {
    &&& forall|i: int, j: int| 0 <= i < j < vs.len() ==> vs[i].ts < vs[j].ts
    &&& forall|i: int| 0 <= i < vs.len() ==> vs[i].ts < clock
    &&& forall|i: int, j: int| 0 <= i < j < vs.len() ==> vs[i].version@ != vs[j].version@
    &&& exactly_one_current(vs)
}

/// The lineage with the current pointer moved to position `p` (no version is
/// current if `p` is out of range).
pub open spec fn move_current(vs: Seq<ImageVersion>, p: int) -> Seq<ImageVersion> {
    Seq::new(vs.len(), |k: int| ImageVersion { current: k == p, ..vs[k] })
}

/// Position that a revert moves the pointer to: the version immediately
/// preceding the current one in timestamp order.
pub open spec fn revert_target(vs: Seq<ImageVersion>) -> Option<int> {
    if has_current(vs) && current_index(vs) > 0 {
        Some(current_index(vs) - 1)
    } else {
        None
    }
}

/// Position that a restore moves the pointer to: the version immediately
/// following the current one in timestamp order.
pub open spec fn restore_target(vs: Seq<ImageVersion>) -> Option<int> {
    if has_current(vs) && current_index(vs) + 1 < vs.len() {
        Some(current_index(vs) + 1)
    } else {
        None
    }
}

/// In a lineage with at most one current version, the witness is the one.
pub proof fn lemma_current_index(vs: Seq<ImageVersion>, c: int)
    requires
        at_most_one_current(vs),
        is_current_at(vs, c),
    ensures
        has_current(vs),
        current_index(vs) == c,
{
}

/// Moving the pointer to a valid position leaves exactly that version current.
pub proof fn lemma_move_current(vs: Seq<ImageVersion>, p: int)
    requires
        0 <= p < vs.len(),
    ensures
        exactly_one_current(move_current(vs, p)),
        has_current(move_current(vs, p)),
        current_index(move_current(vs, p)) == p,
        move_current(vs, p).len() == vs.len(),
{
    let m = move_current(vs, p);
    assert(is_current_at(m, p));
    lemma_current_index(m, p);
}

/// Navigation is reversible: after a revert, a restore brings the pointer
/// back to where it was, and the other way round; at the initial (resp.
/// latest) version a revert (resp. restore) has nowhere to go.
pub proof fn lemma_navigation_reversible(vs: Seq<ImageVersion>, clock: nat)
    requires
        lineage_wf(vs, clock),
        vs.len() > 0,
    ensures
        revert_target(vs) matches Some(p) ==> restore_target(move_current(vs, p)) == Some(
            current_index(vs),
        ) && move_current(move_current(vs, p), current_index(vs)) == vs,
        restore_target(vs) matches Some(p) ==> revert_target(move_current(vs, p)) == Some(
            current_index(vs),
        ) && move_current(move_current(vs, p), current_index(vs)) == vs,
        current_index(vs) == 0 ==> revert_target(vs) is None,
        current_index(vs) == vs.len() - 1 ==> restore_target(vs) is None,
{
    let c = current_index(vs);
    assert(is_current_at(vs, c));
    assert forall|k: int| 0 <= k < vs.len() implies move_current(vs, c)[k] == vs[k] by {
        assert(vs[k].current ==> is_current_at(vs, k));
    }
    assert(move_current(vs, c) =~= vs);
    if let Some(p) = revert_target(vs) {
        lemma_move_current(vs, p);
        lemma_move_current(move_current(vs, p), c);
        assert(move_current(move_current(vs, p), c) =~= move_current(vs, c));
    }
    if let Some(p) = restore_target(vs) {
        lemma_move_current(vs, p);
        lemma_move_current(move_current(vs, p), c);
        assert(move_current(move_current(vs, p), c) =~= move_current(vs, c));
    }
}

} // verus!
