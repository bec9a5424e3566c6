use vstd::prelude::*;

use crate::record::UserRecord;

verus! {

/// A record identifier: an unsigned index into the store's slots, unique
/// among currently live records and eligible for reuse after a delete.
pub type UserId = usize;

/// The in-memory collection of user records.
///
/// Records live in `slots`, keyed by their index; `free` holds the indices of
/// vacated slots, most recently freed last. Allocation pops the free list and
/// only appends a new slot when no freed one is available, so identifiers
/// vacated by a delete are reused.
pub struct UserStore {
    pub slots: Vec<Option<UserRecord>>,
    pub free: Vec<UserId>,
}

/// Number of occupied slots in a slot sequence.
pub open spec fn count_live(s: Seq<Option<UserRecord>>) -> nat
    decreases s.len(),
{
    if s.len() == 0 {
        0
    } else {
        count_live(s.drop_last()) + if s.last() is Some {
            1nat
        } else {
            0nat
        }
    }
}

/// The occupied indices of a slot sequence, in increasing order.
pub open spec fn live_ids_of(s: Seq<Option<UserRecord>>) -> Seq<UserId>
    decreases s.len(),
{
    if s.len() == 0 {
        Seq::empty()
    } else {
        live_ids_of(s.drop_last()) + if s.last() is Some {
            seq![(s.len() - 1) as UserId]
        } else {
            Seq::empty()
        }
    }
}

impl UserStore {
    /// Internal consistency: every free-list entry points at a vacant slot,
    /// no entry appears twice, and every vacant slot is on the free list.
    pub open spec fn wf(self) -> bool {
        &&& forall|k: int|
            0 <= k < self.free@.len() ==> (#[trigger] self.free@[k]) < self.slots@.len()
                && self.slots@[self.free@[k] as int] is None
        &&& forall|k1: int, k2: int|
            0 <= k1 < k2 < self.free@.len() ==> self.free@[k1] != self.free@[k2]
        &&& forall|j: int|
            0 <= j < self.slots@.len() && self.slots@[j] is None ==> self.free@.contains(
                j as UserId,
            )
    }

    /// Identifier `id` denotes a currently live record.
    pub open spec fn is_live(self, id: UserId) -> bool {
        id < self.slots@.len() && self.slots@[id as int] is Some
    }

    /// Number of currently live records.
    pub open spec fn count(self) -> nat {
        count_live(self.slots@)
    }

    /// The identifier the next create will return: the most recently freed
    /// slot if one exists, otherwise a fresh slot at the end.
    pub open spec fn next_id(self) -> UserId {
        if self.free@.len() > 0 {
            self.free@.last()
        } else {
            self.slots@.len() as UserId
        }
    }
}

/// What one create does: the returned identifier was not live before, is live
/// after, was taken from the free list when one was available, every other
/// identifier keeps its liveness, and the live count grows by one.
pub open spec fn create_step(pre: UserStore, post: UserStore, id: UserId) -> bool {
    &&& post.wf()
    &&& id == pre.next_id()
    &&& !pre.is_live(id)
    &&& post.is_live(id)
    &&& forall|j: UserId| j != id ==> (#[trigger] post.is_live(j) <==> pre.is_live(j))
    &&& post.count() == pre.count() + 1
    &&& post.free@ == if pre.free@.len() > 0 {
        pre.free@.drop_last()
    } else {
        pre.free@
    }
}

/// What one delete does: it succeeds exactly on a live identifier, the
/// identifier is vacant afterwards and its slot joins the free list, every
/// other identifier keeps its liveness, and on failure nothing changes.
pub open spec fn delete_step(pre: UserStore, post: UserStore, id: UserId, removed: bool) -> bool {
    &&& post.wf()
    &&& removed == pre.is_live(id)
    &&& !post.is_live(id)
    &&& forall|j: UserId| j != id ==> (#[trigger] post.is_live(j) <==> pre.is_live(j))
    &&& removed ==> post.count() + 1 == pre.count() && post.free@ == pre.free@.push(id)
    &&& !removed ==> post == pre
}

/// What one replace does: it succeeds exactly on a live identifier, the slot
/// then holds the new record, liveness of every identifier is unchanged, and
/// on failure nothing changes.
pub open spec fn replace_step(
    pre: UserStore,
    post: UserStore,
    id: UserId,
    rec: UserRecord,
    replaced: bool,
) -> bool {
    &&& post.wf()
    &&& replaced == pre.is_live(id)
    &&& replaced ==> post.slots@ == pre.slots@.update(id as int, Some(rec)) && post.free@
        == pre.free@
    &&& !replaced ==> post == pre
    &&& forall|j: UserId| #[trigger] post.is_live(j) <==> pre.is_live(j)
    &&& post.count() == pre.count()
}

/// Writing one slot changes the live count by the difference between the new
/// and the old occupancy of that slot.
proof fn lemma_count_live_update(s: Seq<Option<UserRecord>>, i: int, v: Option<UserRecord>)
    requires
        0 <= i < s.len(),
    ensures
        count_live(s.update(i, v)) + (if s[i] is Some {
            1nat
        } else {
            0nat
        }) == count_live(s) + (if v is Some {
            1nat
        } else {
            0nat
        }),
    decreases s.len(),
{
    let t = s.update(i, v);
    if i == s.len() - 1 {
        assert(t.drop_last() =~= s.drop_last());
        assert(t.last() == v);
    } else {
        assert(t.drop_last() =~= s.drop_last().update(i, v));
        assert(t.last() == s.last());
        lemma_count_live_update(s.drop_last(), i, v);
    }
}

/// Appending an occupied slot raises the live count by one.
proof fn lemma_count_live_push(s: Seq<Option<UserRecord>>, v: Option<UserRecord>)
    ensures
        count_live(s.push(v)) == count_live(s) + (if v is Some {
            1nat
        } else {
            0nat
        }),
{
    assert(s.push(v).drop_last() =~= s);
    assert(s.push(v).last() == v);
}

impl UserStore {
    /// An empty store: no slots, no free list, nothing live.
    pub fn new() -> (s: UserStore)
        ensures
            s.wf(),
            s.count() == 0,
            s.slots@.len() == 0,
            s.free@.len() == 0,
            forall|id: UserId| !(#[trigger] s.is_live(id)),
    {
        UserStore { slots: Vec::new(), free: Vec::new() }
    }

    /// Allocate a fresh record in the first available free slot, reusing a
    /// slot vacated by a prior delete when one exists. Never fails.
    pub fn create(&mut self) -> (id: UserId)
        requires
            old(self).wf(),
        ensures
            create_step(*old(self), *final(self), id),
    {
        let rec = UserRecord::new();
        let popped = self.free.pop();
        match popped {
            Some(id) => {
                proof {
                    assert(old(self).free@[old(self).free@.len() - 1] == id);
                    assert(id < self.slots@.len() && self.slots@[id as int] is None);
                    lemma_count_live_update(self.slots@, id as int, Some(rec));
                }
                self.slots.set(id, Some(rec));
                proof {
                    let pre = *old(self);
                    assert forall|j: int|
                        0 <= j < self.slots@.len() && self.slots@[j] is None implies self.free@
                        .contains(j as UserId) by {
                        assert(pre.slots@[j] is None);
                        let k = choose|k: int|
                            0 <= k < pre.free@.len() && pre.free@[k] == j as UserId;
                        assert(k < pre.free@.len() - 1);
                        assert(self.free@[k] == j as UserId);
                    }
                }
                id
            },
            None => {
                let id = self.slots.len();
                proof {
                    lemma_count_live_push(self.slots@, Some(rec));
                }
                self.slots.push(Some(rec));
                proof {
                    let pre = *old(self);
                    assert forall|j: int|
                        0 <= j < self.slots@.len() && self.slots@[j] is None implies self.free@
                        .contains(j as UserId) by {
                        assert(j < pre.slots@.len() && pre.slots@[j] is None);
                    }
                }
                id
            },
        }
    }

    /// A snapshot of the record at `id`, or `None` when no live record owns
    /// that identifier. Never fails.
    pub fn get(&self, id: UserId) -> (r: Option<UserRecord>)
        ensures
            r is Some <==> self.is_live(id),
            self.is_live(id) ==> r == self.slots@[id as int],
    {
        if id < self.slots.len() {
            let slot: Option<UserRecord> = self.slots[id];
            slot
        } else {
            None
        }
    }

    /// Overwrite the record at `id` wholesale when it is live, returning
    /// whether a record was there to replace. Makes no change otherwise.
    pub fn replace(&mut self, id: UserId, rec: UserRecord) -> (replaced: bool)
        requires
            old(self).wf(),
        ensures
            replace_step(*old(self), *final(self), id, rec, replaced),
    {
        if id < self.slots.len() && self.slots[id].is_some() {
            proof {
                lemma_count_live_update(self.slots@, id as int, Some(rec));
            }
            self.slots.set(id, Some(rec));
            proof {
                let pre = *old(self);
                assert forall|j: int|
                    0 <= j < self.slots@.len() && self.slots@[j] is None implies self.free@
                    .contains(j as UserId) by {
                    assert(pre.slots@[j] is None);
                }
            }
            true
        } else {
            false
        }
    }

    /// Remove the record at `id` when it is live, freeing the slot for
    /// reuse, returning whether a record was removed. Makes no change
    /// otherwise.
    pub fn delete(&mut self, id: UserId) -> (removed: bool)
        requires
            old(self).wf(),
        ensures
            delete_step(*old(self), *final(self), id, removed),
    {
        if id < self.slots.len() && self.slots[id].is_some() {
            proof {
                lemma_count_live_update(self.slots@, id as int, None);
            }
            self.slots.set(id, None);
            self.free.push(id);
            proof {
                let pre = *old(self);
                assert forall|j: int|
                    0 <= j < self.slots@.len() && self.slots@[j] is None implies self.free@
                    .contains(j as UserId) by {
                    if j == id {
                        assert(self.free@[self.free@.len() - 1] == id);
                    } else {
                        assert(pre.slots@[j] is None);
                        let k = choose|k: int|
                            0 <= k < pre.free@.len() && pre.free@[k] == j as UserId;
                        assert(self.free@[k] == j as UserId);
                    }
                }
            }
            true
        } else {
            false
        }
    }

    /// All currently live identifiers, in increasing slot order.
    pub fn list_ids(&self) -> (ids: Vec<UserId>)
        ensures
            ids@ == live_ids_of(self.slots@),
            ids@.len() == self.count(),
            forall|id: UserId| #[trigger] ids@.contains(id) <==> self.is_live(id),
            ids@.no_duplicates(),
    {
        let mut ids: Vec<UserId> = Vec::new();
        let n = self.slots.len();
        let mut j: usize = 0;
        while j < n
            invariant
                n == self.slots@.len(),
                0 <= j <= n,
                ids@ == live_ids_of(self.slots@.take(j as int)),
            decreases n - j,
        {
            proof {
                lemma_live_ids_take_step(self.slots@, j as int);
            }
            if self.slots[j].is_some() {
                ids.push(j);
                proof {
                    assert(ids@ =~= live_ids_of(self.slots@.take(j + 1 as int)));
                }
            } else {
                proof {
                    assert(ids@ =~= live_ids_of(self.slots@.take(j + 1 as int)));
                }
            }
            j += 1;
        }
        proof {
            assert(self.slots@.take(n as int) =~= self.slots@);
            lemma_live_ids_props(self.slots@);
        }
        ids
    }
}

/// Extending the prefix by one slot appends that slot's index exactly when it
/// is occupied.
proof fn lemma_live_ids_take_step(s: Seq<Option<UserRecord>>, j: int)
    requires
        0 <= j < s.len(),
    ensures
        live_ids_of(s.take(j + 1)) == live_ids_of(s.take(j)) + if s[j] is Some {
            seq![j as UserId]
        } else {
            Seq::<UserId>::empty()
        },
{
    let t = s.take(j + 1);
    assert(t.drop_last() =~= s.take(j));
    assert(t.last() == s[j]);
    if s[j] is Some {
        assert(live_ids_of(t) == live_ids_of(s.take(j)) + seq![j as UserId]);
    } else {
        assert(live_ids_of(t) =~= live_ids_of(s.take(j)) + Seq::<UserId>::empty());
    }
}

/// The listed identifiers are exactly the occupied indices, are strictly
/// increasing, contain no duplicates, and number the live count.
pub proof fn lemma_live_ids_props(s: Seq<Option<UserRecord>>)
    requires
        s.len() <= usize::MAX,
    ensures
        live_ids_of(s).len() == count_live(s),
        forall|k: int|
            0 <= k < live_ids_of(s).len() ==> (#[trigger] live_ids_of(s)[k]) < s.len()
                && s[live_ids_of(s)[k] as int] is Some,
        forall|a: int, b: int|
            0 <= a < b < live_ids_of(s).len() ==> live_ids_of(s)[a] < live_ids_of(s)[b],
        forall|id: UserId| #[trigger] live_ids_of(s).contains(id) <==> (id < s.len() && s[id as int] is Some),
        live_ids_of(s).no_duplicates(),
    decreases s.len(),
{
    let ids = live_ids_of(s);
    if s.len() == 0 {
        assert forall|id: UserId| #[trigger] ids.contains(id) implies (id < s.len() && s[id as int] is Some) by {}
    } else {
        lemma_live_ids_props(s.drop_last());
        let prev = live_ids_of(s.drop_last());
        assert forall|id: UserId| id < s.len() && s[id as int] is Some implies #[trigger] ids
            .contains(id) by {
            if id + 1 < s.len() {
                assert(s.drop_last()[id as int] is Some);
                assert(prev.contains(id));
                let k = choose|k: int| 0 <= k < prev.len() && prev[k] == id;
                assert(ids[k] == id);
            } else {
                assert(ids.last() == id);
            }
        }
        assert forall|id: UserId| #[trigger] ids.contains(id) implies (id < s.len() && s[id as int] is Some) by {
            let k = choose|k: int| 0 <= k < ids.len() && ids[k] == id;
            if k < prev.len() {
                assert(prev.contains(id));
                assert(s.drop_last()[id as int] is Some);
                assert(s[id as int] == s.drop_last()[id as int]);
            } else {
                assert(id == s.len() - 1);
            }
        }
        assert forall|a: int, b: int| 0 <= a < b < ids.len() implies ids[a] < ids[b] by {
            if b < prev.len() {
            } else {
                assert(ids[b] == s.len() - 1);
                assert(prev[a] < s.drop_last().len());
            }
        }
        assert(ids.no_duplicates()) by {
            assert forall|a: int, b: int|
                0 <= a < ids.len() && 0 <= b < ids.len() && a != b implies ids[a] != ids[b] by {
                if a < b {
                    assert(ids[a] < ids[b]);
                } else {
                    assert(ids[b] < ids[a]);
                }
            }
        }
    }
}

} // verus!
