use vstd::prelude::*;

use crate::record::UserRecord;
use crate::record::spec_render;
use crate::response::Response;
use crate::route::Method;
use crate::route::Route;
use crate::route::lemma_classify_create_path;
use crate::route::lemma_item_path_round_trip;
use crate::route::spec_classify;
use crate::service::handled;
use crate::store::UserId;
use crate::store::UserStore;
use crate::store::create_step;
use crate::store::delete_step;
use crate::store::replace_step;

verus! {

/// A create never hands out an identifier that is already live: whatever was
/// live before the call stays live and differs from the new identifier. So
/// identifiers are pairwise distinct among simultaneously live records, and
/// a deleted identifier can come back only after its delete.
pub proof fn lemma_create_returns_fresh_id(s0: UserStore, s1: UserStore, id: UserId, j: UserId)
    requires
        create_step(s0, s1, id),
        s0.is_live(j),
    ensures
        j != id,
        s1.is_live(j),
{
}

/// Two consecutive creates return distinct identifiers, both live afterwards.
pub proof fn lemma_consecutive_creates_distinct(
    s0: UserStore,
    s1: UserStore,
    s2: UserStore,
    id1: UserId,
    id2: UserId,
)
    requires
        create_step(s0, s1, id1),
        create_step(s1, s2, id2),
    ensures
        id1 != id2,
        s2.is_live(id1),
        s2.is_live(id2),
{
    lemma_create_returns_fresh_id(s1, s2, id2, id1);
}

/// Right after a create, the returned identifier is live, so a get returns a
/// record for it.
pub proof fn lemma_create_then_live(s0: UserStore, s1: UserStore, id: UserId)
    requires
        create_step(s0, s1, id),
    ensures
        s1.is_live(id),
{
}

/// A created then deleted identifier is absent: the delete succeeds and a get
/// afterwards finds nothing.
pub proof fn lemma_create_delete_absent(
    s0: UserStore,
    s1: UserStore,
    s2: UserStore,
    id: UserId,
    removed: bool,
)
    requires
        create_step(s0, s1, id),
        delete_step(s1, s2, id, removed),
    ensures
        removed,
        !s2.is_live(id),
{
}

/// A delete frees its slot for reuse: the create right after a successful
/// delete returns the very identifier that was deleted.
pub proof fn lemma_delete_then_create_reuses(
    s0: UserStore,
    s1: UserStore,
    s2: UserStore,
    id: UserId,
    id2: UserId,
)
    requires
        delete_step(s0, s1, id, true),
        create_step(s1, s2, id2),
    ensures
        id2 == id,
{
    assert(s1.free@.len() > 0);
    assert(s1.free@.last() == id);
}

/// A successful replace keeps the identifier live, changes no identifier's
/// liveness, and a get afterwards sees exactly the new record.
pub proof fn lemma_replace_keeps_id(
    s0: UserStore,
    s1: UserStore,
    id: UserId,
    rec: UserRecord,
)
    requires
        replace_step(s0, s1, id, rec, true),
    ensures
        s1.is_live(id),
        s1.slots@[id as int] == Some(rec),
        forall|j: UserId| #[trigger] s1.is_live(j) <==> s0.is_live(j),
{
    assert(s1.slots@[id as int] == Some(rec));
}

/// At the HTTP surface: after a create request, fetching the path written
/// for the identifier in the response body succeeds and serves the record's
/// text form, leaving the store as it was.
pub proof fn lemma_created_id_is_fetchable(
    pre: UserStore,
    s1: UserStore,
    r1: Response,
    s2: UserStore,
    r2: Response,
)
    requires
        handled(Method::Post, "/user/"@, pre, s1, r1),
        handled(Method::Get, "/user/"@ + r1.body@, s1, s2, r2),
    ensures
        r1.status is Success,
        r2.status is Success,
        r2.body@ == spec_render(),
        s2 == s1,
{
    lemma_classify_create_path();
    let id = pre.next_id();
    assert(create_step(pre, s1, id));
    lemma_item_path_round_trip(id);
    assert(spec_classify("/user/"@ + r1.body@) == Route::UserItem(Some(id)));
    assert(s1.is_live(id));
}

/// At the HTTP surface: after a create request, deleting the path written for
/// the identifier in the response body succeeds, and fetching it afterwards
/// reports absence.
pub proof fn lemma_deleted_id_is_absent(
    pre: UserStore,
    s1: UserStore,
    r1: Response,
    s2: UserStore,
    r2: Response,
    s3: UserStore,
    r3: Response,
)
    requires
        handled(Method::Post, "/user/"@, pre, s1, r1),
        handled(Method::Delete, "/user/"@ + r1.body@, s1, s2, r2),
        handled(Method::Get, "/user/"@ + r1.body@, s2, s3, r3),
    ensures
        r2.status is Success,
        r3.status is NotFound,
        s3 == s2,
{
    lemma_classify_create_path();
    let id = pre.next_id();
    assert(create_step(pre, s1, id));
    lemma_item_path_round_trip(id);
    assert(s1.is_live(id));
    assert(delete_step(s1, s2, id, true));
    assert(!s2.is_live(id));
}

/// The operations of one store history: creates and the deletes that
/// succeeded. Replaces and reads are absent because they do not change which
/// identifiers are live.
pub enum StoreOp {
    Create,
    Delete(UserId),
}

/// One history step: the store moved from `pre` to `post` by the given
/// operation's contract.
pub open spec fn step_matches(pre: UserStore, post: UserStore, op: StoreOp) -> bool {
    match op {
        StoreOp::Create => exists|id: UserId| create_step(pre, post, id),
        StoreOp::Delete(id) => delete_step(pre, post, id, true),
    }
}

/// `states` is a run of the store under `ops`: one more state than
/// operations, each consecutive pair related by its operation.
pub open spec fn trace_ok(states: Seq<UserStore>, ops: Seq<StoreOp>) -> bool {
    &&& states.len() == ops.len() + 1
    &&& forall|i: int| 0 <= i < ops.len() ==> step_matches(#[trigger] states[i], states[i + 1], ops[i])
}

/// Number of creates in a history.
pub open spec fn num_creates(ops: Seq<StoreOp>) -> nat
    decreases ops.len(),
{
    if ops.len() == 0 {
        0
    } else {
        num_creates(ops.drop_last()) + if ops.last() is Create {
            1nat
        } else {
            0nat
        }
    }
}

/// Number of successful deletes in a history.
pub open spec fn num_deletes(ops: Seq<StoreOp>) -> nat
    decreases ops.len(),
{
    if ops.len() == 0 {
        0
    } else {
        num_deletes(ops.drop_last()) + if ops.last() is Delete {
            1nat
        } else {
            0nat
        }
    }
}

/// After any run of N creates and M successful deletes the store holds
/// exactly N - M more live records than it started with; since a listing
/// returns one identifier per live record, a listing after such a run from
/// the empty store has exactly N - M elements.
pub proof fn lemma_live_count_after_trace(states: Seq<UserStore>, ops: Seq<StoreOp>)
    requires
        trace_ok(states, ops),
    ensures
        states.last().count() + num_deletes(ops) == states.first().count() + num_creates(ops),
    decreases ops.len(),
{
    if ops.len() == 0 {
        assert(states.last() == states.first());
    } else {
        let shorter = states.drop_last();
        assert(trace_ok(shorter, ops.drop_last())) by {
            assert forall|i: int|
                0 <= i < ops.drop_last().len() implies step_matches(
                #[trigger] shorter[i],
                shorter[i + 1],
                ops.drop_last()[i],
            ) by {
                assert(step_matches(states[i], states[i + 1], ops[i]));
            }
        }
        lemma_live_count_after_trace(shorter, ops.drop_last());
        let n = ops.len();
        assert(step_matches(states[n - 1], states[n as int], ops[n - 1]));
        match ops[n - 1] {
            StoreOp::Create => {
                let id = choose|id: UserId| #[trigger] create_step(states[n - 1], states[n as int], id);
                assert(states[n as int].count() == states[n - 1].count() + 1);
            },
            StoreOp::Delete(id) => {
                assert(states[n as int].count() + 1 == states[n - 1].count());
            },
        }
        assert(shorter.first() == states.first());
        assert(shorter.last() == states[n - 1]);
    }
}

} // verus!
