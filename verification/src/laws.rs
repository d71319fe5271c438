//! Laws of the store, proved over its abstract state.
//!
//! The store's operations are pinned down by the transition functions
//! `StoreView::after_store` and `StoreView::after_delete` and the read
//! function `StoreView::live_items` (see the `ensures` clauses in
//! `crate::store`). The lemmas here state what those transitions guarantee
//! across any run: every state reachable from the empty state by the two
//! transitions is well-formed (`lemma_empty_wf`, `lemma_store_preserves_wf`,
//! `lemma_delete_preserves_wf`, by induction over the run), and in a
//! well-formed state reads report exactly the live records, in creation
//! order.

use vstd::prelude::*;

use crate::item::ItemView;
use crate::store::{ids_of, survivors, StoreView};

verus! {

impl StoreView {
    /// A well-formed state: each project's membership list names exactly
    /// the identifiers that have a record, without duplicates; every such
    /// identifier is below the project's counter; and each record carries
    /// the identifier it is stored under.
    pub open spec fn wf(self) -> bool {
        &&& forall|p: u32, id: u32|
            #![trigger self.member_listed(p, id)]
            #![trigger self.has_record(p, id)]
            self.member_listed(p, id) <==> self.has_record(p, id)
        &&& forall|p: u32| (#[trigger] self.members_of(p)).no_duplicates()
        &&& forall|p: u32, id: u32| #[trigger] self.has_record(p, id) ==> id < self.next_id(p)
        &&& forall|p: u32, id: u32|
            #[trigger] self.has_record(p, id) ==> self.record_of(p, id).id == id
    }
}

/// Appending keeps the old identifiers and adds the new one, nothing else.
proof fn lemma_push_contains(s: Seq<u32>, x: u32, y: u32)
    ensures
        s.push(x).contains(y) <==> (s.contains(y) || y == x),
{
    if s.contains(y) {
        let i = choose|i: int| 0 <= i < s.len() && s[i] == y;
        assert(s.push(x)[i] == y);
    }
    assert(s.push(x)[s.len() as int] == x);
    if s.push(x).contains(y) {
        let i = choose|i: int| 0 <= i < s.push(x).len() && s.push(x)[i] == y;
        if i < s.len() {
            assert(s[i] == y);
        }
    }
}

/// Appending an identifier not yet listed keeps the list duplicate-free.
proof fn lemma_push_fresh_no_duplicates(s: Seq<u32>, x: u32)
    requires
        s.no_duplicates(),
        !s.contains(x),
    ensures
        s.push(x).no_duplicates(),
{
    let t = s.push(x);
    assert forall|i: int, j: int|
        0 <= i < t.len() && 0 <= j < t.len() && i != j implies t[i] != t[j] by {
        if i < s.len() && j < s.len() {
            assert(s[i] == t[i] && s[j] == t[j]);
        } else if j == s.len() && i < s.len() {
            assert(t[i] == s[i] && !s.contains(t[j]));
        } else if i == s.len() && j < s.len() {
            assert(t[j] == s[j] && !s.contains(t[i]));
        }
    }
}

/// Taking an identifier out keeps exactly the other identifiers.
pub proof fn lemma_survivors_contains(ids: Seq<u32>, removed: u32, x: u32)
    ensures
        survivors(ids, removed).contains(x) <==> (ids.contains(x) && x != removed),
    decreases ids.len(),
{
    if ids.len() == 0 {
    } else {
        let rest = ids.drop_last();
        lemma_survivors_contains(rest, removed, x);
        assert(ids.contains(x) <==> (rest.contains(x) || ids.last() == x)) by {
            if rest.contains(x) {
                let i = choose|i: int| 0 <= i < rest.len() && rest[i] == x;
                assert(ids[i] == x);
            }
            if ids.last() == x {
                assert(ids[ids.len() - 1] == x);
            }
            if ids.contains(x) {
                let i = choose|i: int| 0 <= i < ids.len() && ids[i] == x;
                if i < ids.len() - 1 {
                    assert(rest[i] == x);
                }
            }
        }
        if ids.last() != removed {
            lemma_push_contains(survivors(rest, removed), ids.last(), x);
        }
    }
}

/// Taking an identifier out of a duplicate-free list leaves it
/// duplicate-free.
pub proof fn lemma_survivors_no_duplicates(ids: Seq<u32>, removed: u32)
    requires
        ids.no_duplicates(),
    ensures
        survivors(ids, removed).no_duplicates(),
    decreases ids.len(),
{
    if ids.len() == 0 {
    } else {
        let rest = ids.drop_last();
        assert(rest.no_duplicates());
        lemma_survivors_no_duplicates(rest, removed);
        if ids.last() != removed {
            assert(!rest.contains(ids.last())) by {
                if rest.contains(ids.last()) {
                    let i = choose|i: int| 0 <= i < rest.len() && rest[i] == ids.last();
                    assert(ids[i] == ids[ids.len() - 1]);
                }
            }
            lemma_survivors_contains(rest, removed, ids.last());
            lemma_push_fresh_no_duplicates(survivors(rest, removed), ids.last());
        }
    }
}

/// Taking out an identifier that is not listed changes nothing.
pub proof fn lemma_survivors_absent(ids: Seq<u32>, removed: u32)
    requires
        !ids.contains(removed),
    ensures
        survivors(ids, removed) == ids,
    decreases ids.len(),
{
    if ids.len() == 0 {
        assert(survivors(ids, removed) =~= ids);
    } else {
        let rest = ids.drop_last();
        assert(!rest.contains(removed)) by {
            if rest.contains(removed) {
                let i = choose|i: int| 0 <= i < rest.len() && rest[i] == removed;
                assert(ids[i] == removed);
            }
        }
        assert(ids.last() != removed) by {
            assert(ids[ids.len() - 1] == ids.last());
        }
        lemma_survivors_absent(rest, removed);
        assert(survivors(ids, removed) =~= ids);
    }
}

/// The empty state is well-formed: no project lists or stores anything and
/// every counter reads as 0.
pub proof fn lemma_empty_wf()
    ensures
        StoreView::empty().wf(),
{
}

/// The empty state reads as empty: a project with no prior activity has
/// counter 0, no membership list, and no items to return.
pub proof fn lemma_empty_state(project_id: u32)
    ensures
        StoreView::empty().next_id(project_id) == 0,
        StoreView::empty().members_of(project_id) == Seq::<u32>::empty(),
        StoreView::empty().live_items(project_id) == Seq::<ItemView>::empty(),
{
}

/// Storing an item preserves well-formedness.
pub proof fn lemma_store_preserves_wf(
    v: StoreView,
    p: u32,
    title: Seq<char>,
    description: Seq<char>,
    status: Seq<char>,
)
    requires
        v.wf(),
        v.next_id(p) < u32::MAX,
    ensures
        v.after_store(p, title, description, status).wf(),
{
    let id = v.next_id(p);
    let a = v.after_store(p, title, description, status);
    assert(a.members_of(p) == v.members_of(p).push(id));
    assert(!v.member_listed(p, id)) by {
        if v.member_listed(p, id) {
            assert(v.has_record(p, id));
        }
    }
    assert forall|q: u32, j: u32| a.member_listed(q, j) <==> a.has_record(q, j) by {
        if q == p {
            lemma_push_contains(v.members_of(p), id, j);
            assert(v.member_listed(p, j) <==> v.has_record(p, j));
        } else {
            assert(a.members_of(q) == v.members_of(q));
            assert(v.member_listed(q, j) <==> v.has_record(q, j));
        }
    }
    assert forall|q: u32| (#[trigger] a.members_of(q)).no_duplicates() by {
        if q == p {
            lemma_push_fresh_no_duplicates(v.members_of(p), id);
        } else {
            assert(a.members_of(q) == v.members_of(q));
        }
    }
    assert forall|q: u32, j: u32| #[trigger] a.has_record(q, j)
        implies j < a.next_id(q) && a.record_of(q, j).id == j by {
        if q == p && j == id {
            assert(a.record_of(p, id).id == id);
        } else {
            assert(v.has_record(q, j));
            assert(a.record_of(q, j) == v.record_of(q, j));
        }
    }
}

/// Deleting an item preserves well-formedness.
pub proof fn lemma_delete_preserves_wf(v: StoreView, p: u32, item_id: u32)
    requires
        v.wf(),
    ensures
        v.after_delete(p, item_id).wf(),
{
    if v.has_record(p, item_id) {
        let a = v.after_delete(p, item_id);
        assert(v.member_listed(p, item_id));
        assert(v.members.dom().contains(p)) by {
            if !v.members.dom().contains(p) {
                assert(v.members_of(p) == Seq::<u32>::empty());
            }
        }
        assert(a.members_of(p) == survivors(v.members_of(p), item_id));
        assert forall|q: u32, j: u32| a.member_listed(q, j) <==> a.has_record(q, j) by {
            if q == p {
                lemma_survivors_contains(v.members_of(p), item_id, j);
                assert(v.member_listed(p, j) <==> v.has_record(p, j));
            } else {
                assert(a.members_of(q) == v.members_of(q));
                assert(v.member_listed(q, j) <==> v.has_record(q, j));
            }
        }
        assert forall|q: u32| (#[trigger] a.members_of(q)).no_duplicates() by {
            if q == p {
                lemma_survivors_no_duplicates(v.members_of(p), item_id);
            } else {
                assert(a.members_of(q) == v.members_of(q));
            }
        }
        assert forall|q: u32, j: u32| #[trigger] a.has_record(q, j) implies j < a.next_id(q)
            && a.record_of(q, j).id == j by {
            assert(v.has_record(q, j));
        }
    }
}

/// Allocation monotonicity, store side: storing on a project hands out the
/// project's counter and moves the counter up by exactly one, so successive
/// stores on one project return consecutive identifiers.
pub proof fn lemma_allocation_monotonic(
    v: StoreView,
    p: u32,
    title: Seq<char>,
    description: Seq<char>,
    status: Seq<char>,
)
    requires
        v.next_id(p) < u32::MAX,
    ensures
        v.after_store(p, title, description, status).next_id(p) == v.next_id(p) + 1,
{
}

/// Allocation monotonicity, delete side: no delete moves any counter, so
/// intervening deletes cannot disturb the sequence of assigned identifiers.
pub proof fn lemma_delete_keeps_counters(v: StoreView, p: u32, item_id: u32, q: u32)
    ensures
        v.after_delete(p, item_id).next_id(q) == v.next_id(q),
{
}

/// No identifier reuse: in a well-formed state every identifier with a live
/// record sits strictly below its project's counter. Counters never
/// decrease (`lemma_allocation_monotonic`, `lemma_delete_keeps_counters`)
/// and a store returns the counter itself, so an identifier once assigned —
/// live or since deleted — stays below every later counter value and is
/// never returned again.
pub proof fn lemma_no_id_reuse(v: StoreView, p: u32, id: u32)
    requires
        v.wf(),
        v.has_record(p, id),
    ensures
        id < v.next_id(p),
{
}

/// Membership consistency, store side: storing creates exactly one record,
/// under the assigned identifier of the chosen project.
pub proof fn lemma_store_changes_records(
    v: StoreView,
    p: u32,
    title: Seq<char>,
    description: Seq<char>,
    status: Seq<char>,
    q: u32,
    id: u32,
)
    ensures
        v.after_store(p, title, description, status).has_record(q, id)
            <==> (v.has_record(q, id) || (q == p && id == v.next_id(p))),
{
}

/// Membership consistency, delete side: deleting removes exactly the named
/// record, if it exists, and nothing else.
pub proof fn lemma_delete_changes_records(v: StoreView, p: u32, item_id: u32, q: u32, id: u32)
    ensures
        v.after_delete(p, item_id).has_record(q, id)
            <==> (v.has_record(q, id) && !(q == p && id == item_id)),
{
}

/// Every identifier on a list whose records all exist is reported, in list
/// order.
proof fn lemma_assemble_ids(v: StoreView, p: u32, ids: Seq<u32>)
    requires
        v.wf(),
        forall|i: int| 0 <= i < ids.len() ==> v.has_record(p, #[trigger] ids[i]),
    ensures
        ids_of(v.assemble(p, ids)) == ids,
    decreases ids.len(),
{
    if ids.len() == 0 {
        assert(ids_of(v.assemble(p, ids)) =~= ids);
    } else {
        let rest = ids.drop_last();
        assert(forall|i: int| 0 <= i < rest.len() ==> v.has_record(p, #[trigger] rest[i])) by {
            assert(forall|i: int| 0 <= i < rest.len() ==> rest[i] == ids[i]);
        }
        lemma_assemble_ids(v, p, rest);
        let last = ids.last();
        assert(v.has_record(p, last)) by {
            assert(ids[ids.len() - 1] == last);
        }
        let rec = v.record_of(p, last);
        let reported = v.assemble(p, ids);
        assert(reported == v.assemble(p, rest).push(rec));
        assert(reported.drop_last() =~= v.assemble(p, rest));
        assert(reported.last() == rec);
        assert(ids_of(reported) == ids_of(v.assemble(p, rest)).push(rec.id));
        assert(rec.id == last);
        assert(rest.push(last) =~= ids);
    }
}

/// Order preservation, read side: in a well-formed state a read reports
/// exactly the membership list's identifiers, in their stored order — the
/// order the items were created in, with deleted identifiers taken out.
pub proof fn lemma_get_items_order(v: StoreView, p: u32)
    requires
        v.wf(),
    ensures
        ids_of(v.live_items(p)) == v.members_of(p),
{
    assert forall|i: int| 0 <= i < v.members_of(p).len()
        implies v.has_record(p, #[trigger] v.members_of(p)[i]) by {
        assert(v.members_of(p).contains(v.members_of(p)[i]));
        assert(v.member_listed(p, v.members_of(p)[i]));
    }
    lemma_assemble_ids(v, p, v.members_of(p));
}

/// Order preservation, delete side: deleting keeps the surviving
/// identifiers in their former order, whether or not the identifier was
/// live.
pub proof fn lemma_delete_preserves_order(v: StoreView, p: u32, item_id: u32)
    requires
        v.wf(),
    ensures
        v.after_delete(p, item_id).members_of(p) == survivors(v.members_of(p), item_id),
{
    if v.has_record(p, item_id) {
        assert(v.member_listed(p, item_id));
        assert(v.members.dom().contains(p)) by {
            if !v.members.dom().contains(p) {
                assert(v.members_of(p) == Seq::<u32>::empty());
            }
        }
    } else {
        assert(!v.member_listed(p, item_id));
        lemma_survivors_absent(v.members_of(p), item_id);
    }
}

/// Membership consistency, read side: in a well-formed state the
/// identifiers a read reports are exactly those with a live record. With
/// the store and delete sides above, a run of stores and deletes leaves
/// exactly the created-and-not-deleted identifiers reported, by induction
/// over the run.
pub proof fn lemma_membership_consistent(v: StoreView, p: u32, id: u32)
    requires
        v.wf(),
    ensures
        ids_of(v.live_items(p)).contains(id) <==> v.has_record(p, id),
{
    lemma_get_items_order(v, p);
    assert(v.member_listed(p, id) <==> v.has_record(p, id));
}

/// Delete idempotence: deleting twice is deleting once, and deleting an
/// identifier that has no record — never created, or already deleted — is a
/// no-op.
pub proof fn lemma_delete_idempotent(v: StoreView, p: u32, item_id: u32)
    ensures
        v.after_delete(p, item_id).after_delete(p, item_id) == v.after_delete(p, item_id),
        !v.has_record(p, item_id) ==> v.after_delete(p, item_id) == v,
{
    let a = v.after_delete(p, item_id);
    assert(!a.has_record(p, item_id));
}

/// One call of the store's mutating interface.
pub ghost enum StoreOp {
    Store { project_id: u32, title: Seq<char>, description: Seq<char>, status: Seq<char> },
    Delete { project_id: u32, item_id: u32 },
}

impl StoreOp {
    /// The state transition the call makes.
    pub open spec fn apply(self, v: StoreView) -> StoreView {
        match self {
            StoreOp::Store { project_id, title, description, status } => v.after_store(
                project_id,
                title,
                description,
                status,
            ),
            StoreOp::Delete { project_id, item_id } => v.after_delete(project_id, item_id),
        }
    }
}

/// The state after a run of calls, applied in order.
pub open spec fn apply_all(v: StoreView, ops: Seq<StoreOp>) -> StoreView
    decreases ops.len(),
{
    if ops.len() == 0 {
        v
    } else {
        ops.last().apply(apply_all(v, ops.drop_last()))
    }
}

/// Whether every store call of a run finds its project's counter below
/// `u32::MAX`, the machine limit of the identifier space.
pub open spec fn no_counter_exhaustion(v: StoreView, ops: Seq<StoreOp>) -> bool
    decreases ops.len(),
{
    if ops.len() == 0 {
        true
    } else {
        no_counter_exhaustion(v, ops.drop_last()) && (ops.last() matches StoreOp::Store {
            project_id,
            ..
        } ==> apply_all(v, ops.drop_last()).next_id(project_id) < u32::MAX)
    }
}

/// Whether a run stores nothing on the given project (deletes, on any
/// project, and other projects' stores are free).
pub open spec fn no_store_on(ops: Seq<StoreOp>, p: u32) -> bool {
    forall|i: int| 0 <= i < ops.len()
        ==> !((#[trigger] ops[i]) matches StoreOp::Store { project_id, .. } && project_id == p)
}

/// Every state a run of calls reaches from a well-formed state is
/// well-formed — in particular every state reachable from the empty state.
pub proof fn lemma_run_preserves_wf(v: StoreView, ops: Seq<StoreOp>)
    requires
        v.wf(),
        no_counter_exhaustion(v, ops),
    ensures
        apply_all(v, ops).wf(),
    decreases ops.len(),
{
    if ops.len() > 0 {
        lemma_run_preserves_wf(v, ops.drop_last());
        let u = apply_all(v, ops.drop_last());
        match ops.last() {
            StoreOp::Store { project_id, title, description, status } => {
                lemma_store_preserves_wf(u, project_id, title, description, status);
            },
            StoreOp::Delete { project_id, item_id } => {
                lemma_delete_preserves_wf(u, project_id, item_id);
            },
        }
    }
}

/// Counters never move down: after any run of calls a project's counter is
/// at least what it was.
pub proof fn lemma_run_counter_monotonic(v: StoreView, ops: Seq<StoreOp>, p: u32)
    requires
        no_counter_exhaustion(v, ops),
    ensures
        apply_all(v, ops).next_id(p) >= v.next_id(p),
    decreases ops.len(),
{
    if ops.len() > 0 {
        lemma_run_counter_monotonic(v, ops.drop_last(), p);
        let u = apply_all(v, ops.drop_last());
        match ops.last() {
            StoreOp::Store { project_id, .. } => {
                if project_id == p {
                    assert(u.next_id(p) < u32::MAX);
                }
            },
            StoreOp::Delete { .. } => {},
        }
    }
}

/// No identifier reuse, over any run: in a well-formed state every assigned
/// identifier sits below its project's counter (`lemma_no_id_reuse`), the
/// counter never moves down, and a store hands out the counter itself — so
/// however many calls follow, live or deleted identifiers of a project are
/// never assigned there again.
pub proof fn lemma_no_id_reuse_along_run(v: StoreView, ops: Seq<StoreOp>, p: u32, id: u32)
    requires
        no_counter_exhaustion(v, ops),
        id < v.next_id(p),
    ensures
        id < apply_all(v, ops).next_id(p),
{
    lemma_run_counter_monotonic(v, ops, p);
}

/// A run that stores nothing on a project leaves its counter exactly where
/// it was: deletes never touch counters, and other projects' stores touch
/// only their own.
pub proof fn lemma_counter_untouched_between_stores(v: StoreView, ops: Seq<StoreOp>, p: u32)
    requires
        no_store_on(ops, p),
    ensures
        apply_all(v, ops).next_id(p) == v.next_id(p),
    decreases ops.len(),
{
    if ops.len() > 0 {
        assert(no_store_on(ops.drop_last(), p)) by {
            assert(forall|i: int| 0 <= i < ops.len() - 1 ==> ops.drop_last()[i] == ops[i]);
        }
        lemma_counter_untouched_between_stores(v, ops.drop_last(), p);
        assert(!(ops.last() matches StoreOp::Store { project_id, .. } && project_id == p)) by {
            assert(ops[ops.len() - 1] == ops.last());
        }
    }
}

/// Allocation monotonicity over a run: two stores on one project return
/// consecutive identifiers, whatever deletes or other projects' calls come
/// between them — the first returns the counter and moves it up by one, and
/// nothing in between moves it again.
pub proof fn lemma_successive_ids_consecutive(
    v: StoreView,
    p: u32,
    title: Seq<char>,
    description: Seq<char>,
    status: Seq<char>,
    ops: Seq<StoreOp>,
)
    requires
        v.next_id(p) < u32::MAX,
        no_store_on(ops, p),
    ensures
        apply_all(v.after_store(p, title, description, status), ops).next_id(p)
            == v.next_id(p) + 1,
{
    lemma_allocation_monotonic(v, p, title, description, status);
    lemma_counter_untouched_between_stores(v.after_store(p, title, description, status), ops, p);
}

/// The identifiers a run assigns on a project: each store on the project
/// assigns the project's counter of the moment.
pub open spec fn created_ids(v: StoreView, ops: Seq<StoreOp>, p: u32) -> Set<u32>
    decreases ops.len(),
{
    if ops.len() == 0 {
        Set::empty()
    } else {
        let before = created_ids(v, ops.drop_last(), p);
        match ops.last() {
            StoreOp::Store { project_id, .. } => if project_id == p {
                before.insert(apply_all(v, ops.drop_last()).next_id(p))
            } else {
                before
            },
            StoreOp::Delete { .. } => before,
        }
    }
}

/// The identifiers a run deletes on a project.
pub open spec fn deleted_ids(ops: Seq<StoreOp>, p: u32) -> Set<u32>
    decreases ops.len(),
{
    if ops.len() == 0 {
        Set::empty()
    } else {
        let before = deleted_ids(ops.drop_last(), p);
        match ops.last() {
            StoreOp::Delete { project_id, item_id } => if project_id == p {
                before.insert(item_id)
            } else {
                before
            },
            StoreOp::Store { .. } => before,
        }
    }
}

/// Whether every delete of a run names an identifier already assigned on
/// its project — one below the project's counter at that point. A delete
/// naming a never-assigned identifier is a no-op yet would land in the
/// deleted set, so the created-minus-deleted accounting is stated for runs
/// without such deletes.
pub open spec fn deletes_name_assigned_ids(v: StoreView, ops: Seq<StoreOp>) -> bool
    decreases ops.len(),
{
    if ops.len() == 0 {
        true
    } else {
        deletes_name_assigned_ids(v, ops.drop_last()) && match ops.last() {
            StoreOp::Delete { project_id, item_id } => item_id < apply_all(
                v,
                ops.drop_last(),
            ).next_id(project_id),
            StoreOp::Store { .. } => true,
        }
    }
}

/// Membership consistency over any run from the empty store: a record is
/// live exactly when its identifier was created and not deleted, and every
/// created or deleted identifier sits below the project's counter. With
/// `lemma_membership_consistent` and `lemma_run_preserves_wf`, the
/// identifiers a read reports after the run are exactly the created ones
/// minus the deleted ones.
pub proof fn lemma_run_created_minus_deleted(ops: Seq<StoreOp>, p: u32, id: u32)
    requires
        no_counter_exhaustion(StoreView::empty(), ops),
        deletes_name_assigned_ids(StoreView::empty(), ops),
    ensures
        apply_all(StoreView::empty(), ops).has_record(p, id) <==> (created_ids(
            StoreView::empty(),
            ops,
            p,
        ).contains(id) && !deleted_ids(ops, p).contains(id)),
        created_ids(StoreView::empty(), ops, p).contains(id) ==> id < apply_all(
            StoreView::empty(),
            ops,
        ).next_id(p),
        deleted_ids(ops, p).contains(id) ==> id < apply_all(StoreView::empty(), ops).next_id(p),
    decreases ops.len(),
{
    let v = StoreView::empty();
    if ops.len() > 0 {
        let u = apply_all(v, ops.drop_last());
        lemma_run_created_minus_deleted(ops.drop_last(), p, id);
        match ops.last() {
            StoreOp::Store { project_id, title, description, status } => {
                let fresh = u.next_id(project_id);
                lemma_run_created_minus_deleted(ops.drop_last(), project_id, fresh);
                assert(!deleted_ids(ops.drop_last(), project_id).contains(fresh));
                lemma_store_changes_records(u, project_id, title, description, status, p, id);
                assert(u.next_id(project_id) < u32::MAX);
            },
            StoreOp::Delete { project_id, item_id } => {
                lemma_delete_changes_records(u, project_id, item_id, p, id);
            },
        }
    }
}

/// Membership consistency, composed: after any fault-free run from the
/// empty store whose deletes name assigned identifiers, a read reports
/// exactly the identifiers created for the project minus those deleted
/// from it.
pub proof fn lemma_run_reported_ids(ops: Seq<StoreOp>, p: u32, id: u32)
    requires
        no_counter_exhaustion(StoreView::empty(), ops),
        deletes_name_assigned_ids(StoreView::empty(), ops),
    ensures
        ids_of(apply_all(StoreView::empty(), ops).live_items(p)).contains(id) <==> (created_ids(
            StoreView::empty(),
            ops,
            p,
        ).contains(id) && !deleted_ids(ops, p).contains(id)),
{
    lemma_empty_wf();
    lemma_run_preserves_wf(StoreView::empty(), ops);
    lemma_membership_consistent(apply_all(StoreView::empty(), ops), p, id);
    lemma_run_created_minus_deleted(ops, p, id);
}

/// Project isolation, store side: storing on one project changes no other
/// project's counter, membership list, or records.
pub proof fn lemma_project_isolation_store(
    v: StoreView,
    p: u32,
    title: Seq<char>,
    description: Seq<char>,
    status: Seq<char>,
    q: u32,
    id: u32,
)
    requires
        q != p,
    ensures
        v.after_store(p, title, description, status).next_id(q) == v.next_id(q),
        v.after_store(p, title, description, status).members_of(q) == v.members_of(q),
        v.after_store(p, title, description, status).has_record(q, id) == v.has_record(q, id),
        v.has_record(q, id) ==> v.after_store(p, title, description, status).record_of(q, id)
            == v.record_of(q, id),
{
}

/// Project isolation, delete side: deleting on one project changes no other
/// project's counter, membership list, or records.
pub proof fn lemma_project_isolation_delete(
    v: StoreView,
    p: u32,
    item_id: u32,
    q: u32,
    id: u32,
)
    requires
        q != p,
    ensures
        v.after_delete(p, item_id).next_id(q) == v.next_id(q),
        v.after_delete(p, item_id).members_of(q) == v.members_of(q),
        v.after_delete(p, item_id).has_record(q, id) == v.has_record(q, id),
        v.has_record(q, id) ==> v.after_delete(p, item_id).record_of(q, id) == v.record_of(q, id),
{
}

} // verus!
