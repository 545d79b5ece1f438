//! The entity store: users, batches, resources and the durable outbox.
//!
//! This is an in-memory model of the four relational tables the system
//! persists, together with the per-user current-batch pointer. Every
//! multi-step mutation that must be transactional — commit-and-enqueue,
//! insert-and-sequence, insert-and-maybe-enqueue — is one call here, so
//! callers observe no partial state.
//! The well-formedness predicate [`Store::wf`] carries the system's
//! invariants: dense unique ids, at most one non-terminal batch per user,
//! and per-batch sequence numbers that run 1..N in insertion order.

use vstd::prelude::*;

use crate::backoff::{backoff_delay_secs, spec_backoff_delay, DEFAULT_BACKOFF_CAP_SECS, MAX_UNCAPPED_DELAY_SECS};
use crate::model::{
    Batch, BatchForOutbox, BatchState, OutboxKind, OutboxTask, Resource, ResourceForOutbox,
    StoreError, User,
};
use crate::text::{is_blank, spec_is_blank, str_eq};

verus! {

/// A copy of an optional string, with the copy's value pinned down.
pub fn clone_opt_string(o: &Option<String>) -> (r: Option<String>)
    ensures
        r == *o,
{
    match o {
        Some(s) => Some(s.clone()),
        None => None,
    }
}

/// The resources of `rs` that belong to batch `bid`, in insertion order.
pub open spec fn in_batch(rs: Seq<Resource>, bid: i64) -> Seq<Resource>
    decreases rs.len(),
{
    if rs.len() == 0 {
        Seq::empty()
    } else if rs.last().batch_id == Some(bid) {
        in_batch(rs.drop_last(), bid).push(rs.last())
    } else {
        in_batch(rs.drop_last(), bid)
    }
}

/// How many resources of `rs` belong to batch `bid`.
pub open spec fn count_in_batch(rs: Seq<Resource>, bid: i64) -> int {
    in_batch(rs, bid).len() as int
}

pub proof fn lemma_in_batch_push(rs: Seq<Resource>, r: Resource, bid: i64)
    ensures
        in_batch(rs.push(r), bid) == if r.batch_id == Some(bid) {
            in_batch(rs, bid).push(r)
        } else {
            in_batch(rs, bid)
        },
{
    assert(rs.push(r).drop_last() =~= rs);
    assert(rs.push(r).last() == r);
}

/// A batch holds no more resources than the store does.
pub proof fn lemma_in_batch_len(rs: Seq<Resource>, bid: i64)
    ensures
        in_batch(rs, bid).len() <= rs.len(),
    decreases rs.len(),
{
    if rs.len() > 0 {
        lemma_in_batch_len(rs.drop_last(), bid);
    }
}

/// The ids of a run of resources, in the same order.
pub open spec fn ids_of(rs: Seq<Resource>) -> Seq<i64> {
    rs.map_values(|r: Resource| r.id)
}

/// The tasks committing a batch enqueues: one `PushBatch` for the batch
/// itself, then one `PushResource` per resource of the batch in insertion
/// order, with consecutive ids starting at `first_id`, all due at once.
pub open spec fn commit_tasks(
    user_id: i64,
    batch_id: i64,
    rs: Seq<Resource>,
    first_id: i64,
    now: i64,
) -> Seq<OutboxTask> {
    Seq::new(
        rs.len() + 1,
        |i: int|
            if i == 0 {
                OutboxTask {
                    id: first_id,
                    user_id,
                    kind: OutboxKind::PushBatch,
                    ref_id: batch_id,
                    attempt: 0,
                    due_at: now,
                }
            } else {
                OutboxTask {
                    id: (first_id + i) as i64,
                    user_id,
                    kind: OutboxKind::PushResource,
                    ref_id: rs[i - 1].id,
                    attempt: 0,
                    due_at: now,
                }
            },
    )
}

/// Committing a batch of N resources enqueues exactly N + 1 tasks, of which
/// exactly the first is a `PushBatch` for the batch itself, and the rest are
/// `PushResource` tasks for the batch's resources, one each, in order.
pub proof fn lemma_commit_tasks_shape(
    user_id: i64,
    batch_id: i64,
    rs: Seq<Resource>,
    first_id: i64,
    now: i64,
)
    ensures
        ({
            let tasks = commit_tasks(user_id, batch_id, rs, first_id, now);
            &&& tasks.len() == rs.len() + 1
            &&& (forall|i: int|
                0 <= i < tasks.len() ==> ((#[trigger] tasks[i]).kind == OutboxKind::PushBatch
                    <==> i == 0))
            &&& tasks[0].ref_id == batch_id
            &&& (forall|i: int|
                1 <= i < tasks.len() ==> (#[trigger] tasks[i]).ref_id == rs[i - 1].id)
        }),
{
}

/// What a commit does to the outbox as a whole: the queue grows by exactly
/// `1 + N` tasks for a batch of `N` resources, and among the appended tasks
/// exactly the first is a `PushBatch`.
pub proof fn lemma_commit_outbox_growth(
    old_outbox: Seq<OutboxTask>,
    user_id: i64,
    batch_id: i64,
    rs: Seq<Resource>,
    first_id: i64,
    now: i64,
)
    ensures
        ({
            let new_outbox = old_outbox + commit_tasks(user_id, batch_id, rs, first_id, now);
            &&& new_outbox.len() == old_outbox.len() + rs.len() + 1
            &&& (forall|i: int|
                old_outbox.len() <= i < new_outbox.len() ==> ((#[trigger] new_outbox[i]).kind
                    == OutboxKind::PushBatch <==> i == old_outbox.len()))
        }),
{
    lemma_commit_tasks_shape(user_id, batch_id, rs, first_id, now);
}

/// The count only looks at batch membership, not at the other fields.
pub proof fn lemma_count_in_batch_congruent(a: Seq<Resource>, b: Seq<Resource>, bid: i64)
    requires
        a.len() == b.len(),
        forall|i: int| 0 <= i < a.len() ==> a[i].batch_id == b[i].batch_id,
    ensures
        count_in_batch(a, bid) == count_in_batch(b, bid),
    decreases a.len(),
{
    if a.len() > 0 {
        lemma_count_in_batch_congruent(a.drop_last(), b.drop_last(), bid);
        if a.last().batch_id == Some(bid) {
            assert(b.last().batch_id == Some(bid));
        }
    }
}

/// In any run of resources whose sequence numbers obey the store's density
/// rule, the members of one batch carry the sequences 1..N in order.
pub proof fn lemma_in_batch_sequences(rs: Seq<Resource>, bid: i64)
    requires
        forall|i: int|
            0 <= i < rs.len() ==> match (#[trigger] rs[i]).batch_id {
                Some(b) => rs[i].sequence == count_in_batch(rs.take(i), b) + 1,
                None => true,
            },
    ensures
        forall|k: int|
            0 <= k < in_batch(rs, bid).len() ==> (#[trigger] in_batch(rs, bid)[k]).sequence == k
                + 1,
    decreases rs.len(),
{
    if rs.len() > 0 {
        let t = rs.drop_last();
        assert forall|i: int|
            0 <= i < t.len() implies match (#[trigger] t[i]).batch_id {
            Some(b) => t[i].sequence == count_in_batch(t.take(i), b) + 1,
            None => true,
        } by {
            assert(t[i] == rs[i]);
            assert(t.take(i) =~= rs.take(i));
        }
        lemma_in_batch_sequences(t, bid);
        if rs.last().batch_id == Some(bid) {
            assert(rs.take(rs.len() - 1) =~= t);
            assert(rs.last().sequence == count_in_batch(t, bid) + 1);
        }
    }
}

/// The scheduling rank of a task kind: batch pushes go first, so a
/// resource's parent page exists by the time the resource is tried.
pub open spec fn kind_rank(k: OutboxKind) -> int {
    if k == OutboxKind::PushBatch {
        0
    } else {
        1
    }
}

/// Task `a` is strictly preferred to task `b` by the poller: lower kind
/// rank first, then earlier due time.
pub open spec fn task_preferred(a: OutboxTask, b: OutboxTask) -> bool {
    kind_rank(a.kind) < kind_rank(b.kind) || (kind_rank(a.kind) == kind_rank(b.kind) && a.due_at
        < b.due_at)
}

/// The index of the task the poller selects among those due at `now`: the
/// most preferred one, and the earliest-queued among equally preferred ones.
pub open spec fn best_due_index(s: Seq<OutboxTask>, now: i64) -> Option<int>
    decreases s.len(),
{
    if s.len() == 0 {
        None
    } else {
        let prev = best_due_index(s.drop_last(), now);
        if s.last().due_at <= now {
            match prev {
                None => Some(s.len() - 1),
                Some(j) => if task_preferred(s.last(), s[j]) {
                    Some(s.len() - 1)
                } else {
                    Some(j)
                },
            }
        } else {
            prev
        }
    }
}

/// What the selection promises: nothing is selected exactly when nothing is
/// due; a selected task is due, no due task is strictly preferred to it, and
/// every earlier-queued due task is strictly worse.
pub proof fn lemma_best_due_props(s: Seq<OutboxTask>, now: i64)
    ensures
        match best_due_index(s, now) {
            None => forall|i: int| 0 <= i < s.len() ==> (#[trigger] s[i]).due_at > now,
            Some(j) => {
                &&& 0 <= j < s.len()
                &&& s[j].due_at <= now
                &&& (forall|i: int|
                    0 <= i < s.len() && (#[trigger] s[i]).due_at <= now ==> !task_preferred(
                        s[i],
                        s[j],
                    ))
                &&& (forall|i: int|
                    0 <= i < j && (#[trigger] s[i]).due_at <= now ==> task_preferred(s[j], s[i]))
            },
        },
    decreases s.len(),
{
    if s.len() > 0 {
        let t = s.drop_last();
        let last = s.last();
        let n = s.len() - 1;
        lemma_best_due_props(t, now);
        assert forall|i: int| 0 <= i < n implies #[trigger] s[i] == t[i] by {}
        match best_due_index(t, now) {
            None => {
                if last.due_at <= now {
                    assert(best_due_index(s, now) == Some(n));
                    assert forall|i: int|
                        0 <= i < s.len() && (#[trigger] s[i]).due_at <= now implies !task_preferred(
                        s[i],
                        s[n],
                    ) by {
                        if i < n {
                            assert(t[i].due_at > now);
                        }
                    }
                } else {
                    assert forall|i: int| 0 <= i < s.len() implies (#[trigger] s[i]).due_at
                        > now by {
                        if i < n {
                            assert(t[i].due_at > now);
                        }
                    }
                }
            },
            Some(j) => {
                assert(s[j] == t[j]);
                if last.due_at <= now && task_preferred(last, s[j]) {
                    assert(best_due_index(s, now) == Some(n));
                    assert forall|i: int|
                        0 <= i < s.len() && (#[trigger] s[i]).due_at <= now implies !task_preferred(
                        s[i],
                        s[n],
                    ) by {
                        if i < n {
                            assert(!task_preferred(t[i], t[j]));
                        }
                    }
                    assert forall|i: int|
                        0 <= i < n && (#[trigger] s[i]).due_at <= now implies task_preferred(
                        s[n],
                        s[i],
                    ) by {
                        assert(!task_preferred(t[i], t[j]));
                    }
                } else {
                    assert(best_due_index(s, now) == Some(j));
                    assert forall|i: int|
                        0 <= i < s.len() && (#[trigger] s[i]).due_at <= now implies !task_preferred(
                        s[i],
                        s[j],
                    ) by {
                        if i < n {
                            assert(!task_preferred(t[i], t[j]));
                        }
                    }
                    assert forall|i: int|
                        0 <= i < j && (#[trigger] s[i]).due_at <= now implies task_preferred(
                        s[j],
                        s[i],
                    ) by {
                        assert(task_preferred(t[j], t[i]));
                    }
                }
            },
        }
    }
}

/// The tasks are in ascending due-time order.
pub open spec fn sorted_by_due(s: Seq<OutboxTask>) -> bool {
    forall|a: int, b: int|
        0 <= a < b < s.len() ==> (#[trigger] s[a]).due_at <= (#[trigger] s[b]).due_at
}

/// Inserts a task into a run of tasks after every task due no later than
/// it, so equal due times keep their left-to-right order.
pub open spec fn insert_by_due(s: Seq<OutboxTask>, t: OutboxTask) -> Seq<OutboxTask>
    decreases s.len(),
{
    if s.len() == 0 {
        seq![t]
    } else if s.last().due_at <= t.due_at {
        s.push(t)
    } else {
        insert_by_due(s.drop_last(), t).push(s.last())
    }
}

/// The stable ascending due-time ordering of a run of tasks: each task in
/// turn is placed after every earlier-queued task due no later than it.
pub open spec fn sort_by_due(s: Seq<OutboxTask>) -> Seq<OutboxTask>
    decreases s.len(),
{
    if s.len() == 0 {
        s
    } else {
        insert_by_due(sort_by_due(s.drop_last()), s.last())
    }
}

/// On an ascending run, inserting by due time is inserting at the boundary:
/// the position where the tasks due no later than `t` end.
pub proof fn lemma_insert_by_due_at(s: Seq<OutboxTask>, t: OutboxTask, p: int)
    requires
        0 <= p <= s.len(),
        forall|k: int| 0 <= k < p ==> (#[trigger] s[k]).due_at <= t.due_at,
        forall|k: int| p <= k < s.len() ==> (#[trigger] s[k]).due_at > t.due_at,
    ensures
        insert_by_due(s, t) == s.insert(p, t),
    decreases s.len(),
{
    if s.len() == 0 {
        assert(insert_by_due(s, t) =~= s.insert(0, t));
    } else if p == s.len() {
        assert(s.last().due_at <= t.due_at);
        assert(s.push(t) =~= s.insert(p, t));
    } else {
        assert(s.last().due_at > t.due_at);
        let d = s.drop_last();
        assert forall|k: int| 0 <= k < p implies (#[trigger] d[k]).due_at <= t.due_at by {
            assert(d[k] == s[k]);
        }
        assert forall|k: int| p <= k < d.len() implies (#[trigger] d[k]).due_at > t.due_at by {
            assert(d[k] == s[k]);
        }
        lemma_insert_by_due_at(d, t, p);
        assert(d.insert(p, t).push(s.last()) =~= s.insert(p, t));
    }
}

/// Inserting at the boundary keeps the run ascending.
pub proof fn lemma_sorted_insert(s: Seq<OutboxTask>, t: OutboxTask, p: int)
    requires
        sorted_by_due(s),
        0 <= p <= s.len(),
        forall|k: int| 0 <= k < p ==> (#[trigger] s[k]).due_at <= t.due_at,
        forall|k: int| p <= k < s.len() ==> (#[trigger] s[k]).due_at > t.due_at,
    ensures
        sorted_by_due(s.insert(p, t)),
{
    let s2 = s.insert(p, t);
    assert forall|a: int, b: int|
        0 <= a < b < s2.len() implies (#[trigger] s2[a]).due_at <= (#[trigger] s2[b]).due_at by {
        assert(s2[a] == if a < p {
            s[a]
        } else if a == p {
            t
        } else {
            s[a - 1]
        });
        assert(s2[b] == if b < p {
            s[b]
        } else if b == p {
            t
        } else {
            s[b - 1]
        });
    }
}

/// The index of the task with this id, if the outbox holds one.
pub open spec fn find_task(s: Seq<OutboxTask>, id: i64) -> Option<int>
    decreases s.len(),
{
    if s.len() == 0 {
        None
    } else {
        match find_task(s.drop_last(), id) {
            Some(j) => Some(j),
            None => if s.last().id == id {
                Some(s.len() - 1)
            } else {
                None
            },
        }
    }
}

/// What the lookup promises: the found task carries the id looked for, and
/// a miss means no task carries it.
pub proof fn lemma_find_task_props(s: Seq<OutboxTask>, id: i64)
    ensures
        match find_task(s, id) {
            None => forall|i: int| 0 <= i < s.len() ==> (#[trigger] s[i]).id != id,
            Some(j) => 0 <= j < s.len() && s[j].id == id,
        },
    decreases s.len(),
{
    if s.len() > 0 {
        let t = s.drop_last();
        let n = s.len() - 1;
        lemma_find_task_props(t, id);
        assert forall|i: int| 0 <= i < n implies #[trigger] s[i] == t[i] by {}
        match find_task(t, id) {
            Some(j) => {
                assert(s[j] == t[j]);
            },
            None => {
                if s.last().id != id {
                    assert forall|i: int| 0 <= i < s.len() implies (#[trigger] s[i]).id != id by {
                        if i < n {
                            assert(t[i].id != id);
                        }
                    }
                }
            },
        }
    }
}

/// With strictly increasing ids, the lookup lands on the one position that
/// carries the id.
pub proof fn lemma_find_task_unique(s: Seq<OutboxTask>, id: i64, j: int)
    requires
        forall|a: int, b: int| 0 <= a < b < s.len() ==> (#[trigger] s[a]).id < (#[trigger] s[b]).id,
        0 <= j < s.len(),
        s[j].id == id,
    ensures
        find_task(s, id) == Some(j),
{
    lemma_find_task_props(s, id);
    match find_task(s, id) {
        None => {
            assert(s[j].id != id);
        },
        Some(k) => {
            if k < j {
                assert(s[k].id < s[j].id);
            } else if k > j {
                assert(s[j].id < s[k].id);
            }
        },
    }
}

/// A failed task's reschedule: the attempt count grows by one (staying put
/// at the integer's ceiling) and the task falls due again after the backoff
/// delay computed from the attempt it failed on.
pub open spec fn rescheduled(t: OutboxTask, cap_secs: i64, now: i64) -> OutboxTask {
    OutboxTask {
        attempt: (if t.attempt == i32::MAX {
            i32::MAX
        } else {
            (t.attempt + 1) as i32
        }),
        due_at: ((now + spec_backoff_delay(t.attempt as int, cap_secs as int)) as i64),
        ..t
    }
}

/// If nothing before position `i` carries the id and position `i` does,
/// the lookup lands exactly on `i`.
pub proof fn lemma_find_task_prefix(s: Seq<OutboxTask>, id: i64, i: int)
    requires
        0 <= i < s.len(),
        find_task(s.take(i), id) is None,
        s[i].id == id,
    ensures
        find_task(s, id) == Some(i),
    decreases s.len(),
{
    if i == s.len() - 1 {
        assert(s.drop_last() =~= s.take(i));
    } else {
        assert(s.drop_last().take(i) =~= s.take(i));
        lemma_find_task_prefix(s.drop_last(), id, i);
    }
}

/// The durable state of the system. Entities are kept in insertion order;
/// ids are 1-based and, for users, batches and resources, dense (the entity
/// with id `k` sits at index `k - 1`). Outbox tasks keep their ids but may
/// be deleted, so their ids are strictly increasing rather than dense.
pub struct Store {
    pub users: Vec<User>,
    pub batches: Vec<Batch>,
    pub resources: Vec<Resource>,
    pub outbox: Vec<OutboxTask>,
    /// Id the next enqueued task will get.
    pub next_outbox_id: i64,
    /// Observability cursor: the last task id a worker reported done.
    /// Never consulted for correctness.
    pub last_processed_outbox_id: i64,
}

impl Store {
    /// The current-batch pointer of `user_id`: its single non-terminal
    /// batch, if any.
    pub open spec fn spec_current_batch(self, user_id: i64) -> Option<i64> {
        if 1 <= user_id && user_id <= self.users@.len() {
            self.users@[user_id - 1].current_batch
        } else {
            None
        }
    }

    /// `user_id` names a user of the store.
    pub open spec fn is_user(self, user_id: i64) -> bool {
        1 <= user_id && user_id <= self.users@.len()
    }

    /// `batch_id` names a batch of the store.
    pub open spec fn is_batch(self, batch_id: i64) -> bool {
        1 <= batch_id && batch_id <= self.batches@.len()
    }

    /// `resource_id` names a resource of the store.
    pub open spec fn is_resource(self, resource_id: i64) -> bool {
        1 <= resource_id && resource_id <= self.resources@.len()
    }

    pub open spec fn wf_users(self) -> bool {
        &&& (forall|i: int|
            0 <= i < self.users@.len() ==> (#[trigger] self.users@[i]).id == i + 1)
        &&& (forall|i: int, j: int|
            0 <= i < j < self.users@.len() ==> (#[trigger] self.users@[i]).tg_user_id != (
            #[trigger] self.users@[j]).tg_user_id)
        &&& (forall|i: int|
            0 <= i < self.users@.len() ==> match (#[trigger] self.users@[i]).current_batch {
                Some(b) => self.is_batch(b) && self.batches@[b - 1].user_id == i + 1
                    && self.batches@[b - 1].state.is_non_terminal(),
                None => true,
            })
    }

    pub open spec fn wf_batches(self) -> bool {
        &&& (forall|i: int|
            0 <= i < self.batches@.len() ==> (#[trigger] self.batches@[i]).id == i + 1)
        &&& (forall|i: int|
            0 <= i < self.batches@.len() ==> self.is_user(
                (#[trigger] self.batches@[i]).user_id,
            ))
        &&& (forall|i: int|
            0 <= i < self.batches@.len() && (#[trigger] self.batches@[i]).state.is_non_terminal()
                ==> self.users@[self.batches@[i].user_id - 1].current_batch == Some(
                self.batches@[i].id,
            ))
    }

    pub open spec fn wf_resources(self) -> bool {
        &&& (forall|i: int|
            0 <= i < self.resources@.len() ==> (#[trigger] self.resources@[i]).id == i + 1)
        &&& (forall|i: int|
            0 <= i < self.resources@.len() ==> self.is_user(
                (#[trigger] self.resources@[i]).user_id,
            ))
        &&& (forall|i: int|
            0 <= i < self.resources@.len() ==> match (#[trigger] self.resources@[i]).batch_id {
                Some(b) => self.is_batch(b) && self.resources@[i].sequence == count_in_batch(
                    self.resources@.take(i),
                    b,
                ) + 1,
                None => self.resources@[i].sequence == 1,
            })
    }

    pub open spec fn wf_outbox(self) -> bool {
        &&& self.next_outbox_id >= 1
        &&& (forall|i: int|
            0 <= i < self.outbox@.len() ==> 1 <= (#[trigger] self.outbox@[i]).id
                < self.next_outbox_id)
        &&& (forall|i: int, j: int|
            0 <= i < j < self.outbox@.len() ==> (#[trigger] self.outbox@[i]).id < (
            #[trigger] self.outbox@[j]).id)
        &&& (forall|i: int|
            0 <= i < self.outbox@.len() ==> (#[trigger] self.outbox@[i]).attempt >= 0)
    }

    /// Every invariant of the store together.
    pub open spec fn wf(self) -> bool {
        self.wf_users() && self.wf_batches() && self.wf_resources() && self.wf_outbox()
    }

    /// At most one non-terminal batch per user: any two batches that are
    /// both still open or waiting for a title and belong to the same user
    /// are the same batch.
    pub proof fn lemma_at_most_one_active_batch(self, i: int, j: int)
        requires
            self.wf(),
            0 <= i < self.batches@.len(),
            0 <= j < self.batches@.len(),
            self.batches@[i].state.is_non_terminal(),
            self.batches@[j].state.is_non_terminal(),
            self.batches@[i].user_id == self.batches@[j].user_id,
        ensures
            i == j,
    {
        assert(self.users@[self.batches@[i].user_id - 1].current_batch == Some(
            self.batches@[i].id,
        ));
        assert(self.users@[self.batches@[j].user_id - 1].current_batch == Some(
            self.batches@[j].id,
        ));
    }

    /// Dense ids are `i64` values, so the dense tables cannot outgrow them.
    pub proof fn lemma_len_bounds(self)
        requires
            self.wf(),
        ensures
            self.users@.len() <= i64::MAX,
            self.batches@.len() <= i64::MAX,
            self.resources@.len() <= i64::MAX,
    {
        if self.users@.len() > 0 {
            assert(self.users@[self.users@.len() - 1].id == self.users@.len());
        }
        if self.batches@.len() > 0 {
            assert(self.batches@[self.batches@.len() - 1].id == self.batches@.len());
        }
        if self.resources@.len() > 0 {
            assert(self.resources@[self.resources@.len() - 1].id == self.resources@.len());
        }
    }

    /// Per-batch sequence density: in a well-formed store, the resources of
    /// any batch carry the sequence numbers 1..N in insertion order. In
    /// particular the first resource inserted into a batch has sequence 1
    /// and the Nth has sequence N, whatever else was inserted in between.
    pub proof fn lemma_batch_sequences_dense(self, batch_id: i64)
        requires
            self.wf(),
        ensures
            forall|k: int|
                0 <= k < in_batch(self.resources@, batch_id).len() ==> (#[trigger] in_batch(
                    self.resources@,
                    batch_id,
                )[k]).sequence == k + 1,
    {
        lemma_in_batch_sequences(self.resources@, batch_id);
    }

    /// An empty store is well formed.
    pub fn new() -> (s: Store)
        ensures
            s.wf(),
            s.users@.len() == 0,
            s.batches@.len() == 0,
            s.resources@.len() == 0,
            s.outbox@.len() == 0,
            s.next_outbox_id == 1,
            s.last_processed_outbox_id == 0,
    {
        Store {
            users: Vec::new(),
            batches: Vec::new(),
            resources: Vec::new(),
            outbox: Vec::new(),
            next_outbox_id: 1,
            last_processed_outbox_id: 0,
        }
    }

    /// The index of the user carrying this external identity, if any.
    pub open spec fn spec_find_user_by_tg(self, tg_user_id: i64) -> Option<int> {
        if exists|i: int| 0 <= i < self.users@.len() && (#[trigger] self.users@[i]).tg_user_id
            == tg_user_id {
            Some(
                choose|i: int|
                    0 <= i < self.users@.len() && (#[trigger] self.users@[i]).tg_user_id
                        == tg_user_id,
            )
        } else {
            None
        }
    }

    /// Returns the id of the user with this external identity, creating the
    /// user on first sighting. A created user starts with no current batch.
    pub fn get_or_create_user(
        &mut self,
        tg_user_id: i64,
        username: Option<&str>,
        full_name: Option<&str>,
        now: i64,
    ) -> (id: i64)
        requires
            old(self).wf(),
            old(self).users@.len() < i64::MAX,
        ensures
            final(self).wf(),
            final(self).is_user(id),
            final(self).users@[id - 1].tg_user_id == tg_user_id,
            match old(self).spec_find_user_by_tg(tg_user_id) {
                Some(i) => *final(self) == *old(self) && id == i + 1,
                None => {
                    &&& id == old(self).users@.len() + 1
                    &&& final(self).users@.len() == old(self).users@.len() + 1
                    &&& final(self).users@.take(id - 1) == old(self).users@
                    &&& final(self).users@[id - 1].current_batch is None
                    &&& final(self).users@[id - 1].created_at == now
                    &&& match username {
                        Some(s) => final(self).users@[id - 1].username matches Some(t) && t@
                            == s@,
                        None => final(self).users@[id - 1].username is None,
                    }
                    &&& match full_name {
                        Some(s) => final(self).users@[id - 1].full_name matches Some(t) && t@
                            == s@,
                        None => final(self).users@[id - 1].full_name is None,
                    }
                    &&& final(self).batches == old(self).batches
                    &&& final(self).resources == old(self).resources
                    &&& final(self).outbox == old(self).outbox
                    &&& final(self).next_outbox_id == old(self).next_outbox_id
                    &&& final(self).last_processed_outbox_id == old(
                        self,
                    ).last_processed_outbox_id
                },
            },
    {
        let n = self.users.len();
        let mut i: usize = 0;
        while i < n
            invariant
                n == self.users@.len(),
                i <= n,
                forall|j: int| 0 <= j < i ==> (#[trigger] self.users@[j]).tg_user_id != tg_user_id,
                self.wf(),
            decreases n - i,
        {
            if self.users[i].tg_user_id == tg_user_id {
                assert(self.spec_find_user_by_tg(tg_user_id) matches Some(k) && k == i) by {
                    let k = choose|k: int|
                        0 <= k < self.users@.len() && (#[trigger] self.users@[k]).tg_user_id
                            == tg_user_id;
                    if k != i {
                        assert(self.users@[k].tg_user_id != self.users@[i as int].tg_user_id);
                    }
                };
                return self.users[i].id;
            }
            i += 1;
        }
        assert(old(self).spec_find_user_by_tg(tg_user_id) is None);
        let id: i64 = (n as i64) + 1;
        let user = User {
            id,
            tg_user_id,
            username: match username {
                Some(s) => Some(s.to_owned()),
                None => None,
            },
            full_name: match full_name {
                Some(s) => Some(s.to_owned()),
                None => None,
            },
            created_at: now,
            current_batch: None,
        };
        self.users.push(user);
        assert(self.users@.take(id - 1) =~= old(self).users@);
        id
    }

    /// Opens a new batch for the user and installs the current-batch
    /// pointer, atomically. Fails with `AlreadyOpen` if, and only if, the
    /// user already has a non-terminal batch.
    pub fn open_batch(&mut self, user_id: i64, now: i64) -> (r: Result<i64, StoreError>)
        requires
            old(self).wf(),
            old(self).is_user(user_id),
            old(self).batches@.len() < i64::MAX,
        ensures
            final(self).wf(),
            match old(self).spec_current_batch(user_id) {
                Some(_) => r == Err::<i64, StoreError>(StoreError::AlreadyOpen) && *final(self)
                    == *old(self),
                None => {
                    &&& r == Ok::<i64, StoreError>(((old(self).batches@.len() + 1) as i64))
                    &&& final(self).batches@ == old(self).batches@.push(
                        (Batch {
                            id: ((old(self).batches@.len() + 1) as i64),
                            user_id,
                            state: BatchState::Open,
                            title: None,
                            notion_page_id: None,
                            created_at: now,
                            committed_at: None,
                            rolled_back_at: None,
                        }),
                    )
                    &&& final(self).users@ == old(self).users@.update(
                        user_id - 1,
                        (User {
                            current_batch: Some(((old(self).batches@.len() + 1) as i64)),
                            ..old(self).users@[user_id - 1]
                        }),
                    )
                    &&& final(self).resources == old(self).resources
                    &&& final(self).outbox == old(self).outbox
                    &&& final(self).next_outbox_id == old(self).next_outbox_id
                    &&& final(self).last_processed_outbox_id == old(
                        self,
                    ).last_processed_outbox_id
                },
            },
    {
        proof {
            self.lemma_len_bounds();
        }
        // Binding the table length makes the id-to-index cast provably lossless.
        let _users_len = self.users.len();
        let idx = (user_id - 1) as usize;
        if self.users[idx].current_batch.is_some() {
            return Err(StoreError::AlreadyOpen);
        }
        let bid: i64 = self.batches.len() as i64 + 1;
        self.batches.push(
            Batch {
                id: bid,
                user_id,
                state: BatchState::Open,
                title: None,
                notion_page_id: None,
                created_at: now,
                committed_at: None,
                rolled_back_at: None,
            },
        );
        let u = &self.users[idx];
        let nu = User {
            id: u.id,
            tg_user_id: u.tg_user_id,
            username: clone_opt_string(&u.username),
            full_name: clone_opt_string(&u.full_name),
            created_at: u.created_at,
            current_batch: Some(bid),
        };
        self.users[idx] = nu;
        Ok(bid)
    }

    /// Moves the user's current batch from `Open` to `WaitingTitle`. Fails
    /// with `NoOpenBatch` if, and only if, the user has no current batch or
    /// its state is not `Open`.
    pub fn mark_current_batch_waiting_title(&mut self, user_id: i64) -> (r: Result<
        (),
        StoreError,
    >)
        requires
            old(self).wf(),
            old(self).is_user(user_id),
        ensures
            final(self).wf(),
            match old(self).spec_current_batch(user_id) {
                Some(b) => if old(self).batches@[b - 1].state == BatchState::Open {
                    &&& r == Ok::<(), StoreError>(())
                    &&& final(self).batches@ == old(self).batches@.update(
                        b - 1,
                        (Batch { state: BatchState::WaitingTitle, ..old(self).batches@[b - 1] }),
                    )
                    &&& final(self).users == old(self).users
                    &&& final(self).resources == old(self).resources
                    &&& final(self).outbox == old(self).outbox
                    &&& final(self).next_outbox_id == old(self).next_outbox_id
                    &&& final(self).last_processed_outbox_id == old(
                        self,
                    ).last_processed_outbox_id
                } else {
                    r == Err::<(), StoreError>(StoreError::NoOpenBatch) && *final(self) == *old(
                        self,
                    )
                },
                None => r == Err::<(), StoreError>(StoreError::NoOpenBatch) && *final(self)
                    == *old(self),
            },
    {
        proof {
            self.lemma_len_bounds();
        }
        // Binding the table length makes the id-to-index cast provably lossless.
        let _users_len = self.users.len();
        let idx = (user_id - 1) as usize;
        let b = match self.users[idx].current_batch {
            Some(b) => b,
            None => {
                return Err(StoreError::NoOpenBatch);
            },
        };
        assert(self.is_batch(b));
        let _batches_len = self.batches.len();
        let bidx = (b - 1) as usize;
        match self.batches[bidx].state {
            BatchState::Open => {},
            _ => {
                return Err(StoreError::NoOpenBatch);
            },
        }
        let ob = &self.batches[bidx];
        let updated = Batch {
            id: ob.id,
            user_id: ob.user_id,
            state: BatchState::WaitingTitle,
            title: clone_opt_string(&ob.title),
            notion_page_id: clone_opt_string(&ob.notion_page_id),
            created_at: ob.created_at,
            committed_at: ob.committed_at,
            rolled_back_at: ob.rolled_back_at,
        };
        self.batches[bidx] = updated;
        Ok(())
    }

    /// Rolls the user's current batch back: the batch becomes terminal, the
    /// pointer is cleared, and nothing is enqueued. The batch's resources
    /// stay in the store but no task will ever reference them. Fails with
    /// `NoOpenBatch` if, and only if, the user has no current batch.
    pub fn rollback_batch(&mut self, user_id: i64, now: i64) -> (r: Result<(), StoreError>)
        requires
            old(self).wf(),
            old(self).is_user(user_id),
        ensures
            final(self).wf(),
            match old(self).spec_current_batch(user_id) {
                Some(b) => {
                    &&& r == Ok::<(), StoreError>(())
                    &&& final(self).batches@ == old(self).batches@.update(
                        b - 1,
                        (Batch {
                            state: BatchState::RolledBack,
                            rolled_back_at: Some(now),
                            ..old(self).batches@[b - 1]
                        }),
                    )
                    &&& final(self).users@ == old(self).users@.update(
                        user_id - 1,
                        (User { current_batch: None, ..old(self).users@[user_id - 1] }),
                    )
                    &&& final(self).resources == old(self).resources
                    &&& final(self).outbox == old(self).outbox
                    &&& final(self).next_outbox_id == old(self).next_outbox_id
                    &&& final(self).last_processed_outbox_id == old(
                        self,
                    ).last_processed_outbox_id
                },
                None => r == Err::<(), StoreError>(StoreError::NoOpenBatch) && *final(self)
                    == *old(self),
            },
    {
        proof {
            self.lemma_len_bounds();
        }
        // Binding the table length makes the id-to-index cast provably lossless.
        let _users_len = self.users.len();
        let idx = (user_id - 1) as usize;
        let b = match self.users[idx].current_batch {
            Some(b) => b,
            None => {
                return Err(StoreError::NoOpenBatch);
            },
        };
        assert(self.is_batch(b));
        let _batches_len = self.batches.len();
        let bidx = (b - 1) as usize;
        let ob = &self.batches[bidx];
        let updated = Batch {
            id: ob.id,
            user_id: ob.user_id,
            state: BatchState::RolledBack,
            title: clone_opt_string(&ob.title),
            notion_page_id: clone_opt_string(&ob.notion_page_id),
            created_at: ob.created_at,
            committed_at: ob.committed_at,
            rolled_back_at: Some(now),
        };
        self.batches[bidx] = updated;
        let u = &self.users[idx];
        let nu = User {
            id: u.id,
            tg_user_id: u.tg_user_id,
            username: clone_opt_string(&u.username),
            full_name: clone_opt_string(&u.full_name),
            created_at: u.created_at,
            current_batch: None,
        };
        self.users[idx] = nu;
        Ok(())
    }

    /// Commits the user's current batch: marks it `Committed`, stores the
    /// title (falling back to the previously stored one when none is given),
    /// enqueues one `PushBatch` task plus one `PushResource` task per
    /// resource already in the batch, and clears the current-batch pointer —
    /// all in one step, so a batch is never committed without its tasks.
    /// Fails with `NoOpenBatch` if, and only if, no batch is open or waiting.
    pub fn commit_batch(&mut self, user_id: i64, title: Option<&str>, now: i64) -> (r: Result<
        i64,
        StoreError,
    >)
        requires
            old(self).wf(),
            old(self).is_user(user_id),
            old(self).next_outbox_id + old(self).resources@.len() + 1 <= i64::MAX,
        ensures
            final(self).wf(),
            match old(self).spec_current_batch(user_id) {
                None => r == Err::<i64, StoreError>(StoreError::NoOpenBatch) && *final(self)
                    == *old(self),
                Some(b) => {
                    &&& r == Ok::<i64, StoreError>(b)
                    &&& final(self).batches@.len() == old(self).batches@.len()
                    &&& (forall|j: int|
                        0 <= j < old(self).batches@.len() && j != b - 1 ==> old(self).batches@[j]
                            == final(self).batches@[j])
                    &&& ({
                        let nb = final(self).batches@[b - 1];
                        let ob = old(self).batches@[b - 1];
                        &&& nb.id == ob.id
                        &&& nb.user_id == ob.user_id
                        &&& nb.state == BatchState::Committed
                        &&& nb.notion_page_id == ob.notion_page_id
                        &&& nb.created_at == ob.created_at
                        &&& nb.committed_at == Some(now)
                        &&& nb.rolled_back_at == ob.rolled_back_at
                        &&& match title {
                            Some(t) => nb.title matches Some(tt) && tt@ == t@,
                            None => nb.title == ob.title,
                        }
                    })
                    &&& final(self).users@ == old(self).users@.update(
                        user_id - 1,
                        (User { current_batch: None, ..old(self).users@[user_id - 1] }),
                    )
                    &&& final(self).outbox@ == old(self).outbox@ + commit_tasks(
                        user_id,
                        b,
                        in_batch(old(self).resources@, b),
                        old(self).next_outbox_id,
                        now,
                    )
                    &&& final(self).next_outbox_id == old(self).next_outbox_id + count_in_batch(
                        old(self).resources@,
                        b,
                    ) + 1
                    &&& final(self).resources == old(self).resources
                    &&& final(self).last_processed_outbox_id == old(
                        self,
                    ).last_processed_outbox_id
                },
            },
    {
        proof {
            self.lemma_len_bounds();
        }
        // Binding the table length makes the id-to-index cast provably lossless.
        let _users_len = self.users.len();
        let idx = (user_id - 1) as usize;
        let b = match self.users[idx].current_batch {
            Some(b) => b,
            None => {
                return Err(StoreError::NoOpenBatch);
            },
        };
        assert(self.is_batch(b));
        let nbatches = self.batches.len();
        let bidx = (b - 1) as usize;

        // Gather the batch's resource ids in insertion order.
        let ghost rs = in_batch(self.resources@, b);
        proof {
            lemma_in_batch_len(self.resources@, b);
        }
        let nres = self.resources.len();
        let mut rids: Vec<i64> = Vec::new();
        let mut i: usize = 0;
        proof {
            assert(self.resources@.take(0) =~= Seq::<Resource>::empty());
            assert(ids_of(in_batch(self.resources@.take(0), b)) =~= Seq::<i64>::empty());
        }
        while i < nres
            invariant
                *self == *old(self),
                nres == self.resources@.len(),
                i <= nres,
                rids@ == ids_of(in_batch(self.resources@.take(i as int), b)),
                rids@.len() == in_batch(self.resources@.take(i as int), b).len(),
            decreases nres - i,
        {
            let ghost prefix = self.resources@.take(i as int);
            let ghost r = self.resources@[i as int];
            let hit = match self.resources[i].batch_id {
                Some(bb) => bb == b,
                None => false,
            };
            proof {
                assert(self.resources@.take(i + 1) =~= prefix.push(r));
                lemma_in_batch_push(prefix, r, b);
                if r.batch_id == Some(b) {
                    assert(ids_of(in_batch(prefix, b).push(r)) =~= ids_of(
                        in_batch(prefix, b),
                    ).push(r.id));
                }
            }
            if hit {
                let rid = self.resources[i].id;
                rids.push(rid);
            }
            i += 1;
        }
        proof {
            assert(self.resources@.take(nres as int) =~= self.resources@);
            lemma_in_batch_len(self.resources@, b);
        }

        // Mark the batch committed, storing the title.
        let ob = &self.batches[bidx];
        let new_title: Option<String> = match title {
            Some(t) => Some(t.to_owned()),
            None => clone_opt_string(&ob.title),
        };
        let updated = Batch {
            id: ob.id,
            user_id: ob.user_id,
            state: BatchState::Committed,
            title: new_title,
            notion_page_id: clone_opt_string(&ob.notion_page_id),
            created_at: ob.created_at,
            committed_at: Some(now),
            rolled_back_at: ob.rolled_back_at,
        };
        self.batches[bidx] = updated;

        // Enqueue the batch's own task, then one task per resource.
        let ghost base = self.next_outbox_id;
        let ghost tasks = commit_tasks(user_id, b, rs, base, now);
        let ghost users1 = self.users@;
        let ghost batches1 = self.batches@;
        self.enqueue_outbox(user_id, OutboxKind::PushBatch, b, now);
        proof {
            assert(self.outbox@ =~= old(self).outbox@ + tasks.take(1));
        }
        let nrids = rids.len();
        let mut k: usize = 0;
        while k < nrids
            invariant
                k <= nrids,
                nrids == rids@.len(),
                nrids == rs.len(),
                rids@ == ids_of(rs),
                tasks == commit_tasks(user_id, b, rs, base, now),
                base + rs.len() + 1 <= i64::MAX,
                base >= 1,
                self.next_outbox_id == base + 1 + k,
                self.outbox@ == old(self).outbox@ + tasks.take(1 + k as int),
                self.wf_outbox(),
                self.users@ == users1,
                self.batches@ == batches1,
                self.resources == old(self).resources,
                self.last_processed_outbox_id == old(self).last_processed_outbox_id,
            decreases nrids - k,
        {
            let rid = rids[k];
            self.enqueue_outbox(user_id, OutboxKind::PushResource, rid, now);
            proof {
                assert(tasks[1 + k as int].ref_id == rs[k as int].id);
                assert(self.outbox@ =~= old(self).outbox@ + tasks.take(2 + k as int));
            }
            k += 1;
        }
        proof {
            assert(tasks.take(1 + nrids as int) =~= tasks);
        }

        // Clear the current-batch pointer.
        let u = &self.users[idx];
        let nu = User {
            id: u.id,
            tg_user_id: u.tg_user_id,
            username: clone_opt_string(&u.username),
            full_name: clone_opt_string(&u.full_name),
            created_at: u.created_at,
            current_batch: None,
        };
        self.users[idx] = nu;
        Ok(b)
    }

    /// Appends one task to the outbox and returns its id. This is the
    /// transactional enqueue helper: it only asks for a well-formed outbox,
    /// so the state-changing operations can call it mid-transaction; it
    /// touches nothing but the outbox, so every other invariant survives.
    pub fn enqueue_outbox(
        &mut self,
        user_id: i64,
        kind: OutboxKind,
        ref_id: i64,
        due_at: i64,
    ) -> (id: i64)
        requires
            old(self).wf_outbox(),
            old(self).next_outbox_id < i64::MAX,
        ensures
            final(self).wf_outbox(),
            id == old(self).next_outbox_id,
            final(self).outbox@ == old(self).outbox@.push(
                (OutboxTask { id, user_id, kind, ref_id, attempt: 0, due_at }),
            ),
            final(self).next_outbox_id == old(self).next_outbox_id + 1,
            final(self).users == old(self).users,
            final(self).batches == old(self).batches,
            final(self).resources == old(self).resources,
            final(self).last_processed_outbox_id == old(self).last_processed_outbox_id,
    {
        let id = self.next_outbox_id;
        self.outbox.push(OutboxTask { id, user_id, kind, ref_id, attempt: 0, due_at });
        self.next_outbox_id = id + 1;
        id
    }

    /// How many resources batch `batch_id` holds so far.
    fn count_batch_resources(&self, batch_id: i64) -> (cnt: i64)
        requires
            self.wf(),
        ensures
            cnt == count_in_batch(self.resources@, batch_id),
            0 <= cnt <= self.resources@.len(),
    {
        let n = self.resources.len();
        let mut cnt: i64 = 0;
        let mut i: usize = 0;
        proof {
            self.lemma_len_bounds();
            assert(self.resources@.take(0) =~= Seq::<Resource>::empty());
        }
        while i < n
            invariant
                n == self.resources@.len(),
                i <= n,
                n <= i64::MAX,
                0 <= cnt <= i,
                cnt == count_in_batch(self.resources@.take(i as int), batch_id),
            decreases n - i,
        {
            let ghost prefix = self.resources@.take(i as int);
            let ghost r = self.resources@[i as int];
            let hit = match self.resources[i].batch_id {
                Some(bb) => bb == batch_id,
                None => false,
            };
            proof {
                assert(self.resources@.take(i + 1) =~= prefix.push(r));
                lemma_in_batch_push(prefix, r, batch_id);
            }
            if hit {
                cnt = cnt + 1;
            }
            i += 1;
        }
        proof {
            self.lemma_len_bounds();
            assert(self.resources@.take(n as int) =~= self.resources@);
        }
        cnt
    }

    /// The sequence number the next resource inserted into this batch will
    /// receive: one more than the batch currently holds.
    pub fn next_resource_sequence(&self, batch_id: i64) -> (r: i64)
        requires
            self.wf(),
            self.resources@.len() < i64::MAX,
        ensures
            r == count_in_batch(self.resources@, batch_id) + 1,
    {
        self.count_batch_resources(batch_id) + 1
    }

    /// Inserts a resource, computing its 1-based position within its batch
    /// in the same step; a standalone resource (no batch) gets sequence 1
    /// and — only then — immediately enqueues a `PushResource` task, since
    /// nothing else would ever sync it. Returns the new resource's id.
    pub fn insert_resource(
        &mut self,
        user_id: i64,
        batch_id: Option<i64>,
        kind: &str,
        content: &str,
        tg_message_id: i32,
        now: i64,
    ) -> (id: i64)
        requires
            old(self).wf(),
            old(self).is_user(user_id),
            batch_id matches Some(b) ==> old(self).is_batch(b),
            old(self).resources@.len() < i64::MAX,
            old(self).next_outbox_id < i64::MAX,
        ensures
            final(self).wf(),
            id == old(self).resources@.len() + 1,
            final(self).resources@.len() == old(self).resources@.len() + 1,
            final(self).resources@.take(id - 1) == old(self).resources@,
            ({
                let r = final(self).resources@[id - 1];
                &&& r.id == id
                &&& r.user_id == user_id
                &&& r.batch_id == batch_id
                &&& r.kind@ == kind@
                &&& r.content@ == content@
                &&& r.tg_message_id == tg_message_id
                &&& r.created_at == now
                &&& r.sequence == match batch_id {
                    Some(b) => count_in_batch(old(self).resources@, b) + 1,
                    None => 1,
                }
                &&& if kind@ == "text"@ {
                    r.text matches Some(t) && t@ == content@
                } else {
                    r.text is None
                }
                &&& r.media_name is None
                &&& r.media_url is None
                &&& r.notion_page_id is None
            }),
            match batch_id {
                Some(_) => final(self).outbox == old(self).outbox && final(self).next_outbox_id
                    == old(self).next_outbox_id,
                None => final(self).outbox@ == old(self).outbox@.push(
                    (OutboxTask {
                        id: old(self).next_outbox_id,
                        user_id,
                        kind: OutboxKind::PushResource,
                        ref_id: id,
                        attempt: 0,
                        due_at: now,
                    }),
                ) && final(self).next_outbox_id == old(self).next_outbox_id + 1,
            },
            final(self).users == old(self).users,
            final(self).batches == old(self).batches,
            final(self).last_processed_outbox_id == old(self).last_processed_outbox_id,
    {
        let sequence: i64 = match batch_id {
            Some(b) => self.count_batch_resources(b) + 1,
            None => 1,
        };
        let id: i64 = self.resources.len() as i64 + 1;
        let text: Option<String> = if str_eq(kind, "text") {
            Some(content.to_owned())
        } else {
            None
        };
        let resource = Resource {
            id,
            user_id,
            batch_id,
            kind: kind.to_owned(),
            content: content.to_owned(),
            tg_message_id,
            sequence,
            text,
            media_name: None,
            media_url: None,
            notion_page_id: None,
            created_at: now,
        };
        self.resources.push(resource);
        proof {
            let oldrs = old(self).resources@;
            let newrs = self.resources@;
            assert(newrs.take(id - 1) =~= oldrs);
            assert forall|i: int| 0 <= i < oldrs.len() implies newrs.take(i) == oldrs.take(i) by {
                assert(newrs.take(i) =~= oldrs.take(i));
            }
        }
        if batch_id.is_none() {
            self.enqueue_outbox(user_id, OutboxKind::PushResource, id, now);
        }
        id
    }

    /// Every outbox id is at least its position plus one, because ids are
    /// strictly increasing and start at one.
    pub proof fn lemma_outbox_ids_lower(self, i: int)
        requires
            self.wf_outbox(),
            0 <= i < self.outbox@.len(),
        ensures
            self.outbox@[i].id >= i + 1,
        decreases i,
    {
        if i > 0 {
            self.lemma_outbox_ids_lower(i - 1);
        }
    }

    /// The outbox cannot hold more tasks than ids below `next_outbox_id`.
    pub proof fn lemma_outbox_len_bound(self)
        requires
            self.wf_outbox(),
        ensures
            self.outbox@.len() < i64::MAX,
    {
        if self.outbox@.len() > 0 {
            self.lemma_outbox_ids_lower(self.outbox@.len() - 1);
        }
    }

    /// The due task the poller selects, as `(id, user_id, kind, ref_id,
    /// attempt)`: among tasks due at `now`, a `PushBatch` over a
    /// `PushResource`, then the earliest due time, then the earliest queued.
    /// `None` exactly when no task is due.
    pub fn next_due_outbox(&self, now: i64) -> (r: Option<(i64, i64, OutboxKind, i64, i32)>)
        requires
            self.wf(),
        ensures
            r == match best_due_index(self.outbox@, now) {
                None => None::<(i64, i64, OutboxKind, i64, i32)>,
                Some(j) => {
                    let t = self.outbox@[j];
                    Some((t.id, t.user_id, t.kind, t.ref_id, t.attempt))
                },
            },
    {
        let n = self.outbox.len();
        let mut best: Option<usize> = None;
        let mut i: usize = 0;
        proof {
            assert(self.outbox@.take(0) =~= Seq::<OutboxTask>::empty());
        }
        while i < n
            invariant
                n == self.outbox@.len(),
                i <= n,
                match best {
                    None => best_due_index(self.outbox@.take(i as int), now) is None,
                    Some(bj) => bj < i && best_due_index(self.outbox@.take(i as int), now)
                        == Some(bj as int),
                },
            decreases n - i,
        {
            let ghost prefix = self.outbox@.take(i as int);
            let t = &self.outbox[i];
            proof {
                assert(self.outbox@.take(i + 1) =~= prefix.push(self.outbox@[i as int]));
                assert(prefix.push(self.outbox@[i as int]).drop_last() =~= prefix);
                assert(forall|k: int| 0 <= k < i ==> prefix[k] == #[trigger] self.outbox@[k]);
            }
            if t.due_at <= now {
                let take_it = match best {
                    None => true,
                    Some(bj) => {
                        let bt = &self.outbox[bj];
                        let t_rank: u8 = match t.kind {
                            OutboxKind::PushBatch => 0,
                            OutboxKind::PushResource => 1,
                        };
                        let b_rank: u8 = match bt.kind {
                            OutboxKind::PushBatch => 0,
                            OutboxKind::PushResource => 1,
                        };
                        t_rank < b_rank || (t_rank == b_rank && t.due_at < bt.due_at)
                    },
                };
                if take_it {
                    best = Some(i);
                }
            }
            i += 1;
        }
        proof {
            assert(self.outbox@.take(n as int) =~= self.outbox@);
        }
        match best {
            None => None,
            Some(bj) => {
                let t = &self.outbox[bj];
                Some((t.id, t.user_id, t.kind, t.ref_id, t.attempt))
            },
        }
    }

    /// The due tasks as `(id, kind, ref_id)`, in ascending due-time order;
    /// tasks due at the same time keep their queue order.
    pub fn list_due_outbox(&self, now: i64) -> (r: Vec<(i64, OutboxKind, i64)>)
        requires
            self.wf(),
        ensures
            r@ == sort_by_due(self.outbox@.filter(|t: OutboxTask| t.due_at <= now)).map_values(
                |t: OutboxTask| (t.id, t.kind, t.ref_id),
            ),
    {
        let n = self.outbox.len();
        let mut due: Vec<OutboxTask> = Vec::new();
        let mut i: usize = 0;
        proof {
            assert(self.outbox@.take(0) =~= Seq::<OutboxTask>::empty());
            assert(self.outbox@.take(0).filter(|t: OutboxTask| t.due_at <= now)
                =~= Seq::<OutboxTask>::empty());
        }
        while i < n
            invariant
                n == self.outbox@.len(),
                i <= n,
                due@ == sort_by_due(
                    self.outbox@.take(i as int).filter(|t: OutboxTask| t.due_at <= now),
                ),
                sorted_by_due(due@),
            decreases n - i,
        {
            let ghost prefix = self.outbox@.take(i as int);
            let ghost tg = self.outbox@[i as int];
            let t = self.outbox[i];
            proof {
                assert(self.outbox@.take(i + 1) =~= prefix.push(tg));
                reveal_with_fuel(Seq::filter, 2);
                assert(prefix.push(tg).drop_last() =~= prefix);
                if tg.due_at <= now {
                    assert(prefix.push(tg).filter(|t: OutboxTask| t.due_at <= now) =~= prefix
                        .filter(|t: OutboxTask| t.due_at <= now).push(tg));
                    let f = prefix.filter(|t: OutboxTask| t.due_at <= now);
                    assert(f.push(tg).drop_last() =~= f);
                    assert(sort_by_due(f.push(tg)) == insert_by_due(sort_by_due(f), tg));
                } else {
                    assert(prefix.push(tg).filter(|t: OutboxTask| t.due_at <= now) =~= prefix
                        .filter(|t: OutboxTask| t.due_at <= now));
                }
            }
            if t.due_at <= now {
                // Insert after every task due no later, so the run stays
                // ascending and ties keep queue order.
                let m = due.len();
                let mut p: usize = 0;
                while p < m && due[p].due_at <= t.due_at
                    invariant
                        m == due@.len(),
                        p <= m,
                        forall|k: int| 0 <= k < p ==> (#[trigger] due@[k]).due_at <= t.due_at,
                    decreases m - p,
                {
                    p += 1;
                }
                proof {
                    assert forall|k: int|
                        p <= k < due@.len() implies (#[trigger] due@[k]).due_at > t.due_at by {
                        if p < due@.len() {
                            assert(due@[p as int].due_at > t.due_at);
                        }
                    }
                    lemma_insert_by_due_at(due@, tg, p as int);
                    lemma_sorted_insert(due@, tg, p as int);
                }
                due.insert(p, t);
            }
            i += 1;
        }
        proof {
            assert(self.outbox@.take(n as int) =~= self.outbox@);
        }
        let m = due.len();
        let mut out: Vec<(i64, OutboxKind, i64)> = Vec::new();
        let mut k: usize = 0;
        proof {
            assert(due@.take(0).map_values(|t: OutboxTask| (t.id, t.kind, t.ref_id))
                =~= Seq::<(i64, OutboxKind, i64)>::empty());
        }
        while k < m
            invariant
                m == due@.len(),
                k <= m,
                out@ == due@.take(k as int).map_values(|t: OutboxTask| (t.id, t.kind, t.ref_id)),
            decreases m - k,
        {
            let t = due[k];
            proof {
                assert(due@.take(k + 1) =~= due@.take(k as int).push(due@[k as int]));
                assert(due@.take(k as int).push(due@[k as int]).map_values(
                    |t: OutboxTask| (t.id, t.kind, t.ref_id),
                ) =~= due@.take(k as int).map_values(|t: OutboxTask| (t.id, t.kind, t.ref_id)).push(
                    (due@[k as int].id, due@[k as int].kind, due@[k as int].ref_id),
                ));
            }
            out.push((t.id, t.kind, t.ref_id));
            k += 1;
        }
        proof {
            assert(due@.take(m as int) =~= due@);
        }
        out
    }

    /// Deletes the task with this id, if the outbox holds one; deletion is
    /// how a task's success is recorded. Anything else is untouched.
    pub fn delete_outbox(&mut self, id: i64)
        requires
            old(self).wf(),
        ensures
            final(self).wf(),
            match find_task(old(self).outbox@, id) {
                None => *final(self) == *old(self),
                Some(j) => {
                    &&& final(self).outbox@ == old(self).outbox@.remove(j)
                    &&& final(self).users == old(self).users
                    &&& final(self).batches == old(self).batches
                    &&& final(self).resources == old(self).resources
                    &&& final(self).next_outbox_id == old(self).next_outbox_id
                    &&& final(self).last_processed_outbox_id == old(
                        self,
                    ).last_processed_outbox_id
                },
            },
    {
        let n = self.outbox.len();
        let mut i: usize = 0;
        proof {
            assert(self.outbox@.take(0) =~= Seq::<OutboxTask>::empty());
        }
        while i < n
            invariant
                *self == *old(self),
                old(self).wf(),
                n == self.outbox@.len(),
                i <= n,
                find_task(self.outbox@.take(i as int), id) is None,
            decreases n - i,
        {
            let ghost prefix = self.outbox@.take(i as int);
            proof {
                assert(self.outbox@.take(i + 1) =~= prefix.push(self.outbox@[i as int]));
                assert(prefix.push(self.outbox@[i as int]).drop_last() =~= prefix);
            }
            if self.outbox[i].id == id {
                proof {
                    lemma_find_task_prefix(self.outbox@, id, i as int);
                }
                self.outbox.remove(i);
                proof {
                    let olds = old(self).outbox@;
                    let news = self.outbox@;
                    assert(news == olds.remove(i as int));
                    assert forall|k: int| 0 <= k < news.len() implies #[trigger] news[k] == (
                    if k < i {
                        olds[k]
                    } else {
                        olds[k + 1]
                    }) by {}
                }
                return ;
            }
            i += 1;
        }
        proof {
            assert(self.outbox@.take(n as int) =~= self.outbox@);
        }
    }

    /// Reschedules the task with this id after a failure on the given
    /// attempt: the attempt count becomes one more (staying put at the
    /// integer's ceiling), and the task falls due again after the default
    /// backoff delay. A missing id changes nothing.
    pub fn backoff_outbox(&mut self, id: i64, attempt: i32, now: i64)
        requires
            old(self).wf(),
            attempt >= 0,
            now <= i64::MAX - MAX_UNCAPPED_DELAY_SECS,
        ensures
            final(self).wf(),
            match find_task(old(self).outbox@, id) {
                None => *final(self) == *old(self),
                Some(j) => {
                    &&& final(self).outbox@ == old(self).outbox@.update(
                        j,
                        (OutboxTask {
                            attempt: (if attempt == i32::MAX {
                                i32::MAX
                            } else {
                                (attempt + 1) as i32
                            }),
                            due_at: ((now + spec_backoff_delay(
                                attempt as int,
                                DEFAULT_BACKOFF_CAP_SECS as int,
                            )) as i64),
                            ..old(self).outbox@[j]
                        }),
                    )
                    &&& final(self).users == old(self).users
                    &&& final(self).batches == old(self).batches
                    &&& final(self).resources == old(self).resources
                    &&& final(self).next_outbox_id == old(self).next_outbox_id
                    &&& final(self).last_processed_outbox_id == old(
                        self,
                    ).last_processed_outbox_id
                },
            },
    {
        self.backoff_outbox_with_cap(id, attempt, DEFAULT_BACKOFF_CAP_SECS, now)
    }

    /// Like [`Store::backoff_outbox`], with a caller-supplied ceiling on the
    /// delay; a non-positive ceiling leaves only the exponent cap.
    pub fn backoff_outbox_with_cap(&mut self, id: i64, attempt: i32, max_cap_secs: i64, now: i64)
        requires
            old(self).wf(),
            attempt >= 0,
            now <= i64::MAX - MAX_UNCAPPED_DELAY_SECS,
        ensures
            final(self).wf(),
            match find_task(old(self).outbox@, id) {
                None => *final(self) == *old(self),
                Some(j) => {
                    &&& final(self).outbox@ == old(self).outbox@.update(
                        j,
                        (OutboxTask {
                            attempt: (if attempt == i32::MAX {
                                i32::MAX
                            } else {
                                (attempt + 1) as i32
                            }),
                            due_at: ((now + spec_backoff_delay(
                                attempt as int,
                                max_cap_secs as int,
                            )) as i64),
                            ..old(self).outbox@[j]
                        }),
                    )
                    &&& final(self).users == old(self).users
                    &&& final(self).batches == old(self).batches
                    &&& final(self).resources == old(self).resources
                    &&& final(self).next_outbox_id == old(self).next_outbox_id
                    &&& final(self).last_processed_outbox_id == old(
                        self,
                    ).last_processed_outbox_id
                },
            },
    {
        let n = self.outbox.len();
        let mut i: usize = 0;
        proof {
            assert(self.outbox@.take(0) =~= Seq::<OutboxTask>::empty());
        }
        while i < n
            invariant
                *self == *old(self),
                old(self).wf(),
                attempt >= 0,
                now <= i64::MAX - MAX_UNCAPPED_DELAY_SECS,
                n == self.outbox@.len(),
                i <= n,
                find_task(self.outbox@.take(i as int), id) is None,
            decreases n - i,
        {
            let ghost prefix = self.outbox@.take(i as int);
            proof {
                assert(self.outbox@.take(i + 1) =~= prefix.push(self.outbox@[i as int]));
                assert(prefix.push(self.outbox@[i as int]).drop_last() =~= prefix);
            }
            if self.outbox[i].id == id {
                proof {
                    lemma_find_task_prefix(self.outbox@, id, i as int);
                }
                let secs = backoff_delay_secs(attempt, max_cap_secs);
                let t = &self.outbox[i];
                let new_attempt: i32 = if attempt == i32::MAX {
                    i32::MAX
                } else {
                    attempt + 1
                };
                let updated = OutboxTask {
                    id: t.id,
                    user_id: t.user_id,
                    kind: t.kind,
                    ref_id: t.ref_id,
                    attempt: new_attempt,
                    due_at: now + secs,
                };
                self.outbox[i] = updated;
                return ;
            }
            i += 1;
        }
        proof {
            assert(self.outbox@.take(n as int) =~= self.outbox@);
        }
    }

    /// The slice of a batch the worker needs to push it, or `None` when the
    /// id names no batch. A stored page id that is empty or blank counts as
    /// absent, so the worker will write a real one.
    pub fn fetch_batch_for_outbox(&self, batch_id: i64) -> (r: Option<BatchForOutbox>)
        requires
            self.wf(),
        ensures
            if self.is_batch(batch_id) {
                ({
                    let b = self.batches@[batch_id - 1];
                    r matches Some(out) && out.state == b.state && out.title == b.title
                        && out.notion_page_id == (match b.notion_page_id {
                        Some(p) => if spec_is_blank(p@) {
                            None::<String>
                        } else {
                            Some(p)
                        },
                        None => None::<String>,
                    })
                })
            } else {
                r is None
            },
    {
        proof {
            self.lemma_len_bounds();
        }
        if !(1 <= batch_id && batch_id <= self.batches.len() as i64) {
            return None;
        }
        let b = &self.batches[(batch_id - 1) as usize];
        let page = match &b.notion_page_id {
            Some(p) => {
                if is_blank(p.as_str()) {
                    None
                } else {
                    Some(p.clone())
                }
            },
            None => None,
        };
        Some(BatchForOutbox { state: b.state, title: clone_opt_string(&b.title), notion_page_id: page })
    }

    /// The slice of a resource the worker needs to push it, joined with its
    /// batch (if any), or `None` when the id names no resource. The pushed
    /// text falls back to the stored content for text resources whose text
    /// column is empty.
    pub fn fetch_resource_for_outbox(&self, resource_id: i64) -> (r: Option<ResourceForOutbox>)
        requires
            self.wf(),
        ensures
            if self.is_resource(resource_id) {
                ({
                    let res = self.resources@[resource_id - 1];
                    r matches Some(out) && out.batch_id == res.batch_id && out.sequence
                        == res.sequence && out.kind == res.kind && out.content == res.content
                        && out.media_name == res.media_name && out.media_url == res.media_url
                        && out.notion_page_id == res.notion_page_id && out.text == (
                    match res.text {
                        Some(t) => if t@.len() > 0 {
                            Some(t)
                        } else if res.kind@ == "text"@ {
                            Some(res.content)
                        } else {
                            None::<String>
                        },
                        None => if res.kind@ == "text"@ {
                            Some(res.content)
                        } else {
                            None::<String>
                        },
                    }) && (match res.batch_id {
                        Some(b) => out.batch_state == Some(self.batches@[b - 1].state)
                            && out.batch_notion_page_id == self.batches@[b - 1].notion_page_id,
                        None => out.batch_state is None && out.batch_notion_page_id is None,
                    })
                })
            } else {
                r is None
            },
    {
        proof {
            self.lemma_len_bounds();
        }
        if !(1 <= resource_id && resource_id <= self.resources.len() as i64) {
            return None;
        }
        let res = &self.resources[(resource_id - 1) as usize];
        let stored_text = clone_opt_string(&res.text);
        let text: Option<String> = match stored_text {
            Some(t) => {
                if !t.as_str().is_empty() {
                    Some(t)
                } else if str_eq(res.kind.as_str(), "text") {
                    Some(res.content.clone())
                } else {
                    None
                }
            },
            None => {
                if str_eq(res.kind.as_str(), "text") {
                    Some(res.content.clone())
                } else {
                    None
                }
            },
        };
        let (batch_state, batch_notion_page_id): (Option<BatchState>, Option<String>) =
            match res.batch_id {
            Some(b) => {
                assert(self.is_batch(b));
                let _batches_len = self.batches.len();
                let bref = &self.batches[(b - 1) as usize];
                (Some(bref.state), clone_opt_string(&bref.notion_page_id))
            },
            None => (None, None),
        };
        Some(
            ResourceForOutbox {
                batch_id: res.batch_id,
                sequence: res.sequence,
                kind: res.kind.clone(),
                content: res.content.clone(),
                text,
                media_name: clone_opt_string(&res.media_name),
                media_url: clone_opt_string(&res.media_url),
                notion_page_id: clone_opt_string(&res.notion_page_id),
                batch_state,
                batch_notion_page_id,
            },
        )
    }

    /// Records the remote page id a batch now carries; presence of this id
    /// is the idempotency marker that stops repeated remote creation. A
    /// missing batch id changes nothing.
    pub fn mark_batch_notion_page_id(&mut self, batch_id: i64, page_id: &str)
        requires
            old(self).wf(),
        ensures
            final(self).wf(),
            if old(self).is_batch(batch_id) {
                &&& final(self).batches@.len() == old(self).batches@.len()
                &&& (forall|j: int|
                    0 <= j < old(self).batches@.len() && j != batch_id - 1 ==> old(
                        self,
                    ).batches@[j] == final(self).batches@[j])
                &&& ({
                    let nb = final(self).batches@[batch_id - 1];
                    let ob = old(self).batches@[batch_id - 1];
                    &&& nb.id == ob.id
                    &&& nb.user_id == ob.user_id
                    &&& nb.state == ob.state
                    &&& nb.title == ob.title
                    &&& (nb.notion_page_id matches Some(p) && p@ == page_id@)
                    &&& nb.created_at == ob.created_at
                    &&& nb.committed_at == ob.committed_at
                    &&& nb.rolled_back_at == ob.rolled_back_at
                })
                &&& final(self).users == old(self).users
                &&& final(self).resources == old(self).resources
                &&& final(self).outbox == old(self).outbox
                &&& final(self).next_outbox_id == old(self).next_outbox_id
                &&& final(self).last_processed_outbox_id == old(self).last_processed_outbox_id
            } else {
                *final(self) == *old(self)
            },
    {
        proof {
            self.lemma_len_bounds();
        }
        if !(1 <= batch_id && batch_id <= self.batches.len() as i64) {
            return ;
        }
        let bidx = (batch_id - 1) as usize;
        let ob = &self.batches[bidx];
        let updated = Batch {
            id: ob.id,
            user_id: ob.user_id,
            state: ob.state,
            title: clone_opt_string(&ob.title),
            notion_page_id: Some(page_id.to_owned()),
            created_at: ob.created_at,
            committed_at: ob.committed_at,
            rolled_back_at: ob.rolled_back_at,
        };
        self.batches[bidx] = updated;
    }

    /// Records the remote page id a resource now carries; the idempotency
    /// marker, as for batches. A missing resource id changes nothing.
    pub fn mark_resource_notion_page_id(&mut self, resource_id: i64, page_id: &str)
        requires
            old(self).wf(),
        ensures
            final(self).wf(),
            if old(self).is_resource(resource_id) {
                &&& final(self).resources@.len() == old(self).resources@.len()
                &&& (forall|j: int|
                    0 <= j < old(self).resources@.len() && j != resource_id - 1 ==> old(
                        self,
                    ).resources@[j] == final(self).resources@[j])
                &&& ({
                    let nr = final(self).resources@[resource_id - 1];
                    let or = old(self).resources@[resource_id - 1];
                    &&& nr.id == or.id
                    &&& nr.user_id == or.user_id
                    &&& nr.batch_id == or.batch_id
                    &&& nr.kind == or.kind
                    &&& nr.content == or.content
                    &&& nr.tg_message_id == or.tg_message_id
                    &&& nr.sequence == or.sequence
                    &&& nr.text == or.text
                    &&& nr.media_name == or.media_name
                    &&& nr.media_url == or.media_url
                    &&& (nr.notion_page_id matches Some(p) && p@ == page_id@)
                    &&& nr.created_at == or.created_at
                })
                &&& final(self).users == old(self).users
                &&& final(self).batches == old(self).batches
                &&& final(self).outbox == old(self).outbox
                &&& final(self).next_outbox_id == old(self).next_outbox_id
                &&& final(self).last_processed_outbox_id == old(self).last_processed_outbox_id
            } else {
                *final(self) == *old(self)
            },
    {
        proof {
            self.lemma_len_bounds();
        }
        if !(1 <= resource_id && resource_id <= self.resources.len() as i64) {
            return ;
        }
        let ridx = (resource_id - 1) as usize;
        let or = &self.resources[ridx];
        let updated = Resource {
            id: or.id,
            user_id: or.user_id,
            batch_id: or.batch_id,
            kind: or.kind.clone(),
            content: or.content.clone(),
            tg_message_id: or.tg_message_id,
            sequence: or.sequence,
            text: clone_opt_string(&or.text),
            media_name: clone_opt_string(&or.media_name),
            media_url: clone_opt_string(&or.media_url),
            notion_page_id: Some(page_id.to_owned()),
            created_at: or.created_at,
        };
        self.resources[ridx] = updated;
        proof {
            self.lemma_resource_update_keeps_wf(*old(self), ridx as int);
        }
    }

    /// Sets a resource's media attachment fields. A missing resource id
    /// changes nothing.
    pub fn set_resource_media(
        &mut self,
        resource_id: i64,
        media_name: Option<&str>,
        media_url: Option<&str>,
    )
        requires
            old(self).wf(),
        ensures
            final(self).wf(),
            if old(self).is_resource(resource_id) {
                &&& final(self).resources@.len() == old(self).resources@.len()
                &&& (forall|j: int|
                    0 <= j < old(self).resources@.len() && j != resource_id - 1 ==> old(
                        self,
                    ).resources@[j] == final(self).resources@[j])
                &&& ({
                    let nr = final(self).resources@[resource_id - 1];
                    let or = old(self).resources@[resource_id - 1];
                    &&& nr.id == or.id
                    &&& nr.user_id == or.user_id
                    &&& nr.batch_id == or.batch_id
                    &&& nr.kind == or.kind
                    &&& nr.content == or.content
                    &&& nr.tg_message_id == or.tg_message_id
                    &&& nr.sequence == or.sequence
                    &&& nr.text == or.text
                    &&& (match media_name {
                        Some(s) => nr.media_name matches Some(t) && t@ == s@,
                        None => nr.media_name is None,
                    })
                    &&& (match media_url {
                        Some(s) => nr.media_url matches Some(t) && t@ == s@,
                        None => nr.media_url is None,
                    })
                    &&& nr.notion_page_id == or.notion_page_id
                    &&& nr.created_at == or.created_at
                })
                &&& final(self).users == old(self).users
                &&& final(self).batches == old(self).batches
                &&& final(self).outbox == old(self).outbox
                &&& final(self).next_outbox_id == old(self).next_outbox_id
                &&& final(self).last_processed_outbox_id == old(self).last_processed_outbox_id
            } else {
                *final(self) == *old(self)
            },
    {
        proof {
            self.lemma_len_bounds();
        }
        if !(1 <= resource_id && resource_id <= self.resources.len() as i64) {
            return ;
        }
        let ridx = (resource_id - 1) as usize;
        let or = &self.resources[ridx];
        let updated = Resource {
            id: or.id,
            user_id: or.user_id,
            batch_id: or.batch_id,
            kind: or.kind.clone(),
            content: or.content.clone(),
            tg_message_id: or.tg_message_id,
            sequence: or.sequence,
            text: clone_opt_string(&or.text),
            media_name: match media_name {
                Some(s) => Some(s.to_owned()),
                None => None,
            },
            media_url: match media_url {
                Some(s) => Some(s.to_owned()),
                None => None,
            },
            notion_page_id: clone_opt_string(&or.notion_page_id),
            created_at: or.created_at,
        };
        self.resources[ridx] = updated;
        proof {
            self.lemma_resource_update_keeps_wf(*old(self), ridx as int);
        }
    }

    /// Updating a resource in place without touching its batch membership
    /// or sequence preserves well-formedness.
    proof fn lemma_resource_update_keeps_wf(self, prev: Store, k: int)
        requires
            prev.wf(),
            0 <= k < prev.resources@.len(),
            self.users == prev.users,
            self.batches == prev.batches,
            self.outbox == prev.outbox,
            self.next_outbox_id == prev.next_outbox_id,
            self.resources@.len() == prev.resources@.len(),
            forall|j: int|
                0 <= j < prev.resources@.len() && j != k ==> prev.resources@[j]
                    == self.resources@[j],
            self.resources@[k].id == prev.resources@[k].id,
            self.resources@[k].user_id == prev.resources@[k].user_id,
            self.resources@[k].batch_id == prev.resources@[k].batch_id,
            self.resources@[k].sequence == prev.resources@[k].sequence,
        ensures
            self.wf(),
    {
        assert forall|i: int| 0 <= i < self.resources@.len() implies match (
        #[trigger] self.resources@[i]).batch_id {
            Some(b) => self.is_batch(b) && self.resources@[i].sequence == count_in_batch(
                self.resources@.take(i),
                b,
            ) + 1,
            None => self.resources@[i].sequence == 1,
        } by {
            assert(prev.resources@[i].batch_id == self.resources@[i].batch_id);
            assert(prev.resources@[i].sequence == self.resources@[i].sequence);
            match self.resources@[i].batch_id {
                Some(b) => {
                    lemma_count_in_batch_congruent(
                        self.resources@.take(i),
                        prev.resources@.take(i),
                        b,
                    );
                },
                None => {},
            }
        }
    }

    /// The observability cursor: the last task id a worker reported done.
    pub fn get_last_processed_outbox_id(&self) -> (r: i64)
        ensures
            r == self.last_processed_outbox_id,
    {
        self.last_processed_outbox_id
    }

    /// Moves the observability cursor; nothing else changes.
    pub fn update_last_processed_outbox_id(&mut self, outbox_id: i64)
        requires
            old(self).wf(),
        ensures
            final(self).wf(),
            final(self).last_processed_outbox_id == outbox_id,
            final(self).users == old(self).users,
            final(self).batches == old(self).batches,
            final(self).resources == old(self).resources,
            final(self).outbox == old(self).outbox,
            final(self).next_outbox_id == old(self).next_outbox_id,
    {
        self.last_processed_outbox_id = outbox_id;
    }

    /// How many tasks are still queued.
    pub fn count_remaining_outbox_tasks(&self) -> (r: i64)
        requires
            self.wf(),
        ensures
            r == self.outbox@.len(),
    {
        proof {
            self.lemma_outbox_len_bound();
        }
        self.outbox.len() as i64
    }

    /// The id of the user's current (non-terminal) batch, if one exists.
    pub fn current_open_batch_id(&self, user_id: i64) -> (r: Option<i64>)
        requires
            self.wf(),
        ensures
            r == self.spec_current_batch(user_id),
    {
        proof {
            self.lemma_len_bounds();
        }
        if 1 <= user_id && user_id <= self.users.len() as i64 {
            self.users[(user_id - 1) as usize].current_batch
        } else {
            None
        }
    }

    /// The state of the user's current batch, if one exists.
    pub fn current_batch_state(&self, user_id: i64) -> (r: Option<BatchState>)
        requires
            self.wf(),
        ensures
            r == match self.spec_current_batch(user_id) {
                Some(b) => Some(self.batches@[b - 1].state),
                None => None,
            },
    {
        proof {
            self.lemma_len_bounds();
        }
        if 1 <= user_id && user_id <= self.users.len() as i64 {
            match self.users[(user_id - 1) as usize].current_batch {
                Some(b) => {
                    assert(self.is_batch(b));
                    let _batches_len = self.batches.len();
                    Some(self.batches[(b - 1) as usize].state)
                },
                None => None,
            }
        } else {
            None
        }
    }
}

} // verus!
