//! The sync worker: polls the outbox for due tasks, dispatches to the
//! remote creation capability, applies the idempotency checks, and manages
//! the success (delete the task) and failure (backoff and retry) paths.
//!
//! The worker is single-flight by design: one task at a time, so the
//! parent-before-child ordering needs no cross-task locks — a resource task
//! polled before its batch's page exists fails with `ParentNotReady`,
//! backs off, and heals on a later poll.

use vstd::prelude::*;

use crate::backoff::MAX_UNCAPPED_DELAY_SECS;
use crate::media::{sanitize_media_url, spec_sanitize_media_url};
use crate::model::{BatchForOutbox, BatchState, OutboxKind, ResourceForOutbox};
use crate::notion::{NotionIds, NotionService};
use crate::store::{best_due_index, lemma_best_due_props, lemma_find_task_unique, rescheduled, Store};
use crate::text::{is_blank, spec_is_blank};

verus! {

/// Why one attempt at a task did not succeed. Every variant takes the same
/// backoff path; none drops the task.
#[derive(Debug, Clone, PartialEq, Eq)]
pub enum TaskError {
    /// The task references an entity the store does not hold: fatal for the
    /// task, which stays queued and will fail identically on every retry.
    MissingEntity,
    /// A batch task whose batch is not committed; defensive, not expected.
    NotReady,
    /// A resource task polled before its batch's remote page exists: the
    /// expected, benign ordering failure that a later poll heals.
    ParentNotReady,
    /// The remote side failed (timeout, rate limit, rejection); retried.
    Remote(String),
}

/// What the worker decides to do with a batch task, before any remote call.
pub enum BatchPlan {
    /// The batch already carries an external page id: succeed without
    /// calling the remote side.
    AlreadySynced,
    /// The batch is not committed: fail with `NotReady`.
    NotCommitted,
    /// Call the remote side with this title.
    Call { title: String },
}

/// What the worker decides to do with a resource task, before any remote
/// call.
pub enum ResourcePlan {
    /// The resource already carries an external page id: succeed without
    /// calling the remote side.
    AlreadySynced,
    /// The resource's batch is not committed or has no external page id
    /// yet: fail with `ParentNotReady`.
    ParentNotReady,
    /// Call the remote side with this payload.
    Call {
        parent: Option<String>,
        order: i64,
        text: Option<String>,
        media_name: Option<String>,
        media_url: Option<String>,
    },
}

/// Decides a batch push from the fetched batch slice: short-circuit if an
/// external id is already recorded, refuse an uncommitted batch, and
/// otherwise call with the stored title, falling back to "Untitled" when no
/// usable title is stored.
pub fn plan_batch_push(b: &BatchForOutbox) -> (p: BatchPlan)
    ensures
        b.notion_page_id is Some ==> p == BatchPlan::AlreadySynced,
        b.notion_page_id is None && b.state != BatchState::Committed ==> p
            == BatchPlan::NotCommitted,
        b.notion_page_id is None && b.state == BatchState::Committed ==> (p matches BatchPlan::Call
            { title } && (match b.title {
            Some(t) => if spec_is_blank(t@) {
                title@ == "Untitled"@
            } else {
                title == t
            },
            None => title@ == "Untitled"@,
        })),
{
    if b.notion_page_id.is_some() {
        return BatchPlan::AlreadySynced;
    }
    match b.state {
        BatchState::Committed => {},
        _ => {
            return BatchPlan::NotCommitted;
        },
    }
    let title: String = match &b.title {
        Some(t) => {
            if is_blank(t.as_str()) {
                String::from_str("Untitled")
            } else {
                t.clone()
            }
        },
        None => String::from_str("Untitled"),
    };
    BatchPlan::Call { title }
}

/// Decides a resource push from the fetched resource slice: short-circuit
/// if an external id is already recorded; for a batched resource insist the
/// batch is committed and carries an external id (else `ParentNotReady`);
/// otherwise call with the stored position and text, the sanitized media
/// URL, and the media name when one is stored and a URL survives — a push
/// whose media URL is discarded degrades to text-only.
pub fn plan_resource_push(r: &ResourceForOutbox) -> (p: ResourcePlan)
    ensures
        r.notion_page_id is Some ==> p == ResourcePlan::AlreadySynced,
        r.notion_page_id is None && (r.batch_id matches Some(_)) && !(r.batch_state == Some(
            BatchState::Committed,
        ) && r.batch_notion_page_id is Some) ==> p == ResourcePlan::ParentNotReady,
        r.notion_page_id is None && (match r.batch_id {
            Some(_) => r.batch_state == Some(BatchState::Committed)
                && r.batch_notion_page_id is Some,
            None => true,
        }) ==> (p matches ResourcePlan::Call { parent, order, text, media_name, media_url } && {
            &&& parent == (match r.batch_id {
                Some(_) => r.batch_notion_page_id,
                None => None::<String>,
            })
            &&& order == r.sequence
            &&& text == r.text
            &&& ({
                let sanitized = spec_sanitize_media_url(
                    match r.media_url {
                        Some(u) => Some(u@),
                        None => None,
                    },
                );
                if sanitized is Some || r.kind@ == "text"@ {
                    &&& (match sanitized {
                        Some(v) => media_url matches Some(u) && u@ == v,
                        None => media_url is None,
                    })
                    &&& media_name == (match r.media_name {
                        Some(nm) => if nm@.len() > 0 {
                            Some(nm)
                        } else {
                            None::<String>
                        },
                        None => None::<String>,
                    })
                } else {
                    media_url is None && media_name is None
                }
            })
        }),
{
    if r.notion_page_id.is_some() {
        return ResourcePlan::AlreadySynced;
    }
    let parent: Option<String> = match &r.batch_id {
        Some(_) => {
            let committed = match r.batch_state {
                Some(BatchState::Committed) => true,
                _ => false,
            };
            if !committed {
                return ResourcePlan::ParentNotReady;
            }
            match &r.batch_notion_page_id {
                Some(pg) => Some(pg.clone()),
                None => {
                    return ResourcePlan::ParentNotReady;
                },
            }
        },
        None => None,
    };
    let url_ref: Option<&str> = match &r.media_url {
        Some(u) => Some(u.as_str()),
        None => None,
    };
    let sanitized = sanitize_media_url(url_ref);
    let is_text = crate::text::str_eq(r.kind.as_str(), "text");
    let (media_name, media_url): (Option<String>, Option<String>) = if sanitized.is_some()
        || is_text {
        let name = match &r.media_name {
            Some(nm) => {
                if nm.as_str().is_empty() {
                    None
                } else {
                    Some(nm.clone())
                }
            },
            None => None,
        };
        (name, sanitized)
    } else {
        (None, None)
    };
    ResourcePlan::Call {
        parent,
        order: r.sequence,
        text: crate::store::clone_opt_string(&r.text),
        media_name,
        media_url,
    }
}

/// The batch now carries an external page id and nothing else moved in the
/// entity tables: its row differs only in the page id, every other batch
/// row and every resource row is as before.
pub open spec fn batch_page_recorded(pre: Store, post: Store, batch_id: i64) -> bool {
    &&& post.batches@.len() == pre.batches@.len()
    &&& (forall|k: int|
        0 <= k < pre.batches@.len() && k != batch_id - 1 ==> pre.batches@[k]
            == post.batches@[k])
    &&& ({
        let nb = post.batches@[batch_id - 1];
        let ob = pre.batches@[batch_id - 1];
        &&& nb.id == ob.id
        &&& nb.user_id == ob.user_id
        &&& nb.state == ob.state
        &&& nb.title == ob.title
        &&& nb.notion_page_id is Some
        &&& nb.created_at == ob.created_at
        &&& nb.committed_at == ob.committed_at
        &&& nb.rolled_back_at == ob.rolled_back_at
    })
    &&& post.resources == pre.resources
}

/// The resource now carries an external page id and nothing else moved in
/// the entity tables: its row differs only in the page id, every other
/// resource row and every batch row is as before.
pub open spec fn resource_page_recorded(pre: Store, post: Store, resource_id: i64) -> bool {
    &&& post.resources@.len() == pre.resources@.len()
    &&& (forall|k: int|
        0 <= k < pre.resources@.len() && k != resource_id - 1 ==> pre.resources@[k]
            == post.resources@[k])
    &&& ({
        let nr = post.resources@[resource_id - 1];
        let or = pre.resources@[resource_id - 1];
        &&& nr.id == or.id
        &&& nr.user_id == or.user_id
        &&& nr.batch_id == or.batch_id
        &&& nr.kind == or.kind
        &&& nr.content == or.content
        &&& nr.tg_message_id == or.tg_message_id
        &&& nr.sequence == or.sequence
        &&& nr.text == or.text
        &&& nr.media_name == or.media_name
        &&& nr.media_url == or.media_url
        &&& nr.notion_page_id is Some
        &&& nr.created_at == or.created_at
    })
    &&& post.batches == pre.batches
}

/// Pushes one batch to the remote store: succeeds without a call when the
/// batch already carries an external id, fails `NotReady` when it is not
/// committed, and otherwise calls the remote side and — exactly on success —
/// records the returned external id. Whatever the remote side returns, the
/// store stays well formed and nothing but this batch's page id can change.
pub fn push_batch_task<S: NotionService>(
    store: &mut Store,
    notion: &mut S,
    ids: &NotionIds,
    batch_id: i64,
) -> (r: Result<(), TaskError>)
    requires
        old(store).wf(),
    ensures
        final(store).wf(),
        !old(store).is_batch(batch_id) ==> r == Err::<(), TaskError>(TaskError::MissingEntity)
            && *final(store) == *old(store),
        old(store).is_batch(batch_id) ==> ({
            let b = old(store).batches@[batch_id - 1];
            let has_page = b.notion_page_id matches Some(p) && !spec_is_blank(p@);
            if has_page {
                r == Ok::<(), TaskError>(()) && *final(store) == *old(store)
            } else if b.state != BatchState::Committed {
                r == Err::<(), TaskError>(TaskError::NotReady) && *final(store) == *old(store)
            } else {
                ||| (r matches Err(TaskError::Remote(_))) && *final(store) == *old(store)
                ||| (r == Ok::<(), TaskError>(()) && {
                    &&& batch_page_recorded(*old(store), *final(store), batch_id)
                    &&& final(store).users == old(store).users
                    &&& final(store).outbox == old(store).outbox
                    &&& final(store).next_outbox_id == old(store).next_outbox_id
                    &&& final(store).last_processed_outbox_id == old(
                        store,
                    ).last_processed_outbox_id
                })
            }
        }),
{
    let fetched = store.fetch_batch_for_outbox(batch_id);
    let bfo = match fetched {
        Some(b) => b,
        None => {
            return Err(TaskError::MissingEntity);
        },
    };
    let plan = plan_batch_push(&bfo);
    match plan {
        BatchPlan::AlreadySynced => Ok(()),
        BatchPlan::NotCommitted => Err(TaskError::NotReady),
        BatchPlan::Call { title } => {
            match notion.create_main_page(ids, title.as_str()) {
                Ok(page_id) => {
                    store.mark_batch_notion_page_id(batch_id, page_id.as_str());
                    Ok(())
                },
                Err(e) => Err(TaskError::Remote(e)),
            }
        },
    }
}

/// Pushes one resource to the remote store: succeeds without a call when
/// the resource already carries an external id; a batched resource whose
/// batch is not committed or has no external page id yet fails
/// `ParentNotReady` — so a resource push never succeeds before its batch's
/// page exists; otherwise calls the remote side with position, text and
/// sanitized media and — only on success — records the returned id.
pub fn push_resource_task<S: NotionService>(
    store: &mut Store,
    notion: &mut S,
    ids: &NotionIds,
    resource_id: i64,
) -> (r: Result<(), TaskError>)
    requires
        old(store).wf(),
    ensures
        final(store).wf(),
        !old(store).is_resource(resource_id) ==> r == Err::<(), TaskError>(
            TaskError::MissingEntity,
        ) && *final(store) == *old(store),
        old(store).is_resource(resource_id) ==> ({
            let res = old(store).resources@[resource_id - 1];
            if res.notion_page_id is Some {
                r == Ok::<(), TaskError>(()) && *final(store) == *old(store)
            } else if (res.batch_id matches Some(b) && !(old(store).batches@[b - 1].state
                == BatchState::Committed && old(store).batches@[b - 1].notion_page_id is Some)) {
                r == Err::<(), TaskError>(TaskError::ParentNotReady) && *final(store) == *old(
                    store,
                )
            } else {
                ||| (r matches Err(TaskError::Remote(_))) && *final(store) == *old(store)
                ||| (r == Ok::<(), TaskError>(()) && {
                    &&& resource_page_recorded(*old(store), *final(store), resource_id)
                    &&& final(store).users == old(store).users
                    &&& final(store).outbox == old(store).outbox
                    &&& final(store).next_outbox_id == old(store).next_outbox_id
                    &&& final(store).last_processed_outbox_id == old(
                        store,
                    ).last_processed_outbox_id
                })
            }
        }),
        old(store).is_resource(resource_id) && r == Ok::<(), TaskError>(()) && old(
            store,
        ).resources@[resource_id - 1].notion_page_id is None ==> match old(
            store,
        ).resources@[resource_id - 1].batch_id {
            Some(b) => old(store).batches@[b - 1].state == BatchState::Committed && old(
                store,
            ).batches@[b - 1].notion_page_id is Some,
            None => true,
        },
{
    let fetched = store.fetch_resource_for_outbox(resource_id);
    let rfo = match fetched {
        Some(r) => r,
        None => {
            return Err(TaskError::MissingEntity);
        },
    };
    let plan = plan_resource_push(&rfo);
    match plan {
        ResourcePlan::AlreadySynced => Ok(()),
        ResourcePlan::ParentNotReady => Err(TaskError::ParentNotReady),
        ResourcePlan::Call { parent, order, text, media_name, media_url } => {
            let parent_ref: Option<&str> = match &parent {
                Some(p) => Some(p.as_str()),
                None => None,
            };
            let text_ref: Option<&str> = match &text {
                Some(t) => Some(t.as_str()),
                None => None,
            };
            let name_ref: Option<&str> = match &media_name {
                Some(nm) => Some(nm.as_str()),
                None => None,
            };
            let url_ref: Option<&str> = match &media_url {
                Some(u) => Some(u.as_str()),
                None => None,
            };
            match notion.create_resource_page(ids, parent_ref, order, text_ref, name_ref, url_ref)
                {
                Ok(page_id) => {
                    store.mark_resource_notion_page_id(resource_id, page_id.as_str());
                    Ok(())
                },
                Err(e) => Err(TaskError::Remote(e)),
            }
        },
    }
}

/// One poll of the worker: selects the most urgent due task (batch pushes
/// before resource pushes, then the earliest due), dispatches it, deletes
/// it exactly when its push succeeded, and reschedules it with backoff on
/// every failure — a task is never dropped on failure and never kept after
/// a confirmed success. Returns whether a due task was found at all;
/// `false` means the caller should idle. A task whose target already
/// carries an external id is deleted without touching anything else — the
/// idempotency short-circuit — and a resource task whose parent batch has
/// no page id yet is always rescheduled, never deleted.
pub fn process_next_task<S: NotionService>(
    store: &mut Store,
    notion: &mut S,
    ids: &NotionIds,
    max_backoff_secs: i64,
    now: i64,
) -> (r: bool)
    requires
        old(store).wf(),
        now <= i64::MAX - MAX_UNCAPPED_DELAY_SECS,
    ensures
        final(store).wf(),
        r == (best_due_index(old(store).outbox@, now) is Some),
        match best_due_index(old(store).outbox@, now) {
            None => *final(store) == *old(store),
            Some(j) => ({
                let t = old(store).outbox@[j];
                let deleted = final(store).outbox@ == old(store).outbox@.remove(j);
                let kept_back = final(store).outbox@ == old(store).outbox@.update(
                    j,
                    rescheduled(t, max_backoff_secs, now),
                );
                let tables_unchanged = final(store).batches == old(store).batches
                    && final(store).resources == old(store).resources;
                &&& final(store).users == old(store).users
                &&& final(store).next_outbox_id == old(store).next_outbox_id
                &&& final(store).last_processed_outbox_id == old(store).last_processed_outbox_id
                &&& match t.kind {
                    OutboxKind::PushBatch => if !old(store).is_batch(t.ref_id) {
                        kept_back && tables_unchanged
                    } else {
                        let b = old(store).batches@[t.ref_id - 1];
                        if (b.notion_page_id matches Some(p) && !spec_is_blank(p@)) {
                            deleted && tables_unchanged
                        } else if b.state != BatchState::Committed {
                            kept_back && tables_unchanged
                        } else {
                            ||| (deleted && batch_page_recorded(
                                *old(store),
                                *final(store),
                                t.ref_id,
                            ))
                            ||| (kept_back && tables_unchanged)
                        }
                    },
                    OutboxKind::PushResource => if !old(store).is_resource(t.ref_id) {
                        kept_back && tables_unchanged
                    } else {
                        let res = old(store).resources@[t.ref_id - 1];
                        if res.notion_page_id is Some {
                            deleted && tables_unchanged
                        } else if (res.batch_id matches Some(b) && !(old(store).batches@[b
                            - 1].state == BatchState::Committed && old(store).batches@[b
                            - 1].notion_page_id is Some)) {
                            kept_back && tables_unchanged
                        } else {
                            ||| (deleted && resource_page_recorded(
                                *old(store),
                                *final(store),
                                t.ref_id,
                            ))
                            ||| (kept_back && tables_unchanged)
                        }
                    },
                }
            }),
        },
{
    let next = store.next_due_outbox(now);
    let (id, _user_id, kind, ref_id, attempt) = match next {
        Some(t) => t,
        None => {
            return false;
        },
    };
    proof {
        lemma_best_due_props(old(store).outbox@, now);
    }
    let ghost j = best_due_index(old(store).outbox@, now).unwrap();
    let res = match kind {
        OutboxKind::PushBatch => push_batch_task(store, notion, ids, ref_id),
        OutboxKind::PushResource => push_resource_task(store, notion, ids, ref_id),
    };
    proof {
        lemma_find_task_unique(store.outbox@, id, j);
    }
    match res {
        Ok(()) => {
            store.delete_outbox(id);
        },
        Err(_e) => {
            store.backoff_outbox_with_cap(id, attempt, max_backoff_secs, now);
        },
    }
    true
}

} // verus!
