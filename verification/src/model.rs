//! Domain entities: users, batches, resources and outbox tasks.

use vstd::prelude::*;

use crate::text::str_eq;

verus! {

/// Lifecycle of a batch. `Open` and `WaitingTitle` are the non-terminal
/// states; `Committed` and `RolledBack` are terminal.
#[derive(Debug, Clone, Copy, PartialEq, Eq, Structural)]
pub enum BatchState {
    Open,
    WaitingTitle,
    Committed,
    RolledBack,
}

impl BatchState {
    /// True for the states a batch can still leave.
    pub open spec fn is_non_terminal(self) -> bool {
        self == BatchState::Open || self == BatchState::WaitingTitle
    }

    pub fn as_str(&self) -> (r: &'static str)
        ensures
            r@ == self.spec_str(),
    {
        proof {
            reveal_strlit("OPEN");
            reveal_strlit("WAITING_TITLE");
            reveal_strlit("COMMITTED");
            reveal_strlit("ROLLED_BACK");
        }
        match self {
            BatchState::Open => "OPEN",
            BatchState::WaitingTitle => "WAITING_TITLE",
            BatchState::Committed => "COMMITTED",
            BatchState::RolledBack => "ROLLED_BACK",
        }
    }

    /// The canonical textual form of each state.
    pub open spec fn spec_str(self) -> Seq<char> {
        match self {
            BatchState::Open => "OPEN"@,
            BatchState::WaitingTitle => "WAITING_TITLE"@,
            BatchState::Committed => "COMMITTED"@,
            BatchState::RolledBack => "ROLLED_BACK"@,
        }
    }

    pub fn parse_state(value: &str) -> (r: Option<BatchState>)
        ensures
            r matches Some(s) ==> value@ == s.spec_str(),
            r is None ==> (forall|s: BatchState| value@ != s.spec_str()),
    {
        proof {
            reveal_strlit("OPEN");
            reveal_strlit("WAITING_TITLE");
            reveal_strlit("COMMITTED");
            reveal_strlit("ROLLED_BACK");
        }
        if str_eq(value, "OPEN") {
            Some(BatchState::Open)
        } else if str_eq(value, "WAITING_TITLE") {
            Some(BatchState::WaitingTitle)
        } else if str_eq(value, "COMMITTED") {
            Some(BatchState::Committed)
        } else if str_eq(value, "ROLLED_BACK") {
            Some(BatchState::RolledBack)
        } else {
            assert(forall|s: BatchState| value@ != s.spec_str()) by {
                assert(value@ != BatchState::Open.spec_str());
                assert(value@ != BatchState::WaitingTitle.spec_str());
                assert(value@ != BatchState::Committed.spec_str());
                assert(value@ != BatchState::RolledBack.spec_str());
            }
            None
        }
    }
}

/// The two kinds of sync work the outbox carries.
#[derive(Debug, Clone, Copy, PartialEq, Eq, Structural)]
pub enum OutboxKind {
    PushBatch,
    PushResource,
}

impl OutboxKind {
    pub fn as_str(&self) -> (r: &'static str)
        ensures
            r@ == self.spec_str(),
    {
        proof {
            reveal_strlit("push_batch");
            reveal_strlit("push_resource");
        }
        match self {
            OutboxKind::PushBatch => "push_batch",
            OutboxKind::PushResource => "push_resource",
        }
    }

    /// The canonical textual form of each kind.
    pub open spec fn spec_str(self) -> Seq<char> {
        match self {
            OutboxKind::PushBatch => "push_batch"@,
            OutboxKind::PushResource => "push_resource"@,
        }
    }
}

/// A user known to the store; created on first sighting and never mutated,
/// except for the current-batch pointer that enforces the one-open-batch rule.
#[derive(Debug, Clone)]
pub struct User {
    pub id: i64,
    pub tg_user_id: i64,
    pub username: Option<String>,
    pub full_name: Option<String>,
    pub created_at: i64,
    /// The single non-terminal batch of this user, if any.
    pub current_batch: Option<i64>,
}

/// A user-declared group of resources committed together.
#[derive(Debug, Clone)]
pub struct Batch {
    pub id: i64,
    pub user_id: i64,
    pub state: BatchState,
    pub title: Option<String>,
    pub notion_page_id: Option<String>,
    pub created_at: i64,
    pub committed_at: Option<i64>,
    pub rolled_back_at: Option<i64>,
}

/// One ingested item, standalone or positioned within a batch.
#[derive(Debug, Clone)]
pub struct Resource {
    pub id: i64,
    pub user_id: i64,
    pub batch_id: Option<i64>,
    pub kind: String,
    pub content: String,
    pub tg_message_id: i32,
    pub sequence: i64,
    pub text: Option<String>,
    pub media_name: Option<String>,
    pub media_url: Option<String>,
    pub notion_page_id: Option<String>,
    pub created_at: i64,
}

/// A durable, at-least-once work item: push one batch or one resource to the
/// remote store. Deleted on confirmed success, rescheduled on failure.
#[derive(Debug, Clone, Copy)]
pub struct OutboxTask {
    pub id: i64,
    pub user_id: i64,
    pub kind: OutboxKind,
    pub ref_id: i64,
    pub attempt: i32,
    pub due_at: i64,
}

/// Batch slice used by the worker to decide how to sync a batch.
#[derive(Debug, Clone)]
pub struct BatchForOutbox {
    pub state: BatchState,
    pub title: Option<String>,
    pub notion_page_id: Option<String>,
}

/// Resource slice, joined with its batch, used by the worker when pushing.
#[derive(Debug, Clone)]
pub struct ResourceForOutbox {
    pub batch_id: Option<i64>,
    pub sequence: i64,
    pub kind: String,
    pub content: String,
    pub text: Option<String>,
    pub media_name: Option<String>,
    pub media_url: Option<String>,
    pub notion_page_id: Option<String>,
    pub batch_state: Option<BatchState>,
    pub batch_notion_page_id: Option<String>,
}

/// Precondition violations of the batch state machine, reported to the
/// caller and never retried.
#[derive(Debug, Clone, Copy, PartialEq, Eq, Structural)]
pub enum StoreError {
    /// `open` while the user already has a non-terminal batch.
    AlreadyOpen,
    /// A transition that needs a non-terminal batch, while there is none.
    NoOpenBatch,
}

} // verus!
