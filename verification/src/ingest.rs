//! Ingestion routing: what an inbound text means for the batch state
//! machine. The transport that carries the messages lives outside the
//! library; it hands the trimmed text in and performs the decided action.

use vstd::prelude::*;

use crate::text::{spec_eq_ignore_ascii_case, str_eq, str_eq_ignore_ascii_case};

verus! {

/// What an ordinary inbound text asks for. Commands are honoured only for
/// plain text messages (`allow_commands`), not for media captions.
#[derive(Debug, Clone, Copy, PartialEq, Eq, Structural)]
pub enum TextAction {
    /// A greeting the transport layer answers by itself; nothing persists.
    Ignore,
    /// Health check: answer and persist nothing.
    Pong,
    /// Open a new batch for the sender.
    OpenBatch,
    /// Move the sender's open batch to waiting-title and ask for the title.
    AskTitle,
    /// Roll the sender's current batch back.
    Rollback,
    /// An unrecognized command: answer so, persist nothing.
    UnknownCommand,
    /// Anything else: persist the text as a resource.
    Insert,
}

/// What an inbound text means while the sender's batch waits for a title.
#[derive(Debug, Clone, Copy, PartialEq, Eq, Structural)]
pub enum TitleAction {
    /// The rollback command (any letter case) still aborts the batch.
    Rollback,
    /// Another command is not a usable title: ask again.
    RejectCommand,
    /// Blank text is not a usable title: ask again.
    RejectEmpty,
    /// Commit the batch with this text as its title.
    Commit,
}

/// The routing rule for ordinary messages, over the trimmed text.
pub open spec fn spec_route_text(t: Seq<char>, allow_commands: bool) -> TextAction {
    if allow_commands && t == "/start"@ {
        TextAction::Ignore
    } else if allow_commands && t == "/ping"@ {
        TextAction::Pong
    } else if allow_commands && t == "/begin"@ {
        TextAction::OpenBatch
    } else if allow_commands && t == "/commit"@ {
        TextAction::AskTitle
    } else if allow_commands && t == "/rollback"@ {
        TextAction::Rollback
    } else if allow_commands && t.len() > 0 && t[0] == '/' {
        TextAction::UnknownCommand
    } else {
        TextAction::Insert
    }
}

/// The routing rule while a title is awaited, over the trimmed text.
pub open spec fn spec_route_title(t: Seq<char>) -> TitleAction {
    if spec_eq_ignore_ascii_case(t, "/rollback"@) {
        TitleAction::Rollback
    } else if t.len() > 0 && t[0] == '/' {
        TitleAction::RejectCommand
    } else if t.len() == 0 {
        TitleAction::RejectEmpty
    } else {
        TitleAction::Commit
    }
}

/// Routes an ordinary inbound text, already trimmed: the five commands when
/// commands are allowed, a refusal for any other command, and otherwise an
/// instruction to persist the text.
pub fn route_text(trimmed: &str, allow_commands: bool) -> (a: TextAction)
    ensures
        a == spec_route_text(trimmed@, allow_commands),
{
    if allow_commands {
        if str_eq(trimmed, "/start") {
            return TextAction::Ignore;
        }
        if str_eq(trimmed, "/ping") {
            return TextAction::Pong;
        }
        if str_eq(trimmed, "/begin") {
            return TextAction::OpenBatch;
        }
        if str_eq(trimmed, "/commit") {
            return TextAction::AskTitle;
        }
        if str_eq(trimmed, "/rollback") {
            return TextAction::Rollback;
        }
        if trimmed.unicode_len() > 0 && trimmed.get_char(0) == '/' {
            return TextAction::UnknownCommand;
        }
    }
    TextAction::Insert
}

/// Routes an inbound text while the sender's batch waits for a title,
/// already trimmed: rollback still wins (whatever its letter case), other
/// commands and blank text are refused as titles, and anything else commits
/// the batch under that title.
pub fn route_title(trimmed: &str) -> (a: TitleAction)
    ensures
        a == spec_route_title(trimmed@),
{
    if str_eq_ignore_ascii_case(trimmed, "/rollback") {
        return TitleAction::Rollback;
    }
    if trimmed.unicode_len() > 0 && trimmed.get_char(0) == '/' {
        return TitleAction::RejectCommand;
    }
    if trimmed.is_empty() {
        return TitleAction::RejectEmpty;
    }
    TitleAction::Commit
}

} // verus!
