//! Ingestion routing tests: commands, captions, and title handling.

use tg_watchbot::ingest::{route_text, route_title, TextAction, TitleAction};
use tg_watchbot::text::trim;

#[test]
fn commands_route_to_their_actions() {
    assert_eq!(route_text("/start", true), TextAction::Ignore);
    assert_eq!(route_text("/ping", true), TextAction::Pong);
    assert_eq!(route_text("/begin", true), TextAction::OpenBatch);
    assert_eq!(route_text("/commit", true), TextAction::AskTitle);
    assert_eq!(route_text("/rollback", true), TextAction::Rollback);
    assert_eq!(route_text("/elsewhere", true), TextAction::UnknownCommand);
    assert_eq!(route_text("note to self", true), TextAction::Insert);
    assert_eq!(route_text("", true), TextAction::Insert);
}

#[test]
fn captions_never_carry_commands() {
    assert_eq!(route_text("/begin", false), TextAction::Insert);
    assert_eq!(route_text("/rollback", false), TextAction::Insert);
    assert_eq!(route_text("caption", false), TextAction::Insert);
}

#[test]
fn titles_commit_unless_blank_or_command() {
    assert_eq!(route_title("My Title"), TitleAction::Commit);
    assert_eq!(route_title(""), TitleAction::RejectEmpty);
    assert_eq!(route_title("/commit"), TitleAction::RejectCommand);
    assert_eq!(route_title("/rollback"), TitleAction::Rollback);
    assert_eq!(route_title("/ROLLBACK"), TitleAction::Rollback);
    assert_eq!(route_title("/RollBack"), TitleAction::Rollback);
}

#[test]
fn trim_strips_both_ends() {
    assert_eq!(trim("  spaced out \t"), "spaced out");
    assert_eq!(trim("\n\n"), "");
    assert_eq!(trim("x"), "x");
    assert_eq!(trim(""), "");
    assert_eq!(route_text(trim("  /begin  "), true), TextAction::OpenBatch);
}
