use tmux_expose::command::{CommandReply, TmuxCommand};
use tmux_expose::listing::{list_sessions, list_sessions_skipping_preview_for, SessionListing};
use tmux_expose::model::{AgentStatus, Session};
use tmux_expose::tmux::TmuxError;

fn answered(stdout: &str) -> CommandReply {
    CommandReply::Exited {
        success: true,
        stdout: stdout.as_bytes().to_vec(),
        stderr: Vec::new(),
    }
}

fn failed(stderr: &str) -> CommandReply {
    CommandReply::Exited {
        success: false,
        stdout: Vec::new(),
        stderr: stderr.as_bytes().to_vec(),
    }
}

fn drive(
    listing: SessionListing,
    replies: Vec<CommandReply>,
) -> (Vec<TmuxCommand>, Result<Vec<Session>, TmuxError>) {
    let mut listing = listing;
    let mut asked = Vec::new();
    for reply in replies {
        asked.push(listing.command().unwrap());
        listing = listing.advance(&reply);
    }
    assert_eq!(listing.command(), None);
    (asked, listing.outcome().unwrap())
}

#[test]
fn a_listing_asks_for_each_session_in_turn() {
    let (asked, outcome) = drive(
        list_sessions(),
        vec![
            answered("$1:dev:1:4:10:20\n$2:logs:0:2:11:21\n"),
            answered("$1:waiting:50\n$2::\n$1:working:7\n"),
            answered("vim\n"),
            answered("one\ntwo\n\n"),
            failed("no window"),
            failed("no pane"),
        ],
    );
    assert_eq!(
        asked,
        vec![
            TmuxCommand::ListSessions,
            TmuxCommand::ListPanes,
            TmuxCommand::WindowName { session: "$1".to_string() },
            TmuxCommand::CapturePane { session: "$1".to_string() },
            TmuxCommand::WindowName { session: "$2".to_string() },
            TmuxCommand::CapturePane { session: "$2".to_string() },
        ]
    );
    let sessions = outcome.unwrap();
    assert_eq!(sessions.len(), 2);
    assert_eq!(sessions[0].name, "dev");
    assert_eq!(sessions[0].current_window.as_deref(), Some("vim"));
    assert_eq!(sessions[0].preview, vec!["one", "two"]);
    assert_eq!(sessions[0].preview_error, None);
    assert_eq!(sessions[0].agent_status, Some(AgentStatus::Waiting));
    assert_eq!(sessions[0].agent_status_since, Some(50));
    assert_eq!(sessions[0].agent_pane_counts.total(), 2);
    assert_eq!(sessions[1].current_window, None);
    assert_eq!(sessions[1].preview, Vec::<String>::new());
    assert_eq!(
        sessions[1].preview_error.as_deref(),
        Some("tmux capture-pane failed: no pane")
    );
    assert_eq!(sessions[1].agent_status, None);
}

#[test]
fn the_current_session_is_not_captured() {
    let (asked, outcome) = drive(
        list_sessions_skipping_preview_for(Some("$1")),
        vec![
            answered("$1:dev:1:4:10:20\n$2:logs:0:2:11:21\n"),
            CommandReply::NotStarted,
            answered("vim\n"),
            answered("less\n"),
            answered("tail\n"),
        ],
    );
    assert_eq!(asked.len(), 5);
    assert_eq!(asked[4], TmuxCommand::CapturePane { session: "$2".to_string() });
    let sessions = outcome.unwrap();
    assert_eq!(sessions[0].current_window.as_deref(), Some("vim"));
    assert_eq!(
        sessions[0].preview_error.as_deref(),
        Some("Current session preview disabled")
    );
    assert_eq!(sessions[0].preview, Vec::<String>::new());
    assert_eq!(sessions[1].preview, vec!["tail"]);
}

#[test]
fn a_capture_keeps_the_last_two_hundred_lines() {
    let mut output = String::new();
    for i in 0..250 {
        output.push_str(&format!("line {i}\n"));
    }
    let (_, outcome) = drive(
        list_sessions(),
        vec![answered("$1:dev:1:4:10:20\n"), answered(""), answered("vim\n"), answered(&output)],
    );
    let sessions = outcome.unwrap();
    assert_eq!(sessions[0].preview.len(), 200);
    assert_eq!(sessions[0].preview[0], "line 50");
    assert_eq!(sessions[0].preview[199], "line 249");
}

#[test]
fn a_failed_listing_ends_at_once() {
    let (_, outcome) = drive(list_sessions(), vec![CommandReply::NotStarted]);
    assert_eq!(outcome.unwrap_err().message, "failed to run tmux list-sessions");
    let (_, outcome) = drive(list_sessions(), vec![failed("no server running\n")]);
    assert_eq!(
        outcome.unwrap_err().message,
        "tmux list-sessions failed: no server running"
    );
    let (_, outcome) = drive(list_sessions(), vec![answered("nonsense\n")]);
    assert_eq!(
        outcome.unwrap_err().message,
        "tmux list-sessions returned output in an unexpected format"
    );
}

#[test]
fn no_sessions_are_a_listing_too() {
    let (asked, outcome) = drive(list_sessions(), vec![answered(" \n"), answered("")]);
    assert_eq!(asked, vec![TmuxCommand::ListSessions, TmuxCommand::ListPanes]);
    assert_eq!(outcome, Ok(vec![]));
}

#[test]
fn a_finished_listing_stays_finished() {
    let listing = list_sessions().advance(&CommandReply::NotStarted);
    let listing = listing.advance(&answered("$1:dev:1:4:10:20\n"));
    assert_eq!(listing.command(), None);
    assert!(listing.outcome().unwrap().is_err());
    assert!(list_sessions().outcome().is_none());
}
