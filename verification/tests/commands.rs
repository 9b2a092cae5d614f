use tmux_expose::command::{
    capture_session_preview, current_session_id, current_session_name, current_window_name,
    list_pane_agent_rows, switch_client, tmux_error, CommandReply, TmuxCommand,
};
use tmux_expose::model::AgentStatus;

fn answered(stdout: &str) -> CommandReply {
    CommandReply::Exited {
        success: true,
        stdout: stdout.as_bytes().to_vec(),
        stderr: Vec::new(),
    }
}

fn failed(stderr: &str) -> CommandReply {
    CommandReply::Exited {
        success: false,
        stdout: b"ignored".to_vec(),
        stderr: stderr.as_bytes().to_vec(),
    }
}

#[test]
fn every_command_has_its_arguments() {
    assert_eq!(
        TmuxCommand::ListSessions.args(),
        vec![
            "list-sessions",
            "-F",
            "#{session_id}:#{session_name}:#{session_attached}:#{session_windows}:#{session_created}:#{session_activity}",
        ]
    );
    assert_eq!(
        TmuxCommand::ListPanes.args(),
        vec![
            "list-panes",
            "-a",
            "-F",
            "#{session_id}:#{@agent_status}:#{@agent_status_since}",
        ]
    );
    assert_eq!(
        TmuxCommand::CurrentSessionName.args(),
        vec!["display-message", "-p", "#S"]
    );
    assert_eq!(
        TmuxCommand::CurrentSessionId.args(),
        vec!["display-message", "-p", "#{session_id}"]
    );
    assert_eq!(
        TmuxCommand::WindowName { session: "$1".to_string() }.args(),
        vec!["display-message", "-p", "-t", "$1:", "#W"]
    );
    assert_eq!(
        TmuxCommand::CapturePane { session: "$1".to_string() }.args(),
        vec!["capture-pane", "-e", "-p", "-t", "$1:"]
    );
    assert_eq!(
        TmuxCommand::SwitchClient { session: "$1".to_string() }.args(),
        vec!["switch-client", "-t", "$1"]
    );
}

#[test]
fn names_are_trimmed() {
    assert_eq!(current_session_name(&answered("dev\n")), Ok(Some("dev".to_string())));
    assert_eq!(current_session_id(&answered(" $1 \n")), Ok(Some("$1".to_string())));
    assert_eq!(current_window_name("$1", &answered("vim\n")), Ok(Some("vim".to_string())));
}

#[test]
fn a_blank_or_failed_answer_names_nothing() {
    assert_eq!(current_session_name(&answered(" \n")), Ok(None));
    assert_eq!(current_session_id(&answered("")), Ok(None));
    assert_eq!(current_session_name(&failed("no server running")), Ok(None));
    assert_eq!(current_session_id(&failed("no server running")), Ok(None));
    assert_eq!(current_window_name("$1", &failed("can't find session")), Ok(None));
}

#[test]
fn a_command_that_did_not_start_is_an_error() {
    assert_eq!(
        current_session_name(&CommandReply::NotStarted).unwrap_err().message,
        "failed to run tmux display-message"
    );
    assert_eq!(
        current_session_id(&CommandReply::NotStarted).unwrap_err().message,
        "failed to run tmux display-message"
    );
    assert_eq!(
        current_window_name("$1", &CommandReply::NotStarted).unwrap_err().message,
        "failed to query active window for session '$1'"
    );
    assert_eq!(
        capture_session_preview("$1", 5, &CommandReply::NotStarted).unwrap_err().message,
        "failed to capture pane for session '$1'"
    );
    assert_eq!(
        switch_client("$1", &CommandReply::NotStarted).unwrap_err().message,
        "failed to switch to tmux session '$1'"
    );
}

#[test]
fn a_capture_brings_the_last_lines() {
    assert_eq!(
        capture_session_preview("$1", 2, &answered("one\ntwo  \nthree\n\n")),
        Ok(vec!["two".to_string(), "three".to_string()])
    );
    assert_eq!(
        capture_session_preview("$1", 2, &failed("can't find pane\n")).unwrap_err().message,
        "tmux capture-pane failed: can't find pane"
    );
}

#[test]
fn a_switch_succeeds_or_names_its_target() {
    assert_eq!(switch_client("$1", &answered("")), Ok(()));
    assert_eq!(
        switch_client("$1", &failed("whatever")).unwrap_err().message,
        "tmux switch-client failed for '$1'"
    );
}

#[test]
fn pane_rows_are_best_effort() {
    assert_eq!(
        list_pane_agent_rows(&answered("$1:waiting:5\n")),
        vec![("$1".to_string(), Some(AgentStatus::Waiting), Some(5))]
    );
    assert_eq!(list_pane_agent_rows(&failed("no server")), vec![]);
    assert_eq!(list_pane_agent_rows(&CommandReply::NotStarted), vec![]);
}

#[test]
fn errors_tell_what_tmux_complained_of() {
    assert_eq!(tmux_error("it failed", b"  no server \n").message, "it failed: no server");
    assert_eq!(tmux_error("it failed", b" \n").message, "it failed");
    assert_eq!(tmux_error("it failed", b"").message, "it failed");
}

#[test]
fn bytes_that_are_no_text_are_replaced() {
    assert_eq!(
        tmux_error("it failed", b"bad \xff\xfe byte").message,
        "it failed: bad \u{fffd}\u{fffd} byte"
    );
    assert_eq!(
        tmux_error("it failed", "caf\u{e9}".as_bytes()).message,
        "it failed: caf\u{e9}"
    );
    let reply = CommandReply::Exited {
        success: true,
        stdout: b"caf\xc3".to_vec(),
        stderr: Vec::new(),
    };
    assert_eq!(current_session_name(&reply), Ok(Some("caf\u{fffd}".to_string())));
}
