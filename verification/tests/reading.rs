use tmux_expose::listing::should_capture_preview;
use tmux_expose::model::{AgentPaneCounts, AgentStatus, Session};
use tmux_expose::panes::{apply_agent_status, parse_pane_agent_rows};
use tmux_expose::tmux::{parse_sessions, parse_sessions_output, trim_preview};

#[test]
fn parses_session_lines_from_tmux_format() {
    let sessions = parse_sessions(
        "$1\u{1f}dev\u{1f}1\u{1f}4\u{1f}1710000000\u{1f}1710000300\n$2\u{1f}logs\u{1f}0\u{1f}2\u{1f}1710000100\u{1f}1710000400\n",
    );

    assert_eq!(sessions.len(), 2);
    assert_eq!(sessions[0].id, "$1");
    assert_eq!(sessions[0].name, "dev");
    assert!(sessions[0].attached);
    assert_eq!(sessions[0].window_count, 4);
    assert_eq!(sessions[0].last_activity.as_deref(), Some("1710000300"));
    assert_eq!(sessions[1].name, "logs");
    assert!(!sessions[1].attached);
}

#[test]
fn parses_session_names_containing_pipe_characters() {
    let sessions =
        parse_sessions("$3\u{1f}dev|api\u{1f}0\u{1f}1\u{1f}1710000000\u{1f}1710000300\n");

    assert_eq!(sessions[0].id, "$3");
    assert_eq!(sessions[0].name, "dev|api");
}

#[test]
fn parses_colon_delimited_session_lines() {
    let sessions = parse_sessions("$3:dev|api:0:1:1710000000:1710000300\n");

    assert_eq!(sessions.len(), 1);
    assert_eq!(sessions[0].id, "$3");
    assert_eq!(sessions[0].name, "dev|api");
    assert!(!sessions[0].attached);
    assert_eq!(sessions[0].window_count, 1);
    assert_eq!(sessions[0].last_activity.as_deref(), Some("1710000300"));
}

#[test]
fn rejects_non_empty_unparseable_session_output() {
    let error = parse_sessions_output("$3dev011710000000171000300\n")
        .unwrap_err()
        .message;

    assert!(error.contains("unexpected format"));
}

#[test]
fn trims_preview_to_last_non_empty_visible_lines() {
    let preview = trim_preview("first\nsecond\nthird\n\n", 2);

    assert_eq!(preview, vec!["second".to_string(), "third".to_string()]);
}

#[test]
fn preserves_ansi_escape_sequences_from_preview() {
    let preview = trim_preview("\u{1b}[31mred\u{1b}[0m plain", 5);

    assert_eq!(preview, vec!["\u{1b}[31mred\u{1b}[0m plain".to_string()]);
}

#[test]
fn skips_preview_capture_for_current_session_only_when_requested() {
    assert!(!should_capture_preview("$1", Some("$1")));
    assert!(should_capture_preview("$2", Some("$1")));
    assert!(should_capture_preview("$1", None));
}

#[test]
fn parses_pane_agent_rows() {
    let rows = parse_pane_agent_rows("$1:waiting:1700000000\n$2:working:1700000100\n");

    assert_eq!(
        rows,
        vec![
            (
                "$1".to_string(),
                Some(AgentStatus::Waiting),
                Some(1700000000)
            ),
            (
                "$2".to_string(),
                Some(AgentStatus::Working),
                Some(1700000100)
            ),
        ]
    );
}

#[test]
fn parses_pane_with_no_agent_status_as_none() {
    // Unset tmux pane options render as empty fields, not missing ones.
    let rows = parse_pane_agent_rows("$1::\n");

    assert_eq!(rows, vec![("$1".to_string(), None, None)]);
}

#[test]
fn ignores_unrecognized_status_values() {
    // Status and timestamp parse independently — an unrecognized status
    // still leaves a well-formed timestamp field intact.
    let rows = parse_pane_agent_rows("$1:not-a-real-status:123\n");

    assert_eq!(rows, vec![("$1".to_string(), None, Some(123))]);
}

#[test]
fn session_badge_is_the_worst_pane_status_present() {
    let mut sessions = vec![test_session("$1")];
    let rows = vec![
        ("$1".to_string(), Some(AgentStatus::Working), Some(100)),
        ("$1".to_string(), Some(AgentStatus::Waiting), Some(50)),
        ("$1".to_string(), Some(AgentStatus::Attention), Some(200)),
    ];

    apply_agent_status(&mut sessions, &rows);

    assert_eq!(sessions[0].agent_status, Some(AgentStatus::Attention));
    assert_eq!(sessions[0].agent_status_since, Some(200));
    assert_eq!(
        sessions[0].agent_pane_counts,
        AgentPaneCounts {
            working: 1,
            waiting: 1,
            attention: 1,
        }
    );
}

#[test]
fn badge_timestamp_is_the_oldest_pane_at_the_worst_rank() {
    let mut sessions = vec![test_session("$1")];
    let rows = vec![
        ("$1".to_string(), Some(AgentStatus::Waiting), Some(500)),
        ("$1".to_string(), Some(AgentStatus::Waiting), Some(100)),
    ];

    apply_agent_status(&mut sessions, &rows);

    assert_eq!(sessions[0].agent_status, Some(AgentStatus::Waiting));
    assert_eq!(sessions[0].agent_status_since, Some(100));
}

#[test]
fn sessions_with_no_matching_pane_rows_stay_agent_free() {
    let mut sessions = vec![test_session("$1")];

    apply_agent_status(&mut sessions, &[]);

    assert_eq!(sessions[0].agent_status, None);
    assert_eq!(sessions[0].agent_status_since, None);
}

fn test_session(id: &str) -> Session {
    Session {
        id: id.to_string(),
        name: id.to_string(),
        attached: false,
        window_count: 1,
        current_window: None,
        last_activity: None,
        preview: Vec::new(),
        preview_error: None,
        agent_status: None,
        agent_status_since: None,
        agent_pane_counts: AgentPaneCounts::default(),
    }
}
