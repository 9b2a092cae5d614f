use tmux_expose::model::{AgentPaneCounts, AgentStatus, App, Session};
use tmux_expose::order::{
    next_urgent_session, sort_sessions_by_agent_status, sort_sessions_by_agent_status_with_current,
};

fn session(name: &str) -> Session {
    Session {
        id: format!("${name}"),
        name: name.to_string(),
        attached: false,
        window_count: 1,
        current_window: None,
        last_activity: None,
        preview: Vec::new(),
        preview_error: None,
        agent_status: None,
        agent_status_since: None,
        agent_pane_counts: AgentPaneCounts::default(),
    }
}

fn session_with_agent_status(
    name: &str,
    status: Option<AgentStatus>,
    since: Option<i64>,
) -> Session {
    Session {
        agent_status: status,
        agent_status_since: since,
        ..session(name)
    }
}

#[test]
fn agent_sort_puts_attention_before_waiting_before_working_before_none() {
    let mut sessions = vec![
        session_with_agent_status("idle", None, None),
        session_with_agent_status("working", Some(AgentStatus::Working), Some(1)),
        session_with_agent_status("attention", Some(AgentStatus::Attention), Some(1)),
        session_with_agent_status("waiting", Some(AgentStatus::Waiting), Some(1)),
    ];

    sort_sessions_by_agent_status(&mut sessions);

    let names: Vec<&str> = sessions.iter().map(|s| s.name.as_str()).collect();
    assert_eq!(names, vec!["attention", "waiting", "working", "idle"]);
}

#[test]
fn urgent_agent_session_takes_cursor_from_current_session() {
    let mut sessions = vec![
        session_with_agent_status("current", None, None),
        session_with_agent_status("blocked", Some(AgentStatus::Attention), Some(1)),
    ];
    sort_sessions_by_agent_status(&mut sessions);
    let mut app = App::new(sessions, Some("current".to_string()));
    assert_eq!(app.selected_session().unwrap().name, "current");

    app.select_most_urgent_agent_session();

    assert_eq!(app.selected_session().unwrap().name, "blocked");
}

#[test]
fn working_agent_does_not_take_cursor_from_current_session() {
    let mut sessions = vec![
        session_with_agent_status("current", None, None),
        session_with_agent_status("busy", Some(AgentStatus::Working), Some(1)),
    ];
    sort_sessions_by_agent_status(&mut sessions);
    let mut app = App::new(sessions, Some("current".to_string()));

    app.select_most_urgent_agent_session();

    assert_eq!(app.selected_session().unwrap().name, "current");
}

#[test]
fn agent_sort_puts_current_session_last_within_its_rank() {
    let mut sessions = vec![
        session_with_agent_status("current", Some(AgentStatus::Waiting), Some(1)),
        session_with_agent_status("older", Some(AgentStatus::Waiting), Some(50)),
        session_with_agent_status("newer", Some(AgentStatus::Waiting), Some(100)),
        session_with_agent_status("busy", Some(AgentStatus::Working), Some(1)),
    ];

    sort_sessions_by_agent_status_with_current(&mut sessions, Some("current"));

    let names: Vec<&str> = sessions.iter().map(|s| s.name.as_str()).collect();
    assert_eq!(names, vec!["older", "newer", "current", "busy"]);
}

#[test]
fn agent_sort_keeps_untracked_current_session_in_tmux_order() {
    let mut sessions = vec![
        session_with_agent_status("current", None, None),
        session_with_agent_status("other", None, None),
    ];

    sort_sessions_by_agent_status_with_current(&mut sessions, Some("current"));

    let names: Vec<&str> = sessions.iter().map(|s| s.name.as_str()).collect();
    assert_eq!(names, vec!["current", "other"]);
}

fn triage_sessions() -> Vec<Session> {
    vec![
        session_with_agent_status("idle", None, None),
        session_with_agent_status("c", Some(AgentStatus::Waiting), Some(300)),
        session_with_agent_status("busy", Some(AgentStatus::Working), Some(1)),
        session_with_agent_status("a", Some(AgentStatus::Waiting), Some(100)),
        session_with_agent_status("b", Some(AgentStatus::Waiting), Some(200)),
    ]
}

fn next_name<'a>(sessions: &'a [Session], current: &str) -> Option<&'a str> {
    next_urgent_session(sessions, Some(&format!("${current}")))
        .map(|session| session.name.as_str())
}

#[test]
fn next_cycles_through_every_urgent_session_and_wraps() {
    let sessions = triage_sessions();

    assert_eq!(next_name(&sessions, "a"), Some("b"));
    assert_eq!(next_name(&sessions, "b"), Some("c"));
    assert_eq!(next_name(&sessions, "c"), Some("a"));
}

#[test]
fn next_from_a_non_urgent_session_goes_to_the_most_urgent() {
    let mut sessions = triage_sessions();
    sessions.push(session_with_agent_status(
        "blocked",
        Some(AgentStatus::Attention),
        Some(999),
    ));

    assert_eq!(next_name(&sessions, "idle"), Some("blocked"));
    assert_eq!(next_name(&sessions, "busy"), Some("blocked"));
}

#[test]
fn next_is_none_when_nothing_else_needs_you() {
    let sessions = vec![
        session_with_agent_status("only", Some(AgentStatus::Waiting), Some(1)),
        session_with_agent_status("busy", Some(AgentStatus::Working), Some(1)),
    ];

    assert_eq!(next_name(&sessions, "only"), None);
    assert_eq!(next_name(&sessions, "busy"), Some("only"));
    assert_eq!(next_name(&[session("idle")], "idle"), None);
}

#[test]
fn agent_sort_breaks_ties_by_oldest_timestamp_first() {
    let mut sessions = vec![
        session_with_agent_status("just-now", Some(AgentStatus::Waiting), Some(500)),
        session_with_agent_status("neglected", Some(AgentStatus::Waiting), Some(100)),
    ];

    sort_sessions_by_agent_status(&mut sessions);

    let names: Vec<&str> = sessions.iter().map(|s| s.name.as_str()).collect();
    assert_eq!(names, vec!["neglected", "just-now"]);
}

#[test]
fn agent_sort_is_stable_for_sessions_with_no_agent() {
    let mut sessions = vec![
        session_with_agent_status("zeta", None, None),
        session_with_agent_status("alpha", None, None),
    ];

    sort_sessions_by_agent_status(&mut sessions);

    let names: Vec<&str> = sessions.iter().map(|s| s.name.as_str()).collect();
    assert_eq!(names, vec!["zeta", "alpha"]);
}

#[test]
fn selects_current_session_when_present() {
    let app = App::new(
        vec![session("dev"), session("logs"), session("notes")],
        Some("logs".to_string()),
    );

    assert_eq!(app.selected_index, 1);
}

#[test]
fn clamps_navigation_at_grid_edges() {
    let mut app = App::new(vec![session("one"), session("two"), session("three")], None);

    app.move_left();
    assert_eq!(app.selected_index, 0);

    app.move_right();
    app.move_right();
    app.move_right();
    assert_eq!(app.selected_index, 2);

    app.move_down(2);
    assert_eq!(app.selected_index, 2);

    app.move_up(2);
    assert_eq!(app.selected_index, 0);
}

#[test]
fn preserves_selected_session_by_name_after_refresh() {
    let mut app = App::new(
        vec![session("dev"), session("logs"), session("notes")],
        None,
    );
    app.selected_index = 1;

    app.replace_sessions(vec![session("new"), session("logs"), session("dev")]);

    assert_eq!(app.selected_session().unwrap().name, "logs");
}

#[test]
fn preserves_preview_for_matching_session_after_refresh() {
    let mut app = App::new(
        vec![session("dev"), session("logs")],
        Some("dev".to_string()),
    );
    app.sessions[0].preview = vec!["snapshot".to_string()];
    app.sessions[0].preview_error = None;

    let mut refreshed_dev = session("dev");
    refreshed_dev.preview = Vec::new();
    refreshed_dev.preview_error = Some("Current session preview disabled".to_string());

    let mut refreshed_logs = session("logs");
    refreshed_logs.preview = vec!["live".to_string()];

    app.replace_sessions_preserving_preview_for(
        vec![refreshed_dev, refreshed_logs],
        Some("$dev"),
    );

    assert_eq!(app.sessions[0].preview, vec!["snapshot".to_string()]);
    assert_eq!(app.sessions[0].preview_error, None);
    assert_eq!(app.sessions[1].preview, vec!["live".to_string()]);
}

#[test]
fn search_filters_sessions_by_fuzzy_name() {
    let mut app = App::new(
        vec![
            session("backend-api"),
            session("frontend"),
            session("database"),
        ],
        None,
    );

    app.start_search();
    app.push_search_char('b');
    app.push_search_char('a');

    let names: Vec<&str> = app
        .visible_sessions()
        .into_iter()
        .map(|session| session.name.as_str())
        .collect();
    assert_eq!(names, vec!["backend-api", "database"]);
}

#[test]
fn selected_session_uses_filtered_selection() {
    let mut app = App::new(
        vec![session("backend"), session("frontend"), session("database")],
        None,
    );

    app.start_search();
    app.push_search_char('f');

    assert_eq!(app.selected_index, 0);
    assert_eq!(app.selected_session().unwrap().name, "frontend");
}

#[test]
fn clearing_search_restores_all_sessions() {
    let mut app = App::new(vec![session("backend"), session("frontend")], None);

    app.start_search();
    app.push_search_char('f');
    app.clear_search();

    assert!(!app.is_searching());
    assert_eq!(app.visible_session_count(), 2);
}

#[test]
fn up_from_first_row_keeps_selection_in_place() {
    let mut app = App::new(vec![session("one"), session("two"), session("three")], None);
    app.selected_index = 1;

    app.move_up(2);

    assert_eq!(app.selected_index, 1);
}

#[test]
fn down_to_incomplete_row_selects_nearest_card() {
    let mut app = App::new(
        vec![
            session("one"),
            session("two"),
            session("three"),
            session("four"),
            session("five"),
        ],
        None,
    );
    app.selected_index = 2;

    app.move_down(3);

    assert_eq!(app.selected_index, 4);
}
