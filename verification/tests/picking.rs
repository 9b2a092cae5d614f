use tmux_expose::model::picker::Step;
use tmux_expose::model::{AgentPaneCounts, AgentStatus, App, Session};
use tmux_expose::tmux::TmuxError;

fn session(name: &str, status: Option<AgentStatus>, since: Option<i64>) -> Session {
    Session {
        id: format!("${name}"),
        name: name.to_string(),
        attached: false,
        window_count: 1,
        current_window: None,
        last_activity: None,
        preview: vec![format!("{name} live")],
        preview_error: None,
        agent_status: status,
        agent_status_since: since,
        agent_pane_counts: AgentPaneCounts::default(),
    }
}

fn grid() -> Vec<Session> {
    vec![
        session("idle", None, None),
        session("busy", Some(AgentStatus::Working), Some(1)),
        session("blocked", Some(AgentStatus::Attention), Some(9)),
    ]
}

fn names(app: &App) -> Vec<String> {
    app.visible_sessions().into_iter().map(|s| s.name.clone()).collect()
}

fn error(message: &str) -> TmuxError {
    TmuxError { message: message.to_string() }
}

#[test]
fn opens_sorted_with_the_cursor_on_the_current_session() {
    let app = App::open_on(Ok(grid()), Some("idle".to_string()), true, true);
    assert_eq!(names(&app), vec!["blocked", "busy", "idle"]);
    assert_eq!(app.selected_session().unwrap().name, "idle");
    assert!(app.vim_keys);
    assert_eq!(app.error, None);
}

#[test]
fn opens_in_the_order_of_tmux_without_agent_sort() {
    let app = App::open_on(Ok(grid()), Some("busy".to_string()), false, false);
    assert_eq!(names(&app), vec!["idle", "busy", "blocked"]);
    assert_eq!(app.selected_session().unwrap().name, "busy");
    assert!(!app.vim_keys);
}

#[test]
fn opens_on_an_error() {
    let mut app = App::open_on(Err(error("no server")), None, true, false);
    assert_eq!(app.error.as_deref(), Some("no server\n\nPress q or Esc to quit."));
    assert_eq!(app.visible_session_count(), 0);
    app.should_switch = true;
    assert_eq!(app.next_step(), Step::Wait);
    assert!(!app.should_switch);
}

#[test]
fn a_failed_refresh_keeps_the_sessions_until_one_succeeds() {
    let mut app = App::open_on(Ok(grid()), None, true, false);
    app.refresh(Err(error("gone")), Some("$idle"), true);
    assert_eq!(app.error.as_deref(), Some("gone\n\nPress q or Esc to quit."));
    assert_eq!(names(&app), vec!["blocked", "busy", "idle"]);
    app.refresh(Ok(vec![session("new", None, None)]), Some("$idle"), true);
    assert_eq!(app.error, None);
    assert_eq!(names(&app), vec!["new"]);
}

#[test]
fn a_refresh_keeps_cursor_and_preview() {
    let mut app = App::open_on(Ok(grid()), Some("idle".to_string()), true, false);
    let mut listed = grid();
    listed[0].preview = Vec::new();
    listed[0].preview_error = Some("Current session preview disabled".to_string());
    listed[1].preview = vec!["more".to_string()];
    listed[1].agent_status = Some(AgentStatus::Attention);
    app.refresh(Ok(listed), Some("$idle"), true);
    assert_eq!(names(&app), vec!["busy", "blocked", "idle"]);
    let selected = app.selected_session().unwrap();
    assert_eq!(selected.name, "idle");
    assert_eq!(selected.preview, vec!["idle live"]);
    assert_eq!(selected.preview_error, None);
    assert_eq!(app.sessions[0].preview, vec!["more"]);
}

#[test]
fn waits_until_told_otherwise() {
    let mut app = App::open_on(Ok(grid()), Some("idle".to_string()), true, false);
    assert_eq!(app.next_step(), Step::Wait);
    app.should_quit = true;
    app.should_switch = true;
    assert_eq!(app.next_step(), Step::Quit);
}

#[test]
fn switches_to_the_session_under_the_cursor() {
    let mut app = App::open_on(Ok(grid()), Some("idle".to_string()), true, false);
    app.select_most_urgent_agent_session();
    app.should_switch = true;
    assert_eq!(app.next_step(), Step::Switch { target: "$blocked".to_string() });
    assert!(app.should_switch);
    assert!(app.switch_answered(Ok(())));
}

#[test]
fn choosing_the_current_session_just_closes() {
    let mut app = App::open_on(Ok(grid()), Some("idle".to_string()), true, false);
    app.should_switch = true;
    assert_eq!(app.next_step(), Step::Quit);
}

#[test]
fn a_refused_switch_is_shown_and_not_repeated() {
    let mut app = App::open_on(Ok(grid()), None, true, false);
    app.should_switch = true;
    assert_eq!(app.next_step(), Step::Switch { target: "$blocked".to_string() });
    assert!(!app.switch_answered(Err(error("refused"))));
    assert_eq!(app.error.as_deref(), Some("refused\n\nPress q or Esc to quit."));
    assert!(!app.should_switch);
    assert_eq!(app.next_step(), Step::Wait);
}
