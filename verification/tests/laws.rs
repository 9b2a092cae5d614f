use tmux_expose::model::{fuzzy_matches, AgentPaneCounts, AgentStatus, App, Session};
use tmux_expose::order::{
    next_urgent_session, sort_sessions_by_agent_status, sort_sessions_by_agent_status_with_current,
};
use tmux_expose::panes::{
    apply_agent_status, merge_oldest, parse_pane_agent_rows, try_apply_agent_status,
    AgentAggregate,
};
use tmux_expose::tmux::{parse_sessions, parse_sessions_output, trim_preview};

fn session(name: &str) -> Session {
    Session {
        id: format!("${name}"),
        name: name.to_string(),
        attached: false,
        window_count: 1,
        current_window: None,
        last_activity: None,
        preview: Vec::new(),
        preview_error: None,
        agent_status: None,
        agent_status_since: None,
        agent_pane_counts: AgentPaneCounts::default(),
    }
}

fn with_agent(name: &str, status: AgentStatus, since: Option<i64>) -> Session {
    Session {
        agent_status: Some(status),
        agent_status_since: since,
        ..session(name)
    }
}

fn named(names: &[&str]) -> Vec<Session> {
    names.iter().map(|name| session(name)).collect()
}

fn order_of(sessions: &[Session]) -> Vec<&str> {
    sessions.iter().map(|s| s.name.as_str()).collect()
}

fn shown(app: &App) -> Vec<&str> {
    app.visible_sessions().into_iter().map(|s| s.name.as_str()).collect()
}

#[test]
fn statuses_are_ordered_by_urgency() {
    assert!(AgentStatus::Working < AgentStatus::Waiting);
    assert!(AgentStatus::Waiting < AgentStatus::Attention);
    assert_eq!(AgentStatus::Attention.max(AgentStatus::Working), AgentStatus::Attention);
    assert_eq!(AgentStatus::Waiting.rank(), 2);
    assert_eq!(AgentStatus::parse("attention"), Some(AgentStatus::Attention));
    assert_eq!(AgentStatus::parse("working"), Some(AgentStatus::Working));
    assert_eq!(AgentStatus::parse("waiting"), Some(AgentStatus::Waiting));
    assert_eq!(AgentStatus::parse("attention "), None);
}

#[test]
fn pane_counts_add_up() {
    let counts = AgentPaneCounts { working: 1, waiting: 2, attention: 3 };
    assert_eq!(counts.total(), 6);
    assert_eq!(AgentPaneCounts::default().total(), 0);
}

#[test]
fn sorting_twice_changes_nothing() {
    let mut sessions = vec![
        session("idle"),
        with_agent("late", AgentStatus::Waiting, None),
        with_agent("b", AgentStatus::Waiting, Some(7)),
        with_agent("a", AgentStatus::Waiting, Some(7)),
        with_agent("old", AgentStatus::Waiting, Some(-5)),
    ];
    sort_sessions_by_agent_status(&mut sessions);
    let once: Vec<String> = order_of(&sessions).iter().map(|s| s.to_string()).collect();
    assert_eq!(once, vec!["old", "b", "a", "late", "idle"]);
    sort_sessions_by_agent_status(&mut sessions);
    assert_eq!(order_of(&sessions), once);
}

#[test]
fn the_current_session_yields_only_within_its_rank() {
    let mut sessions = vec![
        with_agent("current", AgentStatus::Attention, Some(1)),
        with_agent("other", AgentStatus::Waiting, Some(1)),
        session("idle"),
    ];
    sort_sessions_by_agent_status_with_current(&mut sessions, Some("current"));
    assert_eq!(order_of(&sessions), vec!["current", "other", "idle"]);
    let mut sessions = vec![session("one"), session("two")];
    sort_sessions_by_agent_status_with_current(&mut sessions, None);
    assert_eq!(order_of(&sessions), vec!["one", "two"]);
    let mut nothing: Vec<Session> = Vec::new();
    sort_sessions_by_agent_status(&mut nothing);
    assert!(nothing.is_empty());
}

#[test]
fn the_walk_reaches_every_session_that_needs_you() {
    let sessions = vec![
        with_agent("w", AgentStatus::Waiting, Some(3)),
        with_agent("x", AgentStatus::Attention, Some(9)),
        with_agent("y", AgentStatus::Working, Some(1)),
        with_agent("z", AgentStatus::Waiting, Some(1)),
    ];
    let mut here = "$y".to_string();
    let mut walk = Vec::new();
    for _ in 0..4 {
        let next = next_urgent_session(&sessions, Some(&here)).unwrap();
        walk.push(next.name.clone());
        here = next.id.clone();
    }
    assert_eq!(walk, vec!["x", "z", "w", "x"]);
    assert_eq!(next_urgent_session(&sessions, None).unwrap().name, "x");
    assert!(next_urgent_session(&[], None).is_none());
}

#[test]
fn fuzzy_matching_ignores_case() {
    assert!(fuzzy_matches("Backend-API", "bap"));
    assert!(fuzzy_matches("backend-api", "BAP"));
    assert!(!fuzzy_matches("backend-api", "pab"));
    assert!(fuzzy_matches("anything", ""));
    assert!(fuzzy_matches("\u{c9}t\u{e9}", "\u{e9}\u{c9}"));
    assert!(!fuzzy_matches("", "a"));
}

#[test]
fn typing_narrows_and_erasing_widens() {
    let mut app = App::new(named(&["backend", "frontend", "database"]), None);
    app.push_search_char('x');
    assert_eq!(app.search_text(), None);
    app.pop_search_char();
    assert_eq!(app.search_text(), None);
    app.start_search();
    assert!(app.is_searching());
    assert_eq!(shown(&app), vec!["backend", "frontend", "database"]);
    app.push_search_char('E');
    assert_eq!(shown(&app), vec!["backend", "frontend", "database"]);
    app.push_search_char('n');
    assert_eq!(shown(&app), vec!["backend", "frontend"]);
    app.move_right();
    app.push_search_char('\u{e9}');
    assert_eq!(app.search_text(), Some("En\u{e9}"));
    assert_eq!(app.visible_session_count(), 0);
    assert!(app.selected_session().is_none());
    app.pop_search_char();
    assert_eq!(app.search_text(), Some("En"));
    assert_eq!(app.selected_index, 0);
    app.stop_editing_search();
    assert!(!app.is_searching());
    assert_eq!(shown(&app), vec!["backend", "frontend"]);
    app.clear_search();
    assert_eq!(app.search_text(), None);
    assert_eq!(app.visible_session_count(), 3);
}

#[test]
fn erasing_an_empty_query_keeps_it() {
    let mut app = App::new(named(&["one"]), None);
    app.start_search();
    app.pop_search_char();
    assert_eq!(app.search_text(), Some(""));
}

#[test]
fn moves_undo_each_other() {
    let mut app = App::new(named(&["1", "2", "3", "4", "5", "6", "7"]), None);
    app.selected_index = 1;
    app.move_right();
    app.move_left();
    assert_eq!(app.selected_index, 1);
    app.move_down(3);
    assert_eq!(app.selected_index, 4);
    app.move_up(3);
    assert_eq!(app.selected_index, 1);
    app.selected_index = 4;
    app.move_down(3);
    assert_eq!(app.selected_index, 6);
    app.move_down(3);
    assert_eq!(app.selected_index, 6);
    app.move_up(0);
    assert_eq!(app.selected_index, 5);
    app.move_down(0);
    assert_eq!(app.selected_index, 6);
    app.selected_index = 0;
    app.move_down(usize::MAX);
    assert_eq!(app.selected_index, 0);
}

#[test]
fn an_empty_grid_has_nothing_to_move_to() {
    let mut app = App::new(Vec::new(), Some("gone".to_string()));
    app.move_left();
    app.move_right();
    app.move_up(2);
    app.move_down(2);
    app.select_most_urgent_agent_session();
    assert_eq!(app.selected_index, 0);
    assert!(app.selected_session().is_none());
}

#[test]
fn a_refresh_clamps_the_cursor() {
    let mut app = App::new(named(&["a", "b", "c"]), Some("c".to_string()));
    app.replace_sessions(named(&["a", "b"]));
    assert_eq!(app.selected_index, 1);
    app.replace_sessions(named(&["x", "y", "z"]));
    assert_eq!(app.selected_index, 1);
    app.replace_sessions(Vec::new());
    assert_eq!(app.selected_index, 0);
}

#[test]
fn a_refresh_follows_the_filtered_selection() {
    let mut app = App::new(named(&["fa", "b", "fc"]), None);
    app.start_search();
    app.push_search_char('f');
    app.move_right();
    app.replace_sessions(named(&["fc", "b", "fa"]));
    assert_eq!(app.selected_session().unwrap().name, "fc");
    assert_eq!(app.selected_index, 0);
}

#[test]
fn a_preview_is_kept_only_for_the_named_session() {
    let mut app = App::new(named(&["a", "b"]), None);
    app.sessions[0].preview = vec!["old a".to_string()];
    app.sessions[1].preview = vec!["old b".to_string()];
    app.replace_sessions_preserving_preview_for(named(&["b", "a"]), Some("$a"));
    assert_eq!(app.sessions[0].preview, Vec::<String>::new());
    assert_eq!(app.sessions[1].preview, vec!["old a"]);
    app.replace_sessions_preserving_preview_for(named(&["a", "b"]), Some("$gone"));
    assert_eq!(app.sessions[0].preview, Vec::<String>::new());
    app.replace_sessions_preserving_preview_for(named(&["a"]), None);
    assert_eq!(app.sessions.len(), 1);
}

#[test]
fn listings_read_back() {
    let sessions = parse_sessions("$1:a:0:+3:9:x:y\n\n$2::1:1:1:1\n$3:c\n$4:d:2:x:1:\r\n");
    assert_eq!(order_of(&sessions), vec!["a", "c", "d"]);
    assert_eq!(sessions[0].window_count, 3);
    assert!(!sessions[0].attached);
    assert_eq!(sessions[0].last_activity.as_deref(), Some("x:y"));
    assert!(!sessions[1].attached);
    assert_eq!(sessions[1].window_count, 0);
    assert_eq!(sessions[1].last_activity, None);
    assert!(sessions[2].attached);
    assert_eq!(sessions[2].window_count, 0);
    assert_eq!(sessions[2].last_activity, None);
}

#[test]
fn blank_listings_are_empty() {
    assert_eq!(parse_sessions_output(""), Ok(vec![]));
    assert_eq!(parse_sessions_output(" \n\t\n"), Ok(vec![]));
    assert_eq!(
        parse_sessions_output("x").unwrap_err().message,
        "tmux list-sessions returned output in an unexpected format"
    );
}

#[test]
fn pane_lines_read_back() {
    assert_eq!(
        parse_pane_agent_rows(":waiting:1\n$1\n$2:attention\n$3:waiting:1:2\n$4:working:-3\n"),
        vec![
            ("$1".to_string(), None, None),
            ("$2".to_string(), Some(AgentStatus::Attention), None),
            ("$3".to_string(), Some(AgentStatus::Waiting), None),
            ("$4".to_string(), Some(AgentStatus::Working), Some(-3)),
        ]
    );
}

#[test]
fn badges_do_not_depend_on_the_order_of_panes() {
    let rows = vec![
        ("$a".to_string(), Some(AgentStatus::Waiting), None),
        ("$b".to_string(), Some(AgentStatus::Working), Some(4)),
        ("$a".to_string(), Some(AgentStatus::Waiting), Some(8)),
        ("$a".to_string(), None, Some(1)),
        ("$a".to_string(), Some(AgentStatus::Waiting), Some(9)),
    ];
    let mut backwards = rows.clone();
    backwards.reverse();
    let mut one = named(&["a", "b", "c"]);
    let mut two = named(&["a", "b", "c"]);
    apply_agent_status(&mut one, &rows);
    assert!(try_apply_agent_status(&mut two, &backwards));
    assert_eq!(one, two);
    assert_eq!(one[0].agent_status, Some(AgentStatus::Waiting));
    assert_eq!(one[0].agent_status_since, Some(8));
    assert_eq!(one[0].agent_pane_counts.waiting, 3);
    assert_eq!(one[1].agent_status, Some(AgentStatus::Working));
    assert_eq!(one[1].agent_status_since, Some(4));
    assert_eq!(one[2], session("c"));
}

#[test]
fn aggregates_keep_the_oldest_at_each_status() {
    let mut aggregate = AgentAggregate::default();
    assert_eq!(aggregate.worst(), None);
    aggregate.record(AgentStatus::Working, None);
    assert_eq!(aggregate.worst(), Some((AgentStatus::Working, None)));
    aggregate.record(AgentStatus::Working, Some(3));
    aggregate.record(AgentStatus::Working, Some(2));
    aggregate.record(AgentStatus::Working, Some(5));
    assert_eq!(aggregate.worst(), Some((AgentStatus::Working, Some(2))));
    aggregate.record(AgentStatus::Attention, Some(7));
    assert_eq!(aggregate.worst(), Some((AgentStatus::Attention, Some(7))));
    assert_eq!(aggregate.counts.total(), 5);
    let mut slot = Some(4);
    merge_oldest(&mut slot, None);
    assert_eq!(slot, Some(4));
    merge_oldest(&mut slot, Some(1));
    assert_eq!(slot, Some(1));
}

#[test]
fn previews_end_where_the_pane_does() {
    assert_eq!(trim_preview("", 5), Vec::<String>::new());
    assert_eq!(trim_preview("\n \n\t\n", 5), Vec::<String>::new());
    assert_eq!(trim_preview("a\n\nb  \n", 5), vec!["a", "", "b"]);
    assert_eq!(trim_preview("a\nb\n", 0), Vec::<String>::new());
    assert_eq!(trim_preview("a\nb\nc", 1), vec!["c"]);
}

#[test]
fn clones_are_equal() {
    let mut original = with_agent("a", AgentStatus::Waiting, Some(1));
    original.preview = vec!["x".to_string()];
    assert_eq!(original.clone(), original);
}

#[test]
fn text_entry_and_query_go_together_until_a_filter_is_kept() {
    let mut app = App::new(named(&["one", "two"]), None);
    assert_eq!(app.is_searching(), app.search_text().is_some());
    app.push_search_char('o');
    assert_eq!(app.is_searching(), app.search_text().is_some());
    app.start_search();
    app.push_search_char('o');
    app.move_right();
    app.replace_sessions(named(&["two"]));
    app.pop_search_char();
    app.pop_search_char();
    assert!(app.is_searching() && app.search_text().is_some());
    app.clear_search();
    assert!(!app.is_searching() && app.search_text().is_none());
    app.start_search();
    app.stop_editing_search();
    assert!(!app.is_searching() && app.search_text().is_some());
}

#[test]
fn listings_in_turn_read_as_one() {
    let one = "$1:a:0:1:1:1\nnonsense\r\n";
    let two = "\n$2:b:1:2:2:2";
    let mut expected = parse_sessions(one);
    expected.extend(parse_sessions(two));
    assert_eq!(parse_sessions(&format!("{one}{two}")), expected);
    assert_eq!(order_of(&expected), vec!["a", "b"]);
    let mut rows = parse_pane_agent_rows("$1:waiting:5\n");
    rows.extend(parse_pane_agent_rows("$2::"));
    assert_eq!(parse_pane_agent_rows("$1:waiting:5\n$2::"), rows);
}

#[test]
fn a_preview_is_its_own_preview() {
    let preview = trim_preview("first\nsecond \r\n\n third\t\n\n", 3);
    assert_eq!(preview, vec!["second", "", " third"]);
    assert_eq!(trim_preview(&preview.join("\n"), 3), preview);
    assert_eq!(trim_preview(&preview.join("\n"), 30), preview);
}

#[test]
fn down_leads_back_from_above() {
    let mut app = App::new(named(&["1", "2", "3", "4", "5"]), None);
    for start in 3..5 {
        app.selected_index = start;
        app.move_up(3);
        assert_eq!(app.selected_index, start - 3);
        app.move_down(3);
        assert_eq!(app.selected_index, start);
    }
}

#[test]
fn the_walk_starts_at_the_earliest_of_equals() {
    let sessions = vec![
        with_agent("late", AgentStatus::Waiting, Some(9)),
        with_agent("first", AgentStatus::Waiting, Some(5)),
        with_agent("second", AgentStatus::Waiting, Some(5)),
    ];
    assert_eq!(next_urgent_session(&sessions, None).unwrap().name, "first");
    assert_eq!(next_urgent_session(&sessions, Some("$first")).unwrap().name, "second");
}
