use tmux_expose::agent_status::{run_agent_status, validate_agent_status_word};
use tmux_expose::command::TmuxCommand;
use tmux_expose::model::AgentStatus;
use tmux_expose::panes::parse_pane_agent_rows;

fn set(pane: &str, option: &str, value: &str) -> TmuxCommand {
    TmuxCommand::SetPaneOption {
        pane: pane.to_string(),
        option: option.to_string(),
        value: value.to_string(),
    }
}

fn clear(pane: &str, option: &str) -> TmuxCommand {
    TmuxCommand::ClearPaneOption {
        pane: pane.to_string(),
        option: option.to_string(),
    }
}

#[test]
fn accepts_known_agent_status_words() {
    for word in ["working", "waiting", "attention", "clear"] {
        assert!(
            validate_agent_status_word(word).is_ok(),
            "{word} should be valid"
        );
    }
}

#[test]
fn rejects_unknown_agent_status_words() {
    assert!(validate_agent_status_word("").is_err());
    assert!(validate_agent_status_word("done").is_err());
    assert!(validate_agent_status_word("Waiting").is_err());
}

#[test]
fn an_unknown_word_is_quoted() {
    assert_eq!(
        validate_agent_status_word("so\tdone"),
        Err(
            "unknown agent status \"so\\tdone\"; expected working, waiting, attention, or clear"
                .to_string()
        )
    );
}

#[test]
fn a_report_sets_status_and_time() {
    let commands = run_agent_status("waiting", Some("%3"), Some(1700000000)).unwrap();
    assert_eq!(
        commands,
        vec![
            set("%3", "@agent_status", "waiting"),
            set("%3", "@agent_status_since", "1700000000"),
        ]
    );
    assert_eq!(
        commands[0].args(),
        vec!["set-option", "-p", "-t", "%3", "@agent_status", "waiting"]
    );
}

#[test]
fn an_unknown_time_is_left_empty() {
    assert_eq!(
        run_agent_status("working", Some("%3"), None).unwrap(),
        vec![
            set("%3", "@agent_status", "working"),
            set("%3", "@agent_status_since", ""),
        ]
    );
}

#[test]
fn clearing_unsets_both_options() {
    let commands = run_agent_status("clear", Some("%3"), Some(5)).unwrap();
    assert_eq!(
        commands,
        vec![clear("%3", "@agent_status"), clear("%3", "@agent_status_since")]
    );
    assert_eq!(
        commands[1].args(),
        vec!["set-option", "-p", "-t", "%3", "-u", "@agent_status_since"]
    );
}

#[test]
fn outside_tmux_nothing_is_recorded() {
    assert_eq!(run_agent_status("waiting", None, Some(5)), Ok(vec![]));
    assert_eq!(run_agent_status("waiting", Some(""), Some(5)), Ok(vec![]));
    assert!(run_agent_status("done", None, Some(5)).is_err());
    assert!(run_agent_status("done", Some("%3"), Some(5)).is_err());
}

#[test]
fn a_report_is_read_back_from_the_pane_listing() {
    let commands = run_agent_status("attention", Some("%3"), Some(1700000000)).unwrap();
    let mut line = "$1".to_string();
    for command in &commands {
        if let TmuxCommand::SetPaneOption { value, .. } = command {
            line.push(':');
            line.push_str(value);
        }
    }
    line.push_str("\n$2::\n");
    assert_eq!(
        parse_pane_agent_rows(&line),
        vec![
            ("$1".to_string(), Some(AgentStatus::Attention), Some(1700000000)),
            ("$2".to_string(), None, None),
        ]
    );
}
