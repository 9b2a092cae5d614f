//! The command that an agent's hook runs to report the agent's status.
use vstd::prelude::*;

use crate::command::{CommandView, TmuxCommand};
use crate::model::AgentStatus;
use crate::panes;
use crate::panes::PaneRowView;
use crate::seqs;
use crate::text;
use crate::tmux;

verus! {

/// The pane option that holds an agent's status.
pub const STATUS_OPTION: &'static str = "@agent_status";

/// The pane option that holds since when the agent has that status.
pub const SINCE_OPTION: &'static str = "@agent_status_since";

/// Whether a word can be reported: a status word, or `clear`.
pub open spec fn reportable(word: Seq<char>) -> bool {
    word == "clear"@ || AgentStatus::of_word(word) is Some
}

/// What an unknown word is answered.
pub open spec fn unknown_word(word: Seq<char>) -> Seq<char> {
    "unknown agent status "@ + text::debug_text(word)
        + "; expected working, waiting, attention, or clear"@
}

/// Accepts `working`, `waiting`, `attention` and `clear`, and no other word.
pub fn validate_agent_status_word(status: &str) -> (r: Result<(), String>)
    ensures
        match r {
            Ok(()) => reportable(status@),
            Err(message) => !reportable(status@) && message@ == unknown_word(status@),
        },
{
    if *status == *"clear" || AgentStatus::parse(status).is_some() {
        return Ok(());
    }
    let mut message = "unknown agent status ".to_string();
    message.append(text::debug_quoted(status).as_str());
    message.append("; expected working, waiting, attention, or clear");
    Err(message)
}

/// A time in seconds in decimal notation; an unknown time is the empty text.
pub open spec fn timestamp(now: Option<u64>) -> Seq<char> {
    match now {
        Some(secs) => text::decimal(secs as nat),
        None => Seq::empty(),
    }
}

/// The commands that report `status` for `pane` at the time `now`. Outside tmux there is no
/// pane, and nothing to record.
pub open spec fn report(status: Seq<char>, pane: Option<Seq<char>>, now: Option<u64>) -> Seq<
    CommandView,
> {
    match pane {
        Some(pane) => if pane.len() == 0 {
            Seq::empty()
        } else if status == "clear"@ {
            seq![
                CommandView::ClearPaneOption { pane, option: STATUS_OPTION@ },
                CommandView::ClearPaneOption { pane, option: SINCE_OPTION@ },
            ]
        } else {
            seq![
                CommandView::SetPaneOption { pane, option: STATUS_OPTION@, value: status },
                CommandView::SetPaneOption {
                    pane,
                    option: SINCE_OPTION@,
                    value: timestamp(now),
                },
            ]
        },
        None => Seq::empty(),
    }
}

/// The contents of each command.
pub open spec fn command_views(commands: Seq<TmuxCommand>) -> Seq<CommandView> {
    Seq::new(commands.len(), |i: int| commands[i]@)
}

/// The commands that report `status` for the calling pane, in their order. `now` is the time in
/// seconds since the epoch, if it is known. An unknown word is refused, whatever the pane.
pub fn run_agent_status(status: &str, pane: Option<&str>, now: Option<u64>) -> (r: Result<
    Vec<TmuxCommand>,
    String,
>)
    ensures
        match r {
            Ok(commands) => reportable(status@) && command_views(commands@) == report(
                status@,
                text::opt_str(pane),
                now,
            ),
            Err(message) => !reportable(status@) && message@ == unknown_word(status@),
        },
{
    if let Err(message) = validate_agent_status_word(status) {
        return Err(message);
    }
    let mut commands: Vec<TmuxCommand> = Vec::new();
    let ghost expected = report(status@, text::opt_str(pane), now);
    if let Some(pane) = pane {
        if !pane.is_empty() {
            if *status == *"clear" {
                commands.push(
                    TmuxCommand::ClearPaneOption {
                        pane: pane.to_string(),
                        option: STATUS_OPTION.to_string(),
                    },
                );
                commands.push(
                    TmuxCommand::ClearPaneOption {
                        pane: pane.to_string(),
                        option: SINCE_OPTION.to_string(),
                    },
                );
            } else {
                let since = match now {
                    Some(secs) => text::to_decimal(secs),
                    None => String::new(),
                };
                commands.push(
                    TmuxCommand::SetPaneOption {
                        pane: pane.to_string(),
                        option: STATUS_OPTION.to_string(),
                        value: status.to_string(),
                    },
                );
                commands.push(
                    TmuxCommand::SetPaneOption {
                        pane: pane.to_string(),
                        option: SINCE_OPTION.to_string(),
                        value: since,
                    },
                );
            }
        }
    }
    assert(command_views(commands@) =~= expected);
    Ok(commands)
}

/// The line that tmux prints for a pane of the session `id` whose options hold `status` and
/// `since`; an option that is not set prints as nothing.
pub open spec fn pane_line(id: Seq<char>, status: Seq<char>, since: Seq<char>) -> Seq<char> {
    text::joined(seq![id, status, since], tmux::FIELD_SEPARATOR)
}

/// What the status option of a pane holds.
pub open spec fn status_value(status: Option<AgentStatus>) -> Seq<char> {
    match status {
        Some(status) => status.word(),
        None => Seq::empty(),
    }
}

/// A time as the pane listing tells it.
pub open spec fn told_time(now: Option<u64>) -> Option<i64> {
    match now {
        Some(secs) => Some(secs as i64),
        None => None,
    }
}

/// Whether a pane listing can tell of a session id: it is there, and holds neither the
/// separator nor a line feed.
pub open spec fn tellable(id: Seq<char>) -> bool {
    id.len() > 0 && !id.contains(tmux::FIELD_SEPARATOR) && !id.contains('\n')
}

/// What is reported is read back: a pane's line tells of the status and the time that the pane's
/// options hold, and of none once they were cleared. The time must be one that a timestamp can
/// hold.
pub proof fn law_report_reads_back(id: Seq<char>, status: Option<AgentStatus>, now: Option<u64>)
    requires
        tellable(id),
        now matches Some(secs) ==> secs <= i64::MAX,
    ensures
        reportable(status_value(status)) <==> status is Some,
        panes::row_of_line(pane_line(id, status_value(status), timestamp(now))) == Some(
            PaneRowView { id, status, since: told_time(now) },
        ),
        text::one_line(pane_line(id, status_value(status), timestamp(now))),
{
    reveal_strlit("working");
    reveal_strlit("waiting");
    reveal_strlit("attention");
    reveal_strlit("clear");
    let word = status_value(status);
    if let Some(status) = status {
        crate::model::law_status_word_reads_back(status);
    }
    let since = timestamp(now);
    let f = seq![id, word, since];
    assert(!word.contains(':') && !word.contains('\n'));
    assert forall|i: int| 0 <= i < f.len() - 1 implies !(#[trigger] f[i]).contains(
        tmux::FIELD_SEPARATOR,
    ) by {}
    text::law_fields_read_back(f, tmux::FIELD_SEPARATOR);
    if let Some(secs) = now {
        text::law_decimal_reads_back(secs as nat);
        assert(text::digit(since[0]));
    }
    assert forall|i: int| 0 <= i < since.len() implies text::digit(#[trigger] since[i]) by {}
    let rest = word.push(':') + since;
    let line = id.push(':') + rest;
    assert(text::joined(f, ':') =~= line) by {
        reveal_with_fuel(text::joined, 3);
        assert(f.drop_first() =~= seq![word, since]);
        assert(f.drop_first().drop_first() =~= seq![since]);
    }
    assert(!line.contains('\n')) by {
        if line.contains('\n') {
            let i = choose|i: int| 0 <= i < line.len() && line[i] == '\n';
            if i < id.len() {
                assert(id[i] == '\n');
            } else if id.len() < i < id.len() + 1 + word.len() {
                assert(word[i - id.len() - 1] == '\n');
            } else if i > id.len() + 1 + word.len() {
                assert(since[i - id.len() - word.len() - 2] == '\n');
            }
        }
    }
    if since.len() > 0 {
        assert(line.last() == since.last());
        assert(text::digit(since[since.len() - 1]));
    } else {
        assert(line.last() == ':');
    }
}

/// What a pane holds: the id of its session, and what was reported last.
pub struct PaneReport {
    pub id: Seq<char>,
    pub status: Option<AgentStatus>,
    pub now: Option<u64>,
}

/// The lines that tmux prints for panes.
pub open spec fn pane_lines(panes: Seq<PaneReport>) -> Seq<Seq<char>> {
    Seq::new(
        panes.len(),
        |i: int|
            pane_line(panes[i].id, status_value(panes[i].status), timestamp(panes[i].now)),
    )
}

/// A pane listing tells of every pane what was reported for it last, in the order of the panes.
pub proof fn law_reports_read_back(panes: Seq<PaneReport>)
    requires
        forall|i: int| 0 <= i < panes.len() ==> tellable((#[trigger] panes[i]).id),
        forall|i: int|
            0 <= i < panes.len() ==> ((#[trigger] panes[i]).now matches Some(secs) ==> secs
                <= i64::MAX),
    ensures
        panes::listed_rows(text::written_lines(pane_lines(panes))) == Seq::new(
            panes.len(),
            |i: int|
                PaneRowView {
                    id: panes[i].id,
                    status: panes[i].status,
                    since: told_time(panes[i].now),
                },
        ),
{
    let lines = pane_lines(panes);
    let rows = Seq::new(
        panes.len(),
        |i: int|
            PaneRowView {
                id: panes[i].id,
                status: panes[i].status,
                since: told_time(panes[i].now),
            },
    );
    assert forall|i: int| 0 <= i < lines.len() implies panes::row_reader()(#[trigger] lines[i])
        == Some(rows[i]) && text::one_line(lines[i]) by {
        law_report_reads_back(panes[i].id, panes[i].status, panes[i].now);
    }
    text::law_lines_read_back(lines);
    seqs::lemma_filter_map_all(lines, panes::row_reader(), rows);
}

} // verus!
