//! What tmux is called with, and what its replies mean.
use vstd::prelude::*;

use crate::command;
use crate::command::{CommandReply, CommandView, ReplyView, TmuxCommand};
use crate::panes;
use crate::panes::PaneRowView;
use crate::text;
use crate::tmux;
use crate::tmux::TmuxError;

verus! {

/// The words that tmux is called with. Whatever works on a session's active window or pane names
/// it by the session's id and a colon.
pub proof fn law_arguments(session: Seq<char>, pane: Seq<char>, option: Seq<char>, value: Seq<char>)
    ensures
        CommandView::ListSessions.arguments() == seq![
            "list-sessions"@,
            "-F"@,
            "#{session_id}:#{session_name}:#{session_attached}:#{session_windows}:#{session_created}:#{session_activity}"@,
        ],
        CommandView::ListPanes.arguments() == seq![
            "list-panes"@,
            "-a"@,
            "-F"@,
            "#{session_id}:#{@agent_status}:#{@agent_status_since}"@,
        ],
        CommandView::CurrentSessionName.arguments() == seq!["display-message"@, "-p"@, "#S"@],
        CommandView::CurrentSessionId.arguments() == seq![
            "display-message"@,
            "-p"@,
            "#{session_id}"@,
        ],
        (CommandView::WindowName { session }).arguments() == seq![
            "display-message"@,
            "-p"@,
            "-t"@,
            session + seq![':'],
            "#W"@,
        ],
        (CommandView::CapturePane { session }).arguments() == seq![
            "capture-pane"@,
            "-e"@,
            "-p"@,
            "-t"@,
            session + seq![':'],
        ],
        (CommandView::SwitchClient { session }).arguments() == seq![
            "switch-client"@,
            "-t"@,
            session,
        ],
        (CommandView::SetPaneOption { pane, option, value }).arguments() == seq![
            "set-option"@,
            "-p"@,
            "-t"@,
            pane,
            option,
            value,
        ],
        (CommandView::ClearPaneOption { pane, option }).arguments() == seq![
            "set-option"@,
            "-p"@,
            "-t"@,
            pane,
            "-u"@,
            option,
        ],
{
    assert(session.push(':') =~= session + seq![':']);
}

/// A command is seen as it is.
pub proof fn law_command_is_seen_as_it_is(c: TmuxCommand)
    ensures
        match c {
            TmuxCommand::ListSessions => c@ is ListSessions,
            TmuxCommand::ListPanes => c@ is ListPanes,
            TmuxCommand::CurrentSessionName => c@ is CurrentSessionName,
            TmuxCommand::CurrentSessionId => c@ is CurrentSessionId,
            TmuxCommand::WindowName { session: s } => c@ == (CommandView::WindowName {
                session: s@,
            }),
            TmuxCommand::CapturePane { session: s } => c@ == (CommandView::CapturePane {
                session: s@,
            }),
            TmuxCommand::SwitchClient { session: s } => c@ == (CommandView::SwitchClient {
                session: s@,
            }),
            TmuxCommand::SetPaneOption { pane: p, option: o, value: v } => c@ == (
            CommandView::SetPaneOption { pane: p@, option: o@, value: v@ }),
            TmuxCommand::ClearPaneOption { pane: p, option: o } => c@ == (
            CommandView::ClearPaneOption { pane: p@, option: o@ }),
        },
{
}

/// A reply is seen as it is.
pub proof fn law_reply_is_seen_as_it_is(reply: CommandReply)
    ensures
        match reply {
            CommandReply::NotStarted => reply@ is NotStarted,
            CommandReply::Exited { success: s, stdout: o, stderr: e } => reply@ == (
            ReplyView::Exited { success: s, stdout: o@, stderr: e@ }),
        },
{
}

/// An error says its message, and after a colon what tmux complained of, trimmed, if that is more
/// than white space. A message about a session ends with its id in single quotes.
pub proof fn law_error_texts(message: Seq<char>, detail: Seq<char>)
    ensures
        text::trim(detail).len() == 0 ==> command::complaint(message, detail) == message,
        text::trim(detail).len() > 0 ==> command::complaint(message, detail) == message + seq![
            ':',
            ' ',
        ] + text::trim(detail),
        command::quoting(message, detail) == message + seq![' ', '\''] + detail + seq!['\''],
{
    reveal_strlit(": ");
    reveal_strlit(" '");
    reveal_strlit("'");
    assert(": "@ =~= seq![':', ' ']);
    assert(" '"@ =~= seq![' ', '\'']);
    assert("'"@ =~= seq!['\'']);
}

/// A command that answers with a name answers with the trimmed text of what it printed; it names
/// nothing where that is empty or the command failed, and it is an error where the command did not
/// start.
pub proof fn law_name_replies(success: bool, stdout: Seq<u8>, stderr: Seq<u8>, why: Seq<char>)
    ensures
        command::name_reply(ReplyView::NotStarted, why) == Err::<Option<Seq<char>>, Seq<char>>(
            why,
        ),
        ({
            let name = text::trim(text::utf8_text(stdout));
            command::name_reply(ReplyView::Exited { success, stdout, stderr }, why) == Ok::<
                Option<Seq<char>>,
                Seq<char>,
            >(
                if success && name.len() > 0 {
                    Some(name)
                } else {
                    None
                },
            )
        }),
{
}

/// A capture gives the preview of what tmux printed. Where tmux failed, the error says so with what
/// tmux complained of; where it did not start, the error names the session.
pub proof fn law_preview_replies(
    session: Seq<char>,
    max: nat,
    stdout: Seq<u8>,
    stderr: Seq<u8>,
)
    ensures
        command::preview_reply(
            session,
            max,
            ReplyView::Exited { success: true, stdout, stderr },
        ) == Ok::<Seq<Seq<char>>, Seq<char>>(tmux::preview_of(text::utf8_text(stdout), max)),
        command::preview_reply(
            session,
            max,
            ReplyView::Exited { success: false, stdout, stderr },
        ) == Err::<Seq<Seq<char>>, Seq<char>>(
            command::complaint("tmux capture-pane failed"@, text::utf8_text(stderr)),
        ),
        command::preview_reply(session, max, ReplyView::NotStarted) == Err::<
            Seq<Seq<char>>,
            Seq<char>,
        >(command::quoting("failed to capture pane for session"@, session)),
{
}

/// A switch works exactly when tmux succeeds; otherwise the error names the session.
pub proof fn law_switch_replies(session: Seq<char>, stdout: Seq<u8>, stderr: Seq<u8>)
    ensures
        command::switch_reply(session, ReplyView::Exited { success: true, stdout, stderr }) == Ok::<
            (),
            Seq<char>,
        >(()),
        command::switch_reply(session, ReplyView::Exited { success: false, stdout, stderr })
            == Err::<(), Seq<char>>(command::quoting("tmux switch-client failed for"@, session)),
        command::switch_reply(session, ReplyView::NotStarted) == Err::<(), Seq<char>>(
            command::quoting("failed to switch to tmux session"@, session),
        ),
{
}

/// A pane listing tells its rows where tmux succeeds, and none otherwise.
pub proof fn law_row_replies(stdout: Seq<u8>, stderr: Seq<u8>)
    ensures
        command::rows_reply(ReplyView::Exited { success: true, stdout, stderr })
            == panes::listed_rows(text::utf8_text(stdout)),
        command::rows_reply(ReplyView::Exited { success: false, stdout, stderr }) == Seq::<
            PaneRowView,
        >::empty(),
        command::rows_reply(ReplyView::NotStarted) == Seq::<PaneRowView>::empty(),
{
}

/// Results are seen as they are: what was given, or what the error says.
pub proof fn law_results_are_seen_as_they_are(
    name: Option<String>,
    lines: Vec<String>,
    error: TmuxError,
)
    ensures
        command::name_result(Ok(name)) == Ok::<Option<Seq<char>>, Seq<char>>(
            match name {
                Some(name) => Some(name@),
                None => None,
            },
        ),
        command::name_result(Err(error)) == Err::<Option<Seq<char>>, Seq<char>>(error.message@),
        command::preview_result(Ok(lines)) == Ok::<Seq<Seq<char>>, Seq<char>>(
            Seq::new(lines@.len(), |i: int| lines@[i]@),
        ),
        command::preview_result(Err(error)) == Err::<Seq<Seq<char>>, Seq<char>>(error.message@),
        command::switch_result(Ok(())) == Ok::<(), Seq<char>>(()),
        command::switch_result(Err(error)) == Err::<(), Seq<char>>(error.message@),
{
    assert(text::texts(lines@) =~= Seq::new(lines@.len(), |i: int| lines@[i]@));
}

} // verus!
