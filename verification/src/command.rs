//! The tmux commands that are run, and how their replies are understood.
use vstd::prelude::*;

use crate::panes;
use crate::panes::PaneRow;
use crate::text;
use crate::tmux;
use crate::tmux::{TmuxError, PANE_AGENT_FORMAT, SESSION_FORMAT};

verus! {

/// A tmux command.
#[derive(Debug, PartialEq, Eq)]
pub enum TmuxCommand {
    /// Lists the sessions.
    ListSessions,
    /// Lists the panes of all sessions.
    ListPanes,
    /// Asks for the name of the current session.
    CurrentSessionName,
    /// Asks for the id of the current session.
    CurrentSessionId,
    /// Asks for the name of a session's active window.
    WindowName { session: String },
    /// Captures a session's active pane.
    CapturePane { session: String },
    /// Switches the client to a session.
    SwitchClient { session: String },
    /// Sets an option of a pane.
    SetPaneOption { pane: String, option: String, value: String },
    /// Takes an option of a pane away.
    ClearPaneOption { pane: String, option: String },
}

/// What a [`TmuxCommand`] holds, with texts as sequences of characters.
pub enum CommandView {
    ListSessions,
    ListPanes,
    CurrentSessionName,
    CurrentSessionId,
    WindowName { session: Seq<char> },
    CapturePane { session: Seq<char> },
    SwitchClient { session: Seq<char> },
    SetPaneOption { pane: Seq<char>, option: Seq<char>, value: Seq<char> },
    ClearPaneOption { pane: Seq<char>, option: Seq<char> },
}

impl View for TmuxCommand {
    type V = CommandView;

    open spec fn view(&self) -> CommandView {
        match *self {
            TmuxCommand::ListSessions => CommandView::ListSessions,
            TmuxCommand::ListPanes => CommandView::ListPanes,
            TmuxCommand::CurrentSessionName => CommandView::CurrentSessionName,
            TmuxCommand::CurrentSessionId => CommandView::CurrentSessionId,
            TmuxCommand::WindowName { session } => CommandView::WindowName { session: session@ },
            TmuxCommand::CapturePane { session } => CommandView::CapturePane { session: session@ },
            TmuxCommand::SwitchClient { session } => CommandView::SwitchClient {
                session: session@,
            },
            TmuxCommand::SetPaneOption { pane, option, value } => CommandView::SetPaneOption {
                pane: pane@,
                option: option@,
                value: value@,
            },
            TmuxCommand::ClearPaneOption { pane, option } => CommandView::ClearPaneOption {
                pane: pane@,
                option: option@,
            },
        }
    }
}

impl CommandView {
    /// What tmux is called with.
    pub open spec fn arguments(self) -> Seq<Seq<char>> {
        match self {
            CommandView::ListSessions => seq!["list-sessions"@, "-F"@, SESSION_FORMAT@],
            CommandView::ListPanes => seq!["list-panes"@, "-a"@, "-F"@, PANE_AGENT_FORMAT@],
            CommandView::CurrentSessionName => seq!["display-message"@, "-p"@, "#S"@],
            CommandView::CurrentSessionId => seq!["display-message"@, "-p"@, "#{session_id}"@],
            CommandView::WindowName { session } => seq![
                "display-message"@,
                "-p"@,
                "-t"@,
                session.push(':'),
                "#W"@,
            ],
            CommandView::CapturePane { session } => seq![
                "capture-pane"@,
                "-e"@,
                "-p"@,
                "-t"@,
                session.push(':'),
            ],
            CommandView::SwitchClient { session } => seq!["switch-client"@, "-t"@, session],
            CommandView::SetPaneOption { pane, option, value } => seq![
                "set-option"@,
                "-p"@,
                "-t"@,
                pane,
                option,
                value,
            ],
            CommandView::ClearPaneOption { pane, option } => seq![
                "set-option"@,
                "-p"@,
                "-t"@,
                pane,
                "-u"@,
                option,
            ],
        }
    }
}

/// The strings that hold `words`.
fn strings(words: &[&str]) -> (r: Vec<String>)
    ensures
        r@.len() == words@.len(),
        forall|i: int| 0 <= i < words@.len() ==> (#[trigger] r@[i])@ == words@[i]@,
{
    let mut out: Vec<String> = Vec::new();
    let mut i: usize = 0;
    while i < words.len()
        invariant
            i <= words@.len(),
            out@.len() == i,
            forall|j: int| 0 <= j < i ==> (#[trigger] out@[j])@ == words@[j]@,
        decreases words@.len() - i,
    {
        out.push(words[i].to_string());
        i = i + 1;
    }
    out
}

/// A session as the target of a command that works on its active window.
fn window_target(session: &str) -> (r: String)
    ensures
        r@ == session@.push(':'),
{
    let mut target = session.to_string();
    target.push(':');
    target
}

impl TmuxCommand {
    /// What tmux is called with.
    pub fn args(&self) -> (r: Vec<String>)
        ensures
            text::texts(r@) == self@.arguments(),
    {
        let r = match self {
            TmuxCommand::ListSessions => strings(&["list-sessions", "-F", SESSION_FORMAT]),
            TmuxCommand::ListPanes => strings(&["list-panes", "-a", "-F", PANE_AGENT_FORMAT]),
            TmuxCommand::CurrentSessionName => strings(&["display-message", "-p", "#S"]),
            TmuxCommand::CurrentSessionId => strings(&["display-message", "-p", "#{session_id}"]),
            TmuxCommand::WindowName { session } => {
                let target = window_target(session.as_str());
                strings(&["display-message", "-p", "-t", target.as_str(), "#W"])
            },
            TmuxCommand::CapturePane { session } => {
                let target = window_target(session.as_str());
                strings(&["capture-pane", "-e", "-p", "-t", target.as_str()])
            },
            TmuxCommand::SwitchClient { session } => {
                strings(&["switch-client", "-t", session.as_str()])
            },
            TmuxCommand::SetPaneOption { pane, option, value } => {
                strings(
                    &["set-option", "-p", "-t", pane.as_str(), option.as_str(), value.as_str()],
                )
            },
            TmuxCommand::ClearPaneOption { pane, option } => {
                strings(&["set-option", "-p", "-t", pane.as_str(), "-u", option.as_str()])
            },
        };
        assert(text::texts(r@) =~= self@.arguments());
        r
    }
}

/// What came of running a command.
#[derive(Debug, PartialEq, Eq)]
pub enum CommandReply {
    /// The command could not be started.
    NotStarted,
    /// The command ended.
    Exited { success: bool, stdout: Vec<u8>, stderr: Vec<u8> },
}

/// What a [`CommandReply`] holds.
pub enum ReplyView {
    NotStarted,
    Exited { success: bool, stdout: Seq<u8>, stderr: Seq<u8> },
}

impl View for CommandReply {
    type V = ReplyView;

    open spec fn view(&self) -> ReplyView {
        match *self {
            CommandReply::NotStarted => ReplyView::NotStarted,
            CommandReply::Exited { success, stdout, stderr } => ReplyView::Exited {
                success,
                stdout: stdout@,
                stderr: stderr@,
            },
        }
    }
}

/// `message`, and after a colon what the command complained of, if it did.
pub open spec fn complaint(message: Seq<char>, detail: Seq<char>) -> Seq<char> {
    let detail = text::trim(detail);
    if detail.len() == 0 {
        message
    } else {
        message + ": "@ + detail
    }
}

/// The error that says `message`, and after a colon what `detail` says, if that is not blank.
pub fn error_with_detail(message: &str, detail: &str) -> (r: TmuxError)
    ensures
        r.message@ == complaint(message@, detail@),
{
    let detail = text::trimmed(detail);
    let mut said = message.to_string();
    if !detail.as_str().is_empty() {
        said.append(": ");
        said.append(detail.as_str());
    }
    TmuxError { message: said }
}

/// The error of a command that failed with `stderr`.
pub fn tmux_error(message: &str, stderr: &[u8]) -> (r: TmuxError)
    ensures
        r.message@ == complaint(message@, text::utf8_text(stderr@)),
{
    let detail = text::decode_lossy(stderr);
    error_with_detail(message, detail.as_str())
}

/// `before`, then `name` in single quotes.
pub open spec fn quoting(before: Seq<char>, name: Seq<char>) -> Seq<char> {
    before + " '"@ + name + "'"@
}

/// The error that says `before`, then `name` in single quotes.
fn error_quoting(before: &str, name: &str) -> (r: TmuxError)
    ensures
        r.message@ == quoting(before@, name@),
{
    let mut said = before.to_string();
    said.append(" '");
    said.append(name);
    said.append("'");
    TmuxError { message: said }
}

/// The name that an answer consists of, if it is not blank.
pub open spec fn answered_name(answer: Seq<char>) -> Option<Seq<char>> {
    if text::trim(answer).len() == 0 {
        None
    } else {
        Some(text::trim(answer))
    }
}

/// The name that `answer` consists of, if it is not blank.
pub fn name_in_answer(answer: &str) -> (r: Option<String>)
    ensures
        text::opt_text(r) == answered_name(answer@),
{
    let name = text::trimmed(answer);
    if name.as_str().is_empty() {
        None
    } else {
        Some(name)
    }
}

/// What the name is, or what the error says.
pub open spec fn name_result(r: Result<Option<String>, TmuxError>) -> Result<
    Option<Seq<char>>,
    Seq<char>,
> {
    match r {
        Ok(name) => Ok(text::opt_text(name)),
        Err(error) => Err(error.message@),
    }
}

/// How a reply that names something is understood: a command that failed names nothing, and one
/// that could not be started is the error `not_started`.
pub open spec fn name_reply(reply: ReplyView, not_started: Seq<char>) -> Result<
    Option<Seq<char>>,
    Seq<char>,
> {
    match reply {
        ReplyView::NotStarted => Err(not_started),
        ReplyView::Exited { success, stdout, .. } => Ok(
            if success {
                answered_name(text::utf8_text(stdout))
            } else {
                None
            },
        ),
    }
}

/// The name that a command which ended answered with.
fn name_of_exit(success: bool, stdout: &[u8]) -> (r: Option<String>)
    ensures
        text::opt_text(r) == (if success {
            answered_name(text::utf8_text(stdout@))
        } else {
            None
        }),
{
    if !success {
        return None;
    }
    let answer = text::decode_lossy(stdout);
    name_in_answer(answer.as_str())
}

/// Understands the reply to [`TmuxCommand::CurrentSessionName`].
pub fn current_session_name(reply: &CommandReply) -> (r: Result<Option<String>, TmuxError>)
    ensures
        name_result(r) == name_reply(reply@, "failed to run tmux display-message"@),
{
    match reply {
        CommandReply::NotStarted => Err(tmux::error_saying("failed to run tmux display-message")),
        CommandReply::Exited { success, stdout, .. } => Ok(
            name_of_exit(*success, stdout.as_slice()),
        ),
    }
}

/// Understands the reply to [`TmuxCommand::CurrentSessionId`].
pub fn current_session_id(reply: &CommandReply) -> (r: Result<Option<String>, TmuxError>)
    ensures
        name_result(r) == name_reply(reply@, "failed to run tmux display-message"@),
{
    match reply {
        CommandReply::NotStarted => Err(tmux::error_saying("failed to run tmux display-message")),
        CommandReply::Exited { success, stdout, .. } => Ok(
            name_of_exit(*success, stdout.as_slice()),
        ),
    }
}

/// Understands the reply to [`TmuxCommand::WindowName`] for the session `session_target`.
pub fn current_window_name(session_target: &str, reply: &CommandReply) -> (r: Result<
    Option<String>,
    TmuxError,
>)
    ensures
        name_result(r) == name_reply(
            reply@,
            quoting("failed to query active window for session"@, session_target@),
        ),
{
    match reply {
        CommandReply::NotStarted => Err(
            error_quoting("failed to query active window for session", session_target),
        ),
        CommandReply::Exited { success, stdout, .. } => Ok(
            name_of_exit(*success, stdout.as_slice()),
        ),
    }
}

/// What the preview is, or what the error says.
pub open spec fn preview_result(r: Result<Vec<String>, TmuxError>) -> Result<
    Seq<Seq<char>>,
    Seq<char>,
> {
    match r {
        Ok(lines) => Ok(text::texts(lines@)),
        Err(error) => Err(error.message@),
    }
}

/// How the reply to a capture of the session `session_target` is understood.
pub open spec fn preview_reply(
    session_target: Seq<char>,
    max_lines: nat,
    reply: ReplyView,
) -> Result<Seq<Seq<char>>, Seq<char>> {
    match reply {
        ReplyView::NotStarted => Err(
            quoting("failed to capture pane for session"@, session_target),
        ),
        ReplyView::Exited { success, stdout, stderr } => if success {
            Ok(tmux::preview_of(text::utf8_text(stdout), max_lines))
        } else {
            Err(complaint("tmux capture-pane failed"@, text::utf8_text(stderr)))
        },
    }
}

/// Understands the reply to [`TmuxCommand::CapturePane`] for the session `session_target`.
pub fn capture_session_preview(
    session_target: &str,
    max_lines: usize,
    reply: &CommandReply,
) -> (r: Result<Vec<String>, TmuxError>)
    ensures
        preview_result(r) == preview_reply(session_target@, max_lines as nat, reply@),
{
    match reply {
        CommandReply::NotStarted => Err(
            error_quoting("failed to capture pane for session", session_target),
        ),
        CommandReply::Exited { success, stdout, stderr } => {
            if !*success {
                return Err(tmux_error("tmux capture-pane failed", stderr.as_slice()));
            }
            let pane = text::decode_lossy(stdout.as_slice());
            Ok(tmux::trim_preview(pane.as_str(), max_lines))
        },
    }
}

/// Whether the switch worked, or what the error says.
pub open spec fn switch_result(r: Result<(), TmuxError>) -> Result<(), Seq<char>> {
    match r {
        Ok(()) => Ok(()),
        Err(error) => Err(error.message@),
    }
}

/// How the reply to a switch to the session `session_target` is understood.
pub open spec fn switch_reply(session_target: Seq<char>, reply: ReplyView) -> Result<
    (),
    Seq<char>,
> {
    match reply {
        ReplyView::NotStarted => Err(quoting("failed to switch to tmux session"@, session_target)),
        ReplyView::Exited { success, .. } => if success {
            Ok(())
        } else {
            Err(quoting("tmux switch-client failed for"@, session_target))
        },
    }
}

/// Understands the reply to [`TmuxCommand::SwitchClient`] for the session `session_target`.
pub fn switch_client(session_target: &str, reply: &CommandReply) -> (r: Result<(), TmuxError>)
    ensures
        switch_result(r) == switch_reply(session_target@, reply@),
{
    match reply {
        CommandReply::NotStarted => Err(
            error_quoting("failed to switch to tmux session", session_target),
        ),
        CommandReply::Exited { success, .. } => {
            if *success {
                Ok(())
            } else {
                Err(error_quoting("tmux switch-client failed for", session_target))
            }
        },
    }
}

/// How the reply to a pane listing is understood: any failure just yields no rows.
pub open spec fn rows_reply(reply: ReplyView) -> Seq<panes::PaneRowView> {
    match reply {
        ReplyView::NotStarted => Seq::empty(),
        ReplyView::Exited { success, stdout, .. } => if success {
            panes::listed_rows(text::utf8_text(stdout))
        } else {
            Seq::empty()
        },
    }
}

/// Understands the reply to [`TmuxCommand::ListPanes`]. Best-effort: any failure (no panes, tmux
/// hiccup) just yields no rows, so a session simply shows no agent badge rather than breaking
/// the whole refresh.
pub fn list_pane_agent_rows(reply: &CommandReply) -> (r: Vec<PaneRow>)
    ensures
        panes::row_views(r@) == rows_reply(reply@),
{
    match reply {
        CommandReply::Exited { success: true, stdout, .. } => {
            let listing = text::decode_lossy(stdout.as_slice());
            panes::parse_pane_agent_rows(listing.as_str())
        },
        _ => {
            let rows: Vec<PaneRow> = Vec::new();
            assert(panes::row_views(rows@) =~= Seq::empty());
            rows
        },
    }
}

} // verus!
