//! What a listing asks, and what it comes to.
use vstd::prelude::*;

use crate::command;
use crate::command::{CommandView, ReplyView};
use crate::listing;
use crate::listing::{ListingView, Replies, StageView};
use crate::model::SessionView;
use crate::panes;
use crate::text;
use crate::tmux;

verus! {

/// A listing begins with nothing known, and asks for the sessions first and then for their panes.
/// It then asks for the window of the session whose turn it is, and for its pane after that, and
/// asks nothing once it is done.
pub proof fn law_listing_asks(
    current: Option<Seq<char>>,
    sessions: Seq<SessionView>,
    index: int,
    outcome: Result<Seq<SessionView>, Seq<char>>,
)
    ensures
        ListingView::begun(current) == (ListingView {
            current_session_id: current,
            stage: StageView::Sessions,
        }),
        ListingView::begun(current).next_command() == Some(CommandView::ListSessions),
        (ListingView {
            current_session_id: current,
            stage: StageView::Panes { sessions },
        }).next_command() == Some(CommandView::ListPanes),
        (ListingView {
            current_session_id: current,
            stage: StageView::Window { sessions, index },
        }).next_command() == Some(CommandView::WindowName { session: sessions[index].id }),
        (ListingView {
            current_session_id: current,
            stage: StageView::Preview { sessions, index },
        }).next_command() == Some(CommandView::CapturePane { session: sessions[index].id }),
        (ListingView {
            current_session_id: current,
            stage: StageView::Done { outcome },
        }).next_command() is None,
{
}

/// The reply to the session listing ends the listing where tmux did not start, failed, or printed
/// something that is no listing; otherwise the panes of the listed sessions come next.
pub proof fn law_listing_after_the_sessions(
    current: Option<Seq<char>>,
    success: bool,
    stdout: Seq<u8>,
    stderr: Seq<u8>,
)
    ensures
        ({
            let begun = ListingView { current_session_id: current, stage: StageView::Sessions };
            let read = tmux::read_listing(text::utf8_text(stdout));
            &&& begun.advanced(ReplyView::NotStarted) == (ListingView {
                current_session_id: current,
                stage: StageView::Done { outcome: Err("failed to run tmux list-sessions"@) },
            })
            &&& begun.advanced(ReplyView::Exited { success, stdout, stderr }) == (ListingView {
                current_session_id: current,
                stage: if !success {
                    StageView::Done {
                        outcome: Err(
                            command::complaint(
                                "tmux list-sessions failed"@,
                                text::utf8_text(stderr),
                            ),
                        ),
                    }
                } else if read is Ok {
                    StageView::Panes { sessions: read->Ok_0 }
                } else {
                    StageView::Done { outcome: Err(read->Err_0) }
                },
            })
        }),
{
}

/// The reply to the pane listing gives each session its badge, where the panes can be counted; then
/// it is the first session's turn, or the listing is done where there is none.
pub proof fn law_listing_after_the_panes(
    current: Option<Seq<char>>,
    sessions: Seq<SessionView>,
    reply: ReplyView,
)
    ensures
        ({
            let rows = command::rows_reply(reply);
            let next = (ListingView {
                current_session_id: current,
                stage: StageView::Panes { sessions },
            }).advanced(reply);
            let badged = if panes::countable(rows) {
                panes::all_badged(sessions, rows)
            } else {
                sessions
            };
            next == (ListingView {
                current_session_id: current,
                stage: if badged.len() > 0 {
                    StageView::Window { sessions: badged, index: 0 }
                } else {
                    StageView::Done { outcome: Ok(badged) }
                },
            })
        }),
{
}

/// The reply about a window names it in the session whose turn it is, or names none where tmux
/// failed. The current session gets no preview but a note of that, and the turn passes on; any
/// other session is captured next.
pub proof fn law_listing_after_a_window(
    current: Option<Seq<char>>,
    sessions: Seq<SessionView>,
    index: int,
    reply: ReplyView,
)
    requires
        0 <= index < sessions.len(),
    ensures
        ({
            let next = (ListingView {
                current_session_id: current,
                stage: StageView::Window { sessions, index },
            }).advanced(reply);
            let window = match reply {
                ReplyView::Exited { success, stdout, .. } => {
                    let name = text::trim(text::utf8_text(stdout));
                    if success && name.len() > 0 {
                        Some(name)
                    } else {
                        None
                    }
                },
                ReplyView::NotStarted => None,
            };
            let asked = sessions.update(
                index,
                SessionView { current_window: window, ..sessions[index] },
            );
            let noted = sessions.update(
                index,
                SessionView {
                    current_window: window,
                    preview: Seq::empty(),
                    preview_error: Some("Current session preview disabled"@),
                    ..sessions[index]
                },
            );
            next == (ListingView {
                current_session_id: current,
                stage: if current != Some(sessions[index].id) {
                    StageView::Preview { sessions: asked, index }
                } else if index + 1 < sessions.len() {
                    StageView::Window { sessions: noted, index: index + 1 }
                } else {
                    StageView::Done { outcome: Ok(noted) }
                },
            })
        }),
{
}

/// The reply to a capture gives the session whose turn it is its preview of at most 200 lines, or
/// the error in its place, and the turn passes on.
pub proof fn law_listing_after_a_capture(
    current: Option<Seq<char>>,
    sessions: Seq<SessionView>,
    index: int,
    reply: ReplyView,
)
    requires
        0 <= index < sessions.len(),
    ensures
        ({
            let next = (ListingView {
                current_session_id: current,
                stage: StageView::Preview { sessions, index },
            }).advanced(reply);
            let captured = command::preview_reply(sessions[index].id, 200, reply);
            let shown = sessions.update(
                index,
                SessionView {
                    preview: if captured is Ok {
                        captured->Ok_0
                    } else {
                        Seq::empty()
                    },
                    preview_error: if captured is Ok {
                        None
                    } else {
                        Some(captured->Err_0)
                    },
                    ..sessions[index]
                },
            );
            next == (ListingView {
                current_session_id: current,
                stage: if index + 1 < sessions.len() {
                    StageView::Window { sessions: shown, index: index + 1 }
                } else {
                    StageView::Done { outcome: Ok(shown) }
                },
            })
        }),
{
}

/// A reply changes nothing in a listing that is done.
pub proof fn law_listing_stays_done(
    current: Option<Seq<char>>,
    outcome: Result<Seq<SessionView>, Seq<char>>,
    reply: ReplyView,
)
    ensures
        ({
            let done = ListingView {
                current_session_id: current,
                stage: StageView::Done { outcome },
            };
            done.advanced(reply) == done
        }),
{
}

/// What a whole listing comes to: an error where the sessions could not be listed, and otherwise
/// every listed session in its place, with the badge of its panes, with the name that tmux answered
/// for its window, and with its preview, which the current session goes without.
pub proof fn law_whole_listing(
    replies: Replies,
    current: Option<Seq<char>>,
    stdout: Seq<u8>,
    stderr: Seq<u8>,
    i: int,
    count: nat,
)
    requires
        replies.sessions == (ReplyView::Exited { success: true, stdout, stderr }),
        tmux::read_listing(text::utf8_text(stdout)) is Ok,
        0 <= i < tmux::listed_sessions(text::utf8_text(stdout)).len(),
        count >= 2 + 2 * tmux::listed_sessions(text::utf8_text(stdout)).len(),
    ensures
        ({
            let listed = tmux::listed_sessions(text::utf8_text(stdout));
            let rows = command::rows_reply(replies.panes);
            let done = listing::after(
                ListingView { current_session_id: current, stage: StageView::Sessions },
                replies,
                count,
            ).stage;
            let badged = if panes::countable(rows) {
                panes::badged(listed[i], rows)
            } else {
                listed[i]
            };
            let got = done->outcome->Ok_0[i];
            let window = command::name_reply((replies.windows)(i), Seq::empty());
            let captured = command::preview_reply(listed[i].id, 200, (replies.captures)(i));
            &&& done is Done && done->outcome is Ok
            &&& done->outcome->Ok_0.len() == listed.len()
            &&& got.id == listed[i].id && got.name == listed[i].name && got.attached
                == listed[i].attached && got.window_count == listed[i].window_count
                && got.last_activity == listed[i].last_activity
            &&& got.agent_status == badged.agent_status && got.agent_status_since
                == badged.agent_status_since && got.agent_pane_counts == badged.agent_pane_counts
            &&& got.current_window == (if window is Ok {
                window->Ok_0
            } else {
                None
            })
            &&& current == Some(listed[i].id) ==> got.preview.len() == 0 && got.preview_error
                == Some("Current session preview disabled"@)
            &&& current != Some(listed[i].id) && captured is Ok ==> got.preview == captured->Ok_0
                && got.preview_error is None
            &&& current != Some(listed[i].id) && captured is Err ==> got.preview.len() == 0
                && got.preview_error == Some(captured->Err_0)
        }),
{
    listing::law_listing_comes_to_its_outcome(replies, current, count);
}

} // verus!
