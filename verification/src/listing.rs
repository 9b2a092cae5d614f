//! The exchange with tmux that ends in a list of sessions.
//!
//! A [`SessionListing`] says which command to run next; it is told the reply and moves on, until
//! it has an outcome. Running the commands is left to the caller.
use vstd::prelude::*;

use crate::command;
use crate::command::{CommandReply, CommandView, ReplyView, TmuxCommand};
use crate::model;
use crate::model::{Session, SessionView};
use crate::panes;
use crate::text;
use crate::tmux;
use crate::tmux::TmuxError;

verus! {

/// How many lines of a session's active pane are kept.
pub const PREVIEW_LINES: usize = 200;

/// How far a listing has come.
enum Stage {
    /// The sessions are to be listed.
    Sessions,
    /// The panes are to be listed.
    Panes { sessions: Vec<Session> },
    /// The window name of the session at `index` is to be asked for.
    Window { sessions: Vec<Session>, index: usize },
    /// The session at `index` is to be captured.
    Preview { sessions: Vec<Session>, index: usize },
    /// Nothing is left to be done.
    Done { outcome: Result<Vec<Session>, TmuxError> },
}

/// A listing of the sessions that is under way.
pub struct SessionListing {
    current_session_id: Option<String>,
    stage: Stage,
}

/// How far a listing has come, with texts as sequences of characters.
#[verifier::ext_equal]
pub enum StageView {
    Sessions,
    Panes { sessions: Seq<SessionView> },
    Window { sessions: Seq<SessionView>, index: int },
    Preview { sessions: Seq<SessionView>, index: int },
    Done { outcome: Result<Seq<SessionView>, Seq<char>> },
}

/// What a [`SessionListing`] holds: the id of the session that is not to be captured, and how
/// far the listing has come.
#[verifier::ext_equal]
pub struct ListingView {
    pub current_session_id: Option<Seq<char>>,
    pub stage: StageView,
}

impl View for SessionListing {
    type V = ListingView;

    closed spec fn view(&self) -> ListingView {
        ListingView {
            current_session_id: text::opt_text(self.current_session_id),
            stage: match self.stage {
                Stage::Sessions => StageView::Sessions,
                Stage::Panes { sessions } => StageView::Panes {
                    sessions: model::session_views(sessions@),
                },
                Stage::Window { sessions, index } => StageView::Window {
                    sessions: model::session_views(sessions@),
                    index: index as int,
                },
                Stage::Preview { sessions, index } => StageView::Preview {
                    sessions: model::session_views(sessions@),
                    index: index as int,
                },
                Stage::Done { outcome } => StageView::Done {
                    outcome: tmux::sessions_result(outcome),
                },
            },
        }
    }
}

/// What a listing holds is what its fields hold.
proof fn law_listing_is_seen_as_it_is(listing: SessionListing)
    ensures
        listing@.current_session_id == (match listing.current_session_id {
            Some(id) => Some(id@),
            None => None,
        }),
        match listing.stage {
            Stage::Sessions => listing@.stage is Sessions,
            Stage::Panes { sessions: s } => listing@.stage == (StageView::Panes {
                sessions: Seq::new(s@.len(), |i: int| s@[i]@),
            }),
            Stage::Window { sessions: s, index: n } => listing@.stage == (StageView::Window {
                sessions: Seq::new(s@.len(), |i: int| s@[i]@),
                index: n as int,
            }),
            Stage::Preview { sessions: s, index: n } => listing@.stage == (StageView::Preview {
                sessions: Seq::new(s@.len(), |i: int| s@[i]@),
                index: n as int,
            }),
            Stage::Done { outcome: Ok(s) } => listing@.stage == (StageView::Done {
                outcome: Ok(Seq::new(s@.len(), |i: int| s@[i]@)),
            }),
            Stage::Done { outcome: Err(e) } => listing@.stage == (StageView::Done {
                outcome: Err(e.message@),
            }),
        },
{
    match listing.stage {
        Stage::Panes { sessions: s } => {
            assert(model::session_views(s@) =~= Seq::new(s@.len(), |i: int| s@[i]@));
        },
        Stage::Window { sessions: s, .. } => {
            assert(model::session_views(s@) =~= Seq::new(s@.len(), |i: int| s@[i]@));
        },
        Stage::Preview { sessions: s, .. } => {
            assert(model::session_views(s@) =~= Seq::new(s@.len(), |i: int| s@[i]@));
        },
        Stage::Done { outcome: Ok(s) } => {
            assert(model::session_views(s@) =~= Seq::new(s@.len(), |i: int| s@[i]@));
        },
        _ => {},
    }
}

/// A session whose preview is not taken because it is the current one.
pub open spec fn preview_disabled(session: SessionView) -> SessionView {
    SessionView {
        preview: Seq::empty(),
        preview_error: Some("Current session preview disabled"@),
        ..session
    }
}

/// A session with the preview that a capture brought, or with the error that it brought.
pub open spec fn previewed(session: SessionView, captured: Result<Seq<Seq<char>>, Seq<char>>)
    -> SessionView {
    match captured {
        Ok(lines) => SessionView { preview: lines, preview_error: None, ..session },
        Err(message) => SessionView {
            preview: Seq::empty(),
            preview_error: Some(message),
            ..session
        },
    }
}

/// A session with the window name that tmux answered; a query that failed names no window.
pub open spec fn with_window(session: SessionView, reply: ReplyView) -> SessionView {
    SessionView {
        current_window: match command::name_reply(reply, Seq::empty()) {
            Ok(name) => name,
            Err(_) => None,
        },
        ..session
    }
}

/// The sessions that a reply to the session listing tells of.
pub open spec fn sessions_reply(reply: ReplyView) -> Result<Seq<SessionView>, Seq<char>> {
    match reply {
        ReplyView::NotStarted => Err("failed to run tmux list-sessions"@),
        ReplyView::Exited { success, stdout, stderr } => if success {
            tmux::read_listing(text::utf8_text(stdout))
        } else {
            Err(command::complaint("tmux list-sessions failed"@, text::utf8_text(stderr)))
        },
    }
}

/// The sessions with the badges that a reply to the pane listing gives them; panes that cannot
/// be counted give none.
pub open spec fn with_badges(sessions: Seq<SessionView>, reply: ReplyView) -> Seq<SessionView> {
    if panes::countable(command::rows_reply(reply)) {
        panes::all_badged(sessions, command::rows_reply(reply))
    } else {
        sessions
    }
}

/// The stage that asks for the session at `index`, or the end if there is none.
pub open spec fn turn_to(sessions: Seq<SessionView>, index: int) -> StageView {
    if index < sessions.len() {
        StageView::Window { sessions, index }
    } else {
        StageView::Done { outcome: Ok(sessions) }
    }
}

impl ListingView {
    /// A listing that has just begun.
    pub open spec fn begun(current_session_id: Option<Seq<char>>) -> ListingView {
        ListingView { current_session_id, stage: StageView::Sessions }
    }

    /// Whether the listing asks for a session that is there.
    pub open spec fn well_formed(self) -> bool {
        match self.stage {
            StageView::Window { sessions, index } => 0 <= index < sessions.len(),
            StageView::Preview { sessions, index } => 0 <= index < sessions.len(),
            _ => true,
        }
    }

    /// The command that is to be run next; none once the listing is done.
    pub open spec fn next_command(self) -> Option<CommandView> {
        match self.stage {
            StageView::Sessions => Some(CommandView::ListSessions),
            StageView::Panes { .. } => Some(CommandView::ListPanes),
            StageView::Window { sessions, index } => Some(
                CommandView::WindowName { session: sessions[index].id },
            ),
            StageView::Preview { sessions, index } => Some(
                CommandView::CapturePane { session: sessions[index].id },
            ),
            StageView::Done { .. } => None,
        }
    }

    /// The listing after the reply to its next command.
    pub open spec fn advanced(self, reply: ReplyView) -> ListingView {
        ListingView {
            stage: match self.stage {
                StageView::Sessions => match sessions_reply(reply) {
                    Ok(sessions) => StageView::Panes { sessions },
                    Err(message) => StageView::Done { outcome: Err(message) },
                },
                StageView::Panes { sessions } => turn_to(with_badges(sessions, reply), 0),
                StageView::Window { sessions, index } => {
                    let asked = with_window(sessions[index], reply);
                    if self.current_session_id == Some(asked.id) {
                        turn_to(sessions.update(index, preview_disabled(asked)), index + 1)
                    } else {
                        StageView::Preview { sessions: sessions.update(index, asked), index }
                    }
                },
                StageView::Preview { sessions, index } => turn_to(
                    sessions.update(
                        index,
                        previewed(
                            sessions[index],
                            command::preview_reply(
                                sessions[index].id,
                                PREVIEW_LINES as nat,
                                reply,
                            ),
                        ),
                    ),
                    index + 1,
                ),
                StageView::Done { outcome } => StageView::Done { outcome },
            },
            ..self
        }
    }
}

/// Whether the session with the id `session_id` is to be captured: every session but the
/// current one is.
pub fn should_capture_preview(session_id: &str, current_session_id: Option<&str>) -> (r: bool)
    ensures
        r == (text::opt_str(current_session_id) != Some(session_id@)),
{
    match current_session_id {
        Some(current) => !(*current == *session_id),
        None => true,
    }
}

/// Begins a listing of all sessions with their previews.
pub fn list_sessions() -> (r: SessionListing)
    ensures
        r@ == ListingView::begun(None),
{
    list_sessions_skipping_preview_for(None)
}

/// Begins a listing that leaves the preview of the session `current_session_id` out.
pub fn list_sessions_skipping_preview_for(current_session_id: Option<&str>) -> (r: SessionListing)
    ensures
        r@ == ListingView::begun(text::opt_str(current_session_id)),
{
    let current_session_id: Option<String> = match current_session_id {
        Some(id) => Some(id.to_string()),
        None => None,
    };
    SessionListing { current_session_id, stage: Stage::Sessions }
}

/// The stage that asks for the session at `index`, or the end if there is none.
fn stage_for(sessions: Vec<Session>, index: usize) -> (r: Stage)
    ensures
        match r {
            Stage::Window { sessions: s, index: i } => s == sessions && i == index && index
                < sessions@.len(),
            Stage::Done { outcome: Ok(s) } => s == sessions && index >= sessions@.len(),
            _ => false,
        },
{
    if index < sessions.len() {
        Stage::Window { sessions, index }
    } else {
        Stage::Done { outcome: Ok(sessions) }
    }
}

impl SessionListing {
    #[verifier::type_invariant]
    spec fn type_inv(self) -> bool {
        self@.well_formed()
    }

    /// The command that is to be run next; none once the listing is done.
    pub fn command(&self) -> (r: Option<TmuxCommand>)
        ensures
            self@.well_formed(),
            match r {
                Some(command) => self@.next_command() == Some(command@),
                None => self@.next_command() is None,
            },
    {
        proof {
            use_type_invariant(self);
        }
        match &self.stage {
            Stage::Sessions => Some(TmuxCommand::ListSessions),
            Stage::Panes { .. } => Some(TmuxCommand::ListPanes),
            Stage::Window { sessions, index } => Some(
                TmuxCommand::WindowName { session: sessions[*index].id.clone() },
            ),
            Stage::Preview { sessions, index } => Some(
                TmuxCommand::CapturePane { session: sessions[*index].id.clone() },
            ),
            Stage::Done { .. } => None,
        }
    }

    /// Takes the reply to the command that was to be run, and moves on.
    pub fn advance(self, reply: &CommandReply) -> (r: SessionListing)
        ensures
            r@ == self@.advanced(reply@),
    {
        proof {
            use_type_invariant(&self);
        }
        let ghost before = self@;
        let current_session_id = self.current_session_id;
        let stage = match self.stage {
            Stage::Sessions => match read_sessions(reply) {
                Ok(sessions) => Stage::Panes { sessions },
                Err(error) => Stage::Done { outcome: Err(error) },
            },
            Stage::Panes { sessions } => {
                let mut sessions = sessions;
                let rows = command::list_pane_agent_rows(reply);
                panes::try_apply_agent_status(sessions.as_mut_slice(), rows.as_slice());
                stage_for(sessions, 0)
            },
            Stage::Window { sessions, index } => {
                let mut sessions = sessions;
                let ghost shown = model::session_views(sessions@);
                let name = match command::current_window_name(sessions[index].id.as_str(), reply) {
                    Ok(name) => name,
                    Err(_) => None,
                };
                sessions[index].current_window = name;
                let ghost asked = with_window(shown[index as int], reply@);
                assert(sessions@[index as int]@ == asked);
                let current: Option<&str> = match &current_session_id {
                    Some(id) => Some(id.as_str()),
                    None => None,
                };
                if should_capture_preview(sessions[index].id.as_str(), current) {
                    assert(model::session_views(sessions@) =~= shown.update(index as int, asked));
                    Stage::Preview { sessions, index }
                } else {
                    sessions[index].preview = Vec::new();
                    sessions[index].preview_error = Some(
                        "Current session preview disabled".to_string(),
                    );
                    assert(sessions@[index as int]@ =~= preview_disabled(asked));
                    assert(model::session_views(sessions@) =~= shown.update(
                        index as int,
                        preview_disabled(asked),
                    ));
                    assert(index < sessions.len());
                    stage_for(sessions, index + 1)
                }
            },
            Stage::Preview { sessions, index } => {
                let mut sessions = sessions;
                let ghost shown = model::session_views(sessions@);
                let captured = command::capture_session_preview(
                    sessions[index].id.as_str(),
                    PREVIEW_LINES,
                    reply,
                );
                match captured {
                    Ok(preview) => {
                        sessions[index].preview = preview;
                        sessions[index].preview_error = None;
                    },
                    Err(error) => {
                        sessions[index].preview = Vec::new();
                        sessions[index].preview_error = Some(error.message);
                    },
                }
                proof {
                    let done = previewed(
                        shown[index as int],
                        command::preview_reply(
                            shown[index as int].id,
                            PREVIEW_LINES as nat,
                            reply@,
                        ),
                    );
                    assert(sessions@[index as int]@ =~= done);
                    assert(model::session_views(sessions@) =~= shown.update(index as int, done));
                }
                assert(index < sessions.len());
                stage_for(sessions, index + 1)
            },
            Stage::Done { outcome } => Stage::Done { outcome },
        };
        SessionListing { current_session_id, stage }
    }

    /// What the listing came to, once it is done.
    pub fn outcome(self) -> (r: Option<Result<Vec<Session>, TmuxError>>)
        ensures
            match r {
                Some(outcome) => self@.stage == (StageView::Done {
                    outcome: tmux::sessions_result(outcome),
                }),
                None => !(self@.stage is Done),
            },
    {
        match self.stage {
            Stage::Done { outcome } => Some(outcome),
            _ => None,
        }
    }
}

/// Understands the reply to the session listing.
fn read_sessions(reply: &CommandReply) -> (r: Result<Vec<Session>, TmuxError>)
    ensures
        tmux::sessions_result(r) == sessions_reply(reply@),
{
    match reply {
        CommandReply::NotStarted => Err(tmux::error_saying("failed to run tmux list-sessions")),
        CommandReply::Exited { success, stdout, stderr } => {
            if !*success {
                return Err(command::tmux_error("tmux list-sessions failed", stderr.as_slice()));
            }
            let listing = text::decode_lossy(stdout.as_slice());
            tmux::parse_sessions_output(listing.as_str())
        },
    }
}

/// The replies that a listing gets: to the session listing, to the pane listing, and for each
/// session to the query of its window and to the capture of its pane.
pub struct Replies {
    pub sessions: ReplyView,
    pub panes: ReplyView,
    pub windows: spec_fn(int) -> ReplyView,
    pub captures: spec_fn(int) -> ReplyView,
}

impl Replies {
    /// The reply to the next command of `listing`.
    pub open spec fn to(self, listing: ListingView) -> ReplyView {
        match listing.stage {
            StageView::Sessions => self.sessions,
            StageView::Panes { .. } => self.panes,
            StageView::Window { index, .. } => (self.windows)(index),
            StageView::Preview { index, .. } => (self.captures)(index),
            StageView::Done { .. } => ReplyView::NotStarted,
        }
    }
}

/// `listing` after it got `count` of the replies.
pub open spec fn after(listing: ListingView, replies: Replies, count: nat) -> ListingView
    decreases count,
{
    if count == 0 {
        listing
    } else {
        after(listing.advanced(replies.to(listing)), replies, (count - 1) as nat)
    }
}

/// A session with its window name and its preview; the current session gets no preview.
pub open spec fn completed(
    session: SessionView,
    window: ReplyView,
    capture: ReplyView,
    current_session_id: Option<Seq<char>>,
) -> SessionView {
    let asked = with_window(session, window);
    if current_session_id == Some(session.id) {
        preview_disabled(asked)
    } else {
        previewed(asked, command::preview_reply(session.id, PREVIEW_LINES as nat, capture))
    }
}

/// The sessions of which the first `count` are completed.
pub open spec fn completed_upto(
    sessions: Seq<SessionView>,
    replies: Replies,
    current_session_id: Option<Seq<char>>,
    count: int,
) -> Seq<SessionView> {
    Seq::new(
        sessions.len(),
        |i: int|
            if i < count {
                completed(
                    sessions[i],
                    (replies.windows)(i),
                    (replies.captures)(i),
                    current_session_id,
                )
            } else {
                sessions[i]
            },
    )
}

/// What a listing comes to: the sessions that were listed, with the badges of their panes, their
/// window names and their previews.
pub open spec fn listing_outcome(
    replies: Replies,
    current_session_id: Option<Seq<char>>,
) -> Result<Seq<SessionView>, Seq<char>> {
    match sessions_reply(replies.sessions) {
        Ok(sessions) => {
            let badged = with_badges(sessions, replies.panes);
            Ok(completed_upto(badged, replies, current_session_id, badged.len() as int))
        },
        Err(message) => Err(message),
    }
}

/// How many replies a listing takes at most.
pub open spec fn replies_needed(replies: Replies) -> nat {
    match sessions_reply(replies.sessions) {
        Ok(sessions) => 2 + 2 * sessions.len(),
        Err(_) => 1,
    }
}

/// A listing that is done stays as it is.
pub proof fn law_done_stays_done(listing: ListingView, replies: Replies, count: nat)
    requires
        listing.stage is Done,
    ensures
        after(listing, replies, count) == listing,
    decreases count,
{
    if count > 0 {
        assert(listing.advanced(replies.to(listing)) =~= listing);
        law_done_stays_done(listing, replies, (count - 1) as nat);
    }
}

proof fn lemma_sessions_in_turn(
    sessions: Seq<SessionView>,
    replies: Replies,
    current: Option<Seq<char>>,
    i: int,
    count: nat,
)
    requires
        0 <= i <= sessions.len(),
        count >= 2 * (sessions.len() - i),
    ensures
        after(
            ListingView {
                current_session_id: current,
                stage: turn_to(completed_upto(sessions, replies, current, i), i),
            },
            replies,
            count,
        ).stage == (StageView::Done {
            outcome: Ok(completed_upto(sessions, replies, current, sessions.len() as int)),
        }),
    decreases sessions.len() - i,
{
    let n = sessions.len() as int;
    let here = completed_upto(sessions, replies, current, i);
    let listing = ListingView { current_session_id: current, stage: turn_to(here, i) };
    if i == n {
        law_done_stays_done(listing, replies, count);
    } else {
        let next = completed_upto(sessions, replies, current, i + 1);
        let one = listing.advanced(replies.to(listing));
        let left = (count - 1) as nat;
        let turned = ListingView { current_session_id: current, stage: turn_to(next, i + 1) };
        let asked = with_window(sessions[i], (replies.windows)(i));
        if current == Some(sessions[i].id) {
            assert(here.update(i, preview_disabled(asked)) =~= next);
            assert(one == turned);
            lemma_sessions_in_turn(sessions, replies, current, i + 1, left);
        } else {
            let two = one.advanced(replies.to(one));
            assert(here.update(i, asked).update(
                i,
                previewed(
                    asked,
                    command::preview_reply(
                        asked.id,
                        PREVIEW_LINES as nat,
                        (replies.captures)(i),
                    ),
                ),
            ) =~= next);
            assert(two == turned);
            lemma_sessions_in_turn(sessions, replies, current, i + 1, (left - 1) as nat);
        }
    }
}

/// A listing that gets its replies comes to its outcome: after a number of replies that the
/// number of sessions bounds, it is done, with the listed sessions completed one by one, or
/// with the error of the session listing.
pub proof fn law_listing_comes_to_its_outcome(
    replies: Replies,
    current_session_id: Option<Seq<char>>,
    count: nat,
)
    requires
        count >= replies_needed(replies),
    ensures
        after(ListingView::begun(current_session_id), replies, count).stage == (StageView::Done {
            outcome: listing_outcome(replies, current_session_id),
        }),
{
    let begun = ListingView::begun(current_session_id);
    let one = begun.advanced(replies.to(begun));
    match sessions_reply(replies.sessions) {
        Ok(sessions) => {
            let badged = with_badges(sessions, replies.panes);
            let two = one.advanced(replies.to(one));
            assert(completed_upto(badged, replies, current_session_id, 0) =~= badged);
            assert(after(begun, replies, count) == after(two, replies, (count - 2) as nat)) by {
                reveal_with_fuel(after, 3);
            }
            lemma_sessions_in_turn(badged, replies, current_session_id, 0, (count - 2) as nat);
        },
        Err(_) => {
            law_done_stays_done(one, replies, (count - 1) as nat);
        },
    }
}

/// A listing neither adds, drops, reorders nor renames sessions, and the current one goes without
/// a preview.
pub proof fn law_listing_keeps_the_sessions(
    replies: Replies,
    current_session_id: Option<Seq<char>>,
)
    requires
        sessions_reply(replies.sessions) is Ok,
    ensures
        ({
            let listed = sessions_reply(replies.sessions)->Ok_0;
            let outcome = listing_outcome(replies, current_session_id)->Ok_0;
            &&& listing_outcome(replies, current_session_id) is Ok
            &&& outcome.len() == listed.len()
            &&& forall|i: int|
                0 <= i < listed.len() ==> (#[trigger] outcome[i]).id == listed[i].id
                    && outcome[i].name == listed[i].name && outcome[i].attached
                    == listed[i].attached && outcome[i].window_count == listed[i].window_count
                    && outcome[i].last_activity == listed[i].last_activity
            &&& forall|i: int|
                0 <= i < listed.len() && current_session_id == Some((#[trigger] outcome[i]).id)
                    ==> outcome[i].preview.len() == 0 && outcome[i].preview_error == Some(
                    "Current session preview disabled"@,
                )
        }),
{
}

/// Every session of a listing has a name, and one without an agent has no agent timestamp either,
/// so that sorting leaves those in the order that tmux lists them in.
pub proof fn law_listed_sessions_without_agent(
    replies: Replies,
    current_session_id: Option<Seq<char>>,
    i: int,
)
    requires
        listing_outcome(replies, current_session_id) matches Ok(outcome) && 0 <= i < outcome.len(),
    ensures
        ({
            let session = listing_outcome(replies, current_session_id)->Ok_0[i];
            session.name.len() > 0 && (session.agent_status is None
                ==> session.agent_status_since is None)
        }),
{
    let stdout = replies.sessions->stdout;
    let listed = sessions_reply(replies.sessions)->Ok_0;
    assert(listed == tmux::listed_sessions(text::utf8_text(stdout)));
    assert(listed.contains(listed[i]));
    tmux::law_listed_sessions_are_named(text::utf8_text(stdout), listed[i]);
}

} // verus!
