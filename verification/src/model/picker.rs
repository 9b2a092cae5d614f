//! What the picker does between two key strokes.
use vstd::prelude::*;

use crate::command;
use crate::model;
use crate::model::{App, AppState, Session, SessionView};
use crate::order;
use crate::text;
use crate::tmux;
use crate::tmux::TmuxError;

verus! {

/// An error as the picker shows it.
pub open spec fn shown_error(message: Seq<char>) -> Seq<char> {
    message + "\n\nPress q or Esc to quit."@
}

/// The text that tells of `error`.
fn error_text(error: &TmuxError) -> (r: String)
    ensures
        r@ == shown_error(error.message@),
{
    let mut r = error.message.clone();
    r.append("\n\nPress q or Esc to quit.");
    r
}

/// The sessions in the order of the grid: those whose agents need you first, or as tmux lists
/// them where that is not wanted.
pub open spec fn grid_order(sessions: Seq<SessionView>, agent_sort: bool) -> Seq<SessionView> {
    if agent_sort {
        order::arranged(sessions, None)
    } else {
        sessions
    }
}

/// Puts the sessions in the order of the grid.
fn put_in_grid_order(sessions: Vec<Session>, agent_sort: bool) -> (r: Vec<Session>)
    ensures
        model::session_views(r@) == grid_order(model::session_views(sessions@), agent_sort),
{
    let mut sessions = sessions;
    if agent_sort {
        order::sort_sessions_by_agent_status(sessions.as_mut_slice());
    }
    sessions
}

impl AppState {
    /// The picker as it opens on a listing, or on the error that stands in its place.
    pub open spec fn opened(
        listing: Result<Seq<SessionView>, Seq<char>>,
        current_session_name: Option<Seq<char>>,
        agent_sort: bool,
        vim_keys: bool,
    ) -> AppState {
        match listing {
            Ok(sessions) => AppState {
                vim_keys,
                ..AppState::fresh(grid_order(sessions, agent_sort), current_session_name)
            },
            Err(message) => AppState {
                error: Some(shown_error(message)),
                vim_keys,
                ..AppState::fresh(Seq::empty(), current_session_name)
            },
        }
    }

    /// The picker after a new listing. An error is shown beside the sessions so far, until a
    /// listing succeeds again. The current session, which is not captured, keeps its preview.
    pub open spec fn refreshed(
        self,
        listing: Result<Seq<SessionView>, Seq<char>>,
        current_session_id: Option<Seq<char>>,
        agent_sort: bool,
    ) -> AppState {
        match listing {
            Ok(sessions) => AppState {
                error: None,
                ..self.with_sessions(
                    model::keep_preview(
                        self.sessions,
                        grid_order(sessions, agent_sort),
                        current_session_id,
                    ),
                )
            },
            Err(message) => AppState { error: Some(shown_error(message)), ..self },
        }
    }

    /// What the picker is to do next.
    pub open spec fn step(self) -> StepView {
        if self.should_quit {
            StepView::Quit
        } else if self.should_switch {
            match self.selected() {
                Some(session) => if self.current_session_name == Some(session.name) {
                    StepView::Quit
                } else {
                    StepView::Switch { target: session.id }
                },
                None => StepView::Wait,
            }
        } else {
            StepView::Wait
        }
    }

    /// The picker once that step is known: a wish to switch is dropped where there is nothing to
    /// switch to.
    pub open spec fn stepped(self) -> AppState {
        if self.step() is Wait {
            AppState { should_switch: false, ..self }
        } else {
            self
        }
    }

    /// The picker after tmux would not switch.
    pub open spec fn switch_refused(self, message: Seq<char>) -> AppState {
        AppState { error: Some(shown_error(message)), should_switch: false, ..self }
    }
}

/// What the picker is to do next.
#[derive(Debug, PartialEq, Eq)]
pub enum Step {
    /// Close the picker.
    Quit,
    /// Ask tmux to switch to the session with the id `target`.
    Switch { target: String },
    /// Wait for a key stroke, a click or the next refresh.
    Wait,
}

/// A [`Step`], with its target as a sequence of characters.
pub enum StepView {
    Quit,
    Switch { target: Seq<char> },
    Wait,
}

impl View for Step {
    type V = StepView;

    open spec fn view(&self) -> StepView {
        match self {
            Step::Quit => StepView::Quit,
            Step::Switch { target } => StepView::Switch { target: target@ },
            Step::Wait => StepView::Wait,
        }
    }
}

impl App {
    /// Opens the picker on a listing, or on the error that stands in its place.
    pub fn open_on(
        listing: Result<Vec<Session>, TmuxError>,
        current_session_name: Option<String>,
        agent_sort: bool,
        vim_keys: bool,
    ) -> (r: App)
        ensures
            r@ == AppState::opened(
                tmux::sessions_result(listing),
                text::opt_text(current_session_name),
                agent_sort,
                vim_keys,
            ),
    {
        let mut app = match listing {
            Ok(sessions) => App::new(put_in_grid_order(sessions, agent_sort), current_session_name),
            Err(error) => {
                let mut app = App::new(Vec::new(), current_session_name);
                assert(app@.sessions =~= Seq::empty());
                app.error = Some(error_text(&error));
                app
            },
        };
        app.vim_keys = vim_keys;
        app
    }

    /// Takes in a new listing, or shows the error that stands in its place.
    pub fn refresh(
        &mut self,
        listing: Result<Vec<Session>, TmuxError>,
        current_session_id: Option<&str>,
        agent_sort: bool,
    )
        ensures
            final(self)@ == old(self)@.refreshed(
                tmux::sessions_result(listing),
                text::opt_str(current_session_id),
                agent_sort,
            ),
    {
        match listing {
            Ok(sessions) => {
                self.replace_sessions_preserving_preview_for(
                    put_in_grid_order(sessions, agent_sort),
                    current_session_id,
                );
                self.error = None;
            },
            Err(error) => {
                self.error = Some(error_text(&error));
            },
        }
    }

    /// What the picker is to do next: close, switch to the session under the cursor, or wait.
    /// Choosing the session that you are in just closes the picker.
    pub fn next_step(&mut self) -> (r: Step)
        ensures
            r@ == old(self)@.step(),
            final(self)@ == old(self)@.stepped(),
    {
        if self.should_quit {
            return Step::Quit;
        }
        if self.should_switch {
            if let Some(session) = self.selected_session() {
                let is_current = match &self.current_session_name {
                    Some(name) => *name.as_str() == *session.name.as_str(),
                    None => false,
                };
                if is_current {
                    return Step::Quit;
                }
                return Step::Switch { target: session.id.clone() };
            }
            self.should_switch = false;
        }
        Step::Wait
    }

    /// Takes in tmux's answer to a request to switch; answers whether the picker is to close.
    pub fn switch_answered(&mut self, answer: Result<(), TmuxError>) -> (closes: bool)
        ensures
            closes == (answer is Ok),
            final(self)@ == (match command::switch_result(answer) {
                Ok(()) => old(self)@,
                Err(message) => old(self)@.switch_refused(message),
            }),
    {
        match answer {
            Ok(()) => true,
            Err(error) => {
                self.error = Some(error_text(&error));
                self.should_switch = false;
                false
            },
        }
    }
}

} // verus!
