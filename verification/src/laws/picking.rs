//! What the picker does between two key strokes.
use vstd::prelude::*;

use crate::model;
use crate::model::picker;
use crate::model::picker::{Step, StepView};
use crate::model::{AppState, SessionView};
use crate::order;

verus! {

/// The picker closes when that was asked for. When a switch was asked for and a session is under
/// the cursor, it closes if that session is the current one and switches to it otherwise, whatever
/// else the state is. In every other state it waits.
pub proof fn law_step(s: AppState)
    ensures
        s.should_quit ==> s.step() is Quit,
        !s.should_quit && s.should_switch && s.selected() is Some && s.current_session_name == Some(
            s.selected()->0.name,
        ) ==> s.step() is Quit,
        !s.should_quit && s.should_switch && s.selected() is Some && s.current_session_name != Some(
            s.selected()->0.name,
        ) ==> s.step() == (StepView::Switch { target: s.selected()->0.id }),
        !s.should_quit && s.should_switch && s.selected() is None ==> s.step() is Wait,
        !s.should_quit && !s.should_switch ==> s.step() is Wait,
{
}

/// Deciding on a step changes nothing but that a wish to switch is dropped where there is nothing
/// to switch to.
pub proof fn law_after_a_step(s: AppState)
    ensures
        s.should_quit || s.selected() is Some ==> s.stepped() == s,
        !s.should_quit && s.selected() is None ==> s.stepped() == (AppState {
            should_switch: false,
            ..s
        }),
{
    assert(!s.should_switch ==> s =~= AppState { should_switch: false, ..s });
}

/// A switch that tmux refuses drops the wish and shows what tmux said, with how to quit below it;
/// nothing else changes.
pub proof fn law_after_a_refusal(s: AppState, message: Seq<char>)
    ensures
        s.switch_refused(message) == (AppState {
            error: Some(message + "\n\nPress q or Esc to quit."@),
            should_switch: false,
            ..s
        }),
{
}

/// The picker opens on the listed sessions, sorted by agent status if that is wanted and else as
/// tmux lists them. On an error it opens without sessions, and shows the error with how to quit
/// below it.
pub proof fn law_opening(
    sessions: Seq<SessionView>,
    message: Seq<char>,
    current: Option<Seq<char>>,
    vim_keys: bool,
)
    ensures
        AppState::opened(Ok(sessions), current, true, vim_keys) == (AppState {
            vim_keys,
            ..AppState::fresh(order::arranged(sessions, None), current)
        }),
        AppState::opened(Ok(sessions), current, false, vim_keys) == (AppState {
            vim_keys,
            ..AppState::fresh(sessions, current)
        }),
        forall|agent_sort: bool|
            #![trigger AppState::opened(Err(message), current, agent_sort, vim_keys)]
            AppState::opened(Err(message), current, agent_sort, vim_keys) == (AppState {
                vim_keys,
                error: Some(message + "\n\nPress q or Esc to quit."@),
                ..AppState::fresh(Seq::empty(), current)
            }),
{
}

/// A refresh takes in the listed sessions, sorted or not as at the opening, with the current
/// session's preview kept, and takes the error away. On an error it changes nothing but the error
/// that is shown.
pub proof fn law_refreshing(
    s: AppState,
    sessions: Seq<SessionView>,
    message: Seq<char>,
    id: Option<Seq<char>>,
)
    ensures
        s.refreshed(Ok(sessions), id, true) == (AppState {
            error: None,
            ..s.with_sessions(
                model::keep_preview(s.sessions, order::arranged(sessions, None), id),
            )
        }),
        s.refreshed(Ok(sessions), id, false) == (AppState {
            error: None,
            ..s.with_sessions(model::keep_preview(s.sessions, sessions, id))
        }),
        forall|agent_sort: bool|
            #![trigger s.refreshed(Err(message), id, agent_sort)]
            s.refreshed(Err(message), id, agent_sort) == (AppState {
                error: Some(message + "\n\nPress q or Esc to quit."@),
                ..s
            }),
{
}

/// A step is seen as it is.
pub proof fn law_step_is_seen_as_it_is(step: Step)
    ensures
        step is Quit <==> step@ is Quit,
        step is Wait <==> step@ is Wait,
        match step {
            Step::Switch { target } => step@ == (StepView::Switch { target: target@ }),
            _ => !(step@ is Switch),
        },
{
}

} // verus!
