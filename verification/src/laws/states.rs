//! How the picker's state changes, field by field.
use std::cmp::Ordering;

use vstd::prelude::*;
use vstd::std_specs::cmp::PartialOrdSpec;

use crate::model;
use crate::model::{AgentPaneCounts, AgentStatus, AppState, Session, SessionView};
use crate::seqs;

verus! {

/// What a session holds is what its fields hold.
pub proof fn law_session_is_seen_as_it_is(session: Session)
    ensures
        session@.id == session.id@,
        session@.name == session.name@,
        session@.attached == session.attached,
        session@.window_count == session.window_count,
        session@.current_window == (match session.current_window {
            Some(window) => Some(window@),
            None => None,
        }),
        session@.last_activity == (match session.last_activity {
            Some(activity) => Some(activity@),
            None => None,
        }),
        session@.preview == Seq::new(session.preview@.len(), |i: int| session.preview@[i]@),
        session@.preview_error == (match session.preview_error {
            Some(error) => Some(error@),
            None => None,
        }),
        session@.agent_status == session.agent_status,
        session@.agent_status_since == session.agent_status_since,
        session@.agent_pane_counts == session.agent_pane_counts,
{
    assert(session@.preview =~= Seq::new(session.preview@.len(), |i: int| session.preview@[i]@));
}

/// A list of sessions is seen session by session.
pub proof fn law_sessions_are_seen_one_by_one(v: Seq<Session>, w: Seq<&Session>)
    ensures
        model::session_views(v) == Seq::new(v.len(), |i: int| v[i]@),
        model::session_ref_views(w) == Seq::new(w.len(), |i: int| w[i]@),
{
    assert(model::session_views(v) =~= Seq::new(v.len(), |i: int| v[i]@));
    assert(model::session_ref_views(w) =~= Seq::new(w.len(), |i: int| w[i]@));
}

/// The three status words are `working`, `waiting` and `attention`, and no other text is one.
pub proof fn law_status_words(word: Seq<char>)
    ensures
        AgentStatus::of_word(word) == Some(AgentStatus::Working) <==> word == "working"@,
        AgentStatus::of_word(word) == Some(AgentStatus::Waiting) <==> word == "waiting"@,
        AgentStatus::of_word(word) == Some(AgentStatus::Attention) <==> word == "attention"@,
        AgentStatus::Working.word() == "working"@,
        AgentStatus::Waiting.word() == "waiting"@,
        AgentStatus::Attention.word() == "attention"@,
{
    model::law_status_word_reads_back(AgentStatus::Working);
    model::law_status_word_reads_back(AgentStatus::Waiting);
    model::law_status_word_reads_back(AgentStatus::Attention);
}

/// `Attention` is more severe than `Waiting`, and that than `Working`; a session is urgent exactly
/// when it is at one of the first two.
pub proof fn law_severity(session: SessionView)
    ensures
        0 < AgentStatus::Working.severity() < AgentStatus::Waiting.severity()
            < AgentStatus::Attention.severity(),
        session.urgent() <==> session.agent_status == Some(AgentStatus::Attention)
            || session.agent_status == Some(AgentStatus::Waiting),
        ({
            let none = AgentPaneCounts::zero();
            none.working == 0 && none.waiting == 0 && none.attention == 0
        }),
{
}

/// Statuses compare by how urgently they ask for you: each equals itself, and `Working` is less
/// than `Waiting`, and that than `Attention`.
pub proof fn law_statuses_compare(a: AgentStatus, b: AgentStatus)
    ensures
        AgentStatus::obeys_partial_cmp_spec(),
        a == b ==> a.partial_cmp_spec(&b) == Some(Ordering::Equal),
        a != b && (a == AgentStatus::Working || b == AgentStatus::Attention)
            ==> a.partial_cmp_spec(&b) == Some(Ordering::Less),
        a != b && (a == AgentStatus::Attention || b == AgentStatus::Working)
            ==> a.partial_cmp_spec(&b) == Some(Ordering::Greater),
{
}

/// A fresh picker shows the sessions it was given, has neither query nor error, and is to do
/// nothing. Its cursor is on the first session with the current name, and on the first card where
/// there is none.
pub proof fn law_fresh_picker(sessions: Seq<SessionView>, current: Option<Seq<char>>, i: int)
    requires
        0 <= i < sessions.len(),
    ensures
        ({
            let s = AppState::fresh(sessions, current);
            &&& s.sessions == sessions && s.current_session_name == current
            &&& !s.should_quit && !s.should_switch && s.error is None && !s.vim_keys
            &&& s.search_query is None && !s.editing_search
            &&& current == Some(sessions[i].name) && (forall|j: int|
                0 <= j < i ==> current != Some((#[trigger] sessions[j]).name))
                ==> s.selected_index == i
            &&& (forall|j: int|
                0 <= j < sessions.len() ==> current != Some((#[trigger] sessions[j]).name))
                ==> s.selected_index == 0
        }),
{
    if let Some(name) = current {
        let p = model::named(name);
        if sessions[i].name == name && (forall|j: int|
            0 <= j < i ==> current != Some((#[trigger] sessions[j]).name)) {
            seqs::lemma_first_index_is(sessions, p, i);
        }
        if forall|j: int|
            0 <= j < sessions.len() ==> current != Some((#[trigger] sessions[j]).name) {
            seqs::lemma_first_index_none(sessions, p);
        }
    }
}

/// A fresh picker without sessions has its cursor at the start, and is otherwise like any other.
pub proof fn law_fresh_picker_without_sessions(current: Option<Seq<char>>)
    ensures
        AppState::fresh(Seq::empty(), current) == (AppState {
            sessions: Seq::empty(),
            selected_index: 0,
            current_session_name: current,
            should_quit: false,
            should_switch: false,
            error: None,
            vim_keys: false,
            search_query: None,
            editing_search: false,
        }),
{
}

/// Starting a search sets an empty query that is being typed; typing adds the character at its
/// end, erasing takes the last one off, clearing drops it, and keeping it only ends the typing.
/// All but the last put the cursor on the first card, typing and erasing do nothing without a
/// query, and all leave everything else alone.
pub proof fn law_search_steps(s: AppState, ch: char)
    ensures
        s.search_started() == (AppState {
            search_query: Some(Seq::empty()),
            editing_search: true,
            selected_index: 0,
            ..s
        }),
        s.search_query is Some ==> s.typed(ch) == (AppState {
            search_query: Some(s.search_query->0 + seq![ch]),
            selected_index: 0,
            ..s
        }),
        s.search_query is Some && s.search_query->0.len() > 0 ==> s.erased() == (AppState {
            search_query: Some(s.search_query->0.take(s.search_query->0.len() - 1)),
            selected_index: 0,
            ..s
        }),
        s.search_query is Some && s.search_query->0.len() == 0 ==> s.erased() == (AppState {
            selected_index: 0,
            ..s
        }),
        s.search_query is None ==> s.typed(ch) == s && s.erased() == s,
        s.search_cleared() == (AppState {
            search_query: None,
            editing_search: false,
            selected_index: 0,
            ..s
        }),
        s.search_kept() == (AppState { editing_search: false, ..s }),
{
    if let Some(query) = s.search_query {
        assert(query.push(ch) =~= query + seq![ch]);
        if query.len() > 0 {
            assert(query.drop_last() =~= query.take(query.len() - 1));
        }
        assert(s.searching(query) =~= AppState { selected_index: 0, ..s });
    }
}

/// The cursor is drawn to the first card exactly where the agent of the first session is blocked
/// on you or waiting for you; nothing else changes.
pub proof fn law_drawn_to_the_first_card(s: AppState)
    ensures
        s.drawn_to_urgent() == (AppState {
            selected_index: if s.sessions.len() > 0 && (s.sessions[0].agent_status == Some(
                AgentStatus::Attention,
            ) || s.sessions[0].agent_status == Some(AgentStatus::Waiting)) {
                0
            } else {
                s.selected_index
            },
            ..s
        }),
{
    assert(s.at(0) =~= AppState { selected_index: 0, ..s });
}

/// The cursor moves by one card sideways and by one row up or down, where there is a card to move
/// to: to the right unless it is on the last card, to the left unless it is on the first, up
/// unless it is in the first row. Nothing else changes.
pub proof fn law_moves(s: AppState, columns: nat)
    ensures
        ({
            let count = s.visible().len();
            let here = s.selected_index;
            let width = if columns == 0 {
                1
            } else {
                columns
            };
            &&& s.moved_right() == (AppState {
                selected_index: if here + 1 < count {
                    here + 1
                } else {
                    here
                },
                ..s
            })
            &&& s.moved_left() == (AppState {
                selected_index: if here > 0 {
                    (here - 1) as nat
                } else {
                    here
                },
                ..s
            })
            &&& s.moved_up(columns) == (AppState {
                selected_index: if here >= width {
                    (here - width) as nat
                } else {
                    here
                },
                ..s
            })
            &&& s.moved_down(columns) == (AppState {
                selected_index: s.moved_down(columns).selected_index,
                ..s
            })
        }),
{
}

/// From row `row` of a grid of `width` columns the cursor moves down to the card right below. Where
/// the next row is too short for that it moves to the last card, and in the last row it stays.
pub proof fn law_move_down(s: AppState, columns: nat, row: nat, column: nat)
    requires
        columns >= 1,
        column < columns,
        s.selected_index == row * columns + column,
        s.selected_index < s.visible().len(),
    ensures
        s.moved_down(columns).selected_index == (if s.selected_index + columns
            < s.visible().len() {
            s.selected_index + columns
        } else if (row + 1) * columns < s.visible().len() {
            (s.visible().len() - 1) as nat
        } else {
            s.selected_index
        }),
        columns == 1 ==> s.moved_down(0) == s.moved_down(1),
{
    let w = columns as int;
    let i = s.selected_index as int;
    let last = s.visible().len() - 1;
    vstd::arithmetic::div_mod::lemma_fundamental_div_mod_converse(
        i,
        w,
        row as int,
        column as int,
    );
    assert((row + 1) * columns == row * columns + columns) by (nonlinear_arith);
    let below: int = (row + 1) * columns as int;
    if below <= last {
        vstd::arithmetic::div_mod::lemma_div_is_ordered(below, last, w);
        vstd::arithmetic::div_mod::lemma_fundamental_div_mod_converse(
            below,
            w,
            row as int + 1,
            0,
        );
    } else {
        vstd::arithmetic::div_mod::lemma_fundamental_div_mod_converse(
            last,
            w,
            row as int,
            last - row as int * w,
        );
    }
}

/// A cursor that is not on a card, as in an empty grid, does not move down.
pub proof fn law_no_move_down_from_outside_the_grid(s: AppState, columns: nat)
    requires
        s.selected_index >= s.visible().len(),
    ensures
        s.moved_down(columns) == s,
{
    if s.visible().len() > 0 {
        vstd::arithmetic::div_mod::lemma_div_is_ordered(
            s.visible().len() - 1,
            s.selected_index as int,
            model::row_width(columns) as int,
        );
    }
}

/// New sessions take the place of the old ones, and all else but the cursor stays. The cursor goes
/// to the first shown session with the name that it was on; where no such session is shown it
/// stays where it is, or goes to the last card where there are fewer, or to the start where there
/// are none.
pub proof fn law_new_sessions(s: AppState, sessions: Seq<SessionView>, i: int)
    ensures
        ({
            let next = s.with_sessions(sessions);
            let shown = (AppState { sessions, ..s }).visible();
            let was = |j: int| s.selected() is Some && shown[j].name == s.selected()->0.name;
            &&& next == (AppState { sessions, selected_index: next.selected_index, ..s })
            &&& 0 <= i < shown.len() && was(i) && (forall|j: int|
                0 <= j < i ==> s.selected()->0.name != (#[trigger] shown[j]).name)
                ==> next.selected_index == i
            &&& (s.selected() is None || forall|j: int|
                0 <= j < shown.len() ==> s.selected()->0.name != (#[trigger] shown[j]).name)
                ==> next.selected_index == (if s.selected_index < shown.len() {
                s.selected_index
            } else if shown.len() > 0 {
                (shown.len() - 1) as nat
            } else {
                0
            })
        }),
{
    let shown = (AppState { sessions, ..s }).visible();
    if let Some(session) = s.selected() {
        let p = model::named(session.name);
        if 0 <= i < shown.len() && shown[i].name == session.name && (forall|j: int|
            0 <= j < i ==> session.name != (#[trigger] shown[j]).name) {
            seqs::lemma_first_index_is(shown, p, i);
        }
        if forall|j: int| 0 <= j < shown.len() ==> session.name != (#[trigger] shown[j]).name {
            seqs::lemma_first_index_none(shown, p);
        }
    }
}

/// Where a session with the id is both shown and fresh, the first fresh one takes the preview of
/// the first shown one, and nothing else changes; otherwise nothing changes at all.
pub proof fn law_preview_is_kept(
    shown: Seq<SessionView>,
    fresh: Seq<SessionView>,
    id: Seq<char>,
    i: int,
    j: int,
)
    ensures
        model::keep_preview(shown, fresh, None) == fresh,
        (forall|k: int| 0 <= k < shown.len() ==> (#[trigger] shown[k]).id != id)
            ==> model::keep_preview(shown, fresh, Some(id)) == fresh,
        (forall|k: int| 0 <= k < fresh.len() ==> (#[trigger] fresh[k]).id != id)
            ==> model::keep_preview(shown, fresh, Some(id)) == fresh,
        0 <= i < shown.len() && 0 <= j < fresh.len() && shown[i].id == id && fresh[j].id == id && (
        forall|k: int| 0 <= k < i ==> (#[trigger] shown[k]).id != id) && (forall|k: int|
            0 <= k < j ==> (#[trigger] fresh[k]).id != id) ==> model::keep_preview(
            shown,
            fresh,
            Some(id),
        ) == fresh.update(
            j,
            SessionView {
                preview: shown[i].preview,
                preview_error: shown[i].preview_error,
                ..fresh[j]
            },
        ),
{
    let p = model::identified(id);
    if forall|k: int| 0 <= k < shown.len() ==> (#[trigger] shown[k]).id != id {
        seqs::lemma_first_index_none(shown, p);
    }
    if forall|k: int| 0 <= k < fresh.len() ==> (#[trigger] fresh[k]).id != id {
        seqs::lemma_first_index_none(fresh, p);
    }
    if 0 <= i < shown.len() && 0 <= j < fresh.len() && shown[i].id == id && fresh[j].id == id && (
    forall|k: int| 0 <= k < i ==> (#[trigger] shown[k]).id != id) && (forall|k: int|
        0 <= k < j ==> (#[trigger] fresh[k]).id != id) {
        seqs::lemma_first_index_is(shown, p, i);
        seqs::lemma_first_index_is(fresh, p, j);
    }
}

} // verus!
