//! Laws of the picker's state.
use vstd::arithmetic::div_mod;
use vstd::prelude::*;

use crate::model;
use crate::model::picker;
use crate::model::{AppState, SessionView};
use crate::order;
use crate::seqs;
use crate::text;

verus! {

/// The cursor never leaves the grid: a fresh picker has it on a card, and neither moving, nor
/// searching, nor a refresh takes it off.
pub proof fn law_cursor_stays_in_grid(
    s: AppState,
    sessions: Seq<SessionView>,
    current_session_name: Option<Seq<char>>,
    columns: nat,
    ch: char,
)
    requires
        s.cursor_in_grid(),
    ensures
        AppState::fresh(sessions, current_session_name).cursor_in_grid(),
        s.with_sessions(sessions).cursor_in_grid(),
        s.drawn_to_urgent().cursor_in_grid(),
        s.moved_left().cursor_in_grid(),
        s.moved_right().cursor_in_grid(),
        s.moved_up(columns).cursor_in_grid(),
        s.moved_down(columns).cursor_in_grid(),
        s.search_started().cursor_in_grid(),
        s.typed(ch).cursor_in_grid(),
        s.erased().cursor_in_grid(),
        s.search_kept().cursor_in_grid(),
        s.search_cleared().cursor_in_grid(),
{
    if let Some(name) = current_session_name {
        seqs::lemma_first_index(sessions, model::named(name));
    }
    let next = AppState { sessions, ..s };
    if let Some(session) = s.selected() {
        seqs::lemma_first_index(next.visible(), model::named(session.name));
    }
}

/// Whether the query is typed only while there is one.
pub open spec fn search_consistent(s: AppState) -> bool {
    s.editing_search ==> s.search_query is Some
}

/// A query is typed only while there is one, whatever is done with the picker.
pub proof fn law_search_stays_consistent(
    s: AppState,
    sessions: Seq<SessionView>,
    current_session_name: Option<Seq<char>>,
    columns: nat,
    ch: char,
)
    requires
        search_consistent(s),
    ensures
        search_consistent(AppState::fresh(sessions, current_session_name)),
        search_consistent(s.with_sessions(sessions)),
        search_consistent(s.drawn_to_urgent()),
        search_consistent(s.moved_left()),
        search_consistent(s.moved_right()),
        search_consistent(s.moved_up(columns)),
        search_consistent(s.moved_down(columns)),
        search_consistent(s.search_started()),
        search_consistent(s.typed(ch)),
        search_consistent(s.erased()),
        search_consistent(s.search_kept()),
        search_consistent(s.search_cleared()),
{
}

/// Whether the query is typed exactly while there is one.
pub open spec fn search_in_lockstep(s: AppState) -> bool {
    s.editing_search == (s.search_query is Some)
}

/// The query is typed exactly while there is one, as long as text entry is not left with the query
/// kept as a filter: everything else that is done with the picker leaves the two in lockstep, and
/// a fresh picker starts so.
pub proof fn law_search_stays_in_lockstep(
    s: AppState,
    sessions: Seq<SessionView>,
    current_session_name: Option<Seq<char>>,
    columns: nat,
    ch: char,
)
    requires
        search_in_lockstep(s),
    ensures
        search_in_lockstep(AppState::fresh(sessions, current_session_name)),
        search_in_lockstep(s.with_sessions(sessions)),
        search_in_lockstep(s.drawn_to_urgent()),
        search_in_lockstep(s.moved_left()),
        search_in_lockstep(s.moved_right()),
        search_in_lockstep(s.moved_up(columns)),
        search_in_lockstep(s.moved_down(columns)),
        search_in_lockstep(s.search_started()),
        search_in_lockstep(s.typed(ch)),
        search_in_lockstep(s.erased()),
        search_in_lockstep(s.search_cleared()),
{
}

/// What the picker does between two key strokes leaves query and text entry in lockstep too.
pub proof fn law_steps_stay_in_lockstep(
    s: AppState,
    listing: Result<Seq<SessionView>, Seq<char>>,
    current_session_name: Option<Seq<char>>,
    current_session_id: Option<Seq<char>>,
    agent_sort: bool,
    vim_keys: bool,
    message: Seq<char>,
)
    requires
        search_in_lockstep(s),
    ensures
        search_in_lockstep(AppState::opened(listing, current_session_name, agent_sort, vim_keys)),
        search_in_lockstep(s.refreshed(listing, current_session_id, agent_sort)),
        search_in_lockstep(s.stepped()),
        search_in_lockstep(s.switch_refused(message)),
{
}

/// A fresh picker has its cursor on the current session, if that is among the sessions.
pub proof fn law_fresh_selects_current(sessions: Seq<SessionView>, name: Seq<char>)
    requires
        exists|i: int| 0 <= i < sessions.len() && (#[trigger] sessions[i]).name == name,
    ensures
        AppState::fresh(sessions, Some(name)).selected() matches Some(session) && session.name
            == name,
{
    seqs::lemma_first_index(sessions, model::named(name));
    let i = choose|i: int| 0 <= i < sessions.len() && (#[trigger] sessions[i]).name == name;
    assert(model::named(name)(sessions[i]));
}

/// A refresh keeps the cursor on the session it was on, by name, if that is still shown.
pub proof fn law_refresh_keeps_selection(s: AppState, sessions: Seq<SessionView>)
    requires
        s.selected() is Some,
        exists|i: int|
            0 <= i < (AppState { sessions, ..s }).visible().len() && (#[trigger] (AppState {
                sessions,
                ..s
            }).visible()[i]).name == s.selected()->0.name,
    ensures
        s.with_sessions(sessions).selected() matches Some(session) && session.name
            == s.selected()->0.name,
{
    let next = AppState { sessions, ..s };
    let name = s.selected()->0.name;
    seqs::lemma_first_index(next.visible(), model::named(name));
    let i = choose|i: int|
        0 <= i < next.visible().len() && (#[trigger] next.visible()[i]).name == name;
    assert(model::named(name)(next.visible()[i]));
}

/// A refresh always leaves a session selected while one is shown.
pub proof fn law_refresh_selects_something(s: AppState, sessions: Seq<SessionView>)
    ensures
        s.with_sessions(sessions).selected() is Some <==> (AppState {
            sessions,
            ..s
        }).visible().len() > 0,
{
    let next = AppState { sessions, ..s };
    if let Some(session) = s.selected() {
        seqs::lemma_first_index(next.visible(), model::named(session.name));
    }
}

/// A refresh that brings the same sessions changes nothing, where the shown names differ.
pub proof fn law_refresh_without_news(s: AppState)
    requires
        s.cursor_in_grid(),
        forall|i: int, j: int|
            0 <= i < j < s.visible().len() ==> (#[trigger] s.visible()[i]).name != (
            #[trigger] s.visible()[j]).name,
    ensures
        s.with_sessions(s.sessions) == s,
{
    let next = AppState { sessions: s.sessions, ..s };
    assert(next =~= s);
    if let Some(session) = s.selected() {
        let k = s.selected_index as int;
        assert forall|j: int| 0 <= j < k implies !model::named(session.name)(
            #[trigger] s.visible()[j],
        ) by {
            assert(s.visible()[j].name != s.visible()[k].name);
        }
        seqs::lemma_first_index_is(s.visible(), model::named(session.name), k);
    }
}

/// A refresh that keeps a preview changes nothing but the preview of the one session. Where no
/// two sessions share an id, that one shows what it showed before.
pub proof fn law_kept_preview(
    shown: Seq<SessionView>,
    fresh: Seq<SessionView>,
    id: Option<Seq<char>>,
)
    ensures
        model::keep_preview(shown, fresh, id).len() == fresh.len(),
        forall|k: int|
            0 <= k < fresh.len() ==> (SessionView {
                preview: fresh[k].preview,
                preview_error: fresh[k].preview_error,
                ..#[trigger] model::keep_preview(shown, fresh, id)[k]
            }) == fresh[k],
        forall|k: int|
            0 <= k < fresh.len() && id != Some(fresh[k].id) ==> #[trigger] model::keep_preview(
                shown,
                fresh,
                id,
            )[k] == fresh[k],
        order::distinct_ids(shown) && order::distinct_ids(fresh) ==> forall|i: int, k: int|
            0 <= i < shown.len() && 0 <= k < fresh.len() && id == Some((#[trigger] shown[i]).id)
                && id == Some(fresh[k].id) ==> (#[trigger] model::keep_preview(
                shown,
                fresh,
                id,
            )[k]).preview == shown[i].preview && model::keep_preview(
                shown,
                fresh,
                id,
            )[k].preview_error == shown[i].preview_error,
{
    if let Some(id) = id {
        seqs::lemma_first_index(shown, model::identified(id));
        seqs::lemma_first_index(fresh, model::identified(id));
    }
}

/// The empty query finds every name.
pub proof fn law_empty_query_finds_all(name: Seq<char>)
    ensures
        model::fuzzy(name, Seq::empty()),
{
    assert(text::lowercase(Seq::empty()) =~= Seq::<char>::empty());
}

/// A search starts with every session shown, and clearing it shows every session again.
pub proof fn law_search_starts_and_ends_with_all(s: AppState)
    ensures
        s.search_started().visible() == s.sessions,
        s.search_cleared().visible() == s.sessions,
{
    assert forall|i: int| 0 <= i < s.sessions.len() implies model::found_by(Seq::empty())(
        #[trigger] s.sessions[i],
    ) by {
        law_empty_query_finds_all(s.sessions[i].name);
    }
    seqs::lemma_filter_all(s.sessions, model::found_by(Seq::empty()));
}

/// A session is shown exactly when it is there and the query finds its name.
pub proof fn law_shown_when_found(s: AppState, query: Seq<char>, x: SessionView)
    requires
        s.search_query == Some(query),
    ensures
        s.visible().contains(x) <==> s.sessions.contains(x) && model::fuzzy(x.name, query),
{
    seqs::lemma_filter_holds(s.sessions, model::found_by(query), x);
}

/// Erasing undoes typing; only the cursor is on the first card afterwards.
pub proof fn law_erasing_undoes_typing(s: AppState, ch: char)
    requires
        s.search_query is Some,
    ensures
        s.typed(ch).erased() == s.at(0),
{
    let query = s.search_query->0;
    assert(query.push(ch).drop_last() =~= query);
}

/// Leaving text entry keeps what is shown and selected.
pub proof fn law_kept_search_shows_the_same(s: AppState)
    ensures
        s.search_kept().visible() == s.visible(),
        s.search_kept().selected() == s.selected(),
{
}

proof fn lemma_subsequence_prefix(needle: Seq<char>, c: char, hay: Seq<char>)
    requires
        text::subsequence(needle.push(c), hay),
    ensures
        text::subsequence(needle, hay),
    decreases hay.len(),
{
    let longer = needle.push(c);
    if needle.len() > 0 && hay.len() > 0 {
        if needle[0] == hay[0] {
            assert(longer.drop_first() =~= needle.drop_first().push(c));
            lemma_subsequence_prefix(needle.drop_first(), c, hay.drop_first());
        } else {
            lemma_subsequence_prefix(needle, c, hay.drop_first());
        }
    }
}

/// Typing on narrows what is shown: an ASCII query finds nothing that it did not find one
/// character before.
pub proof fn law_typing_narrows(name: Seq<char>, query: Seq<char>, ch: char)
    requires
        vstd::utf8::is_ascii_chars(query.push(ch)),
        model::fuzzy(name, query.push(ch)),
    ensures
        model::fuzzy(name, query),
{
    assert(vstd::utf8::is_ascii_chars(query)) by {
        assert forall|i: int| 0 <= i < query.len() implies '\0' <= #[trigger] query[i]
            <= '\u{7f}' by {
            assert(query.push(ch)[i] == query[i]);
        }
    }
    assert(text::lowercase(query.push(ch)) =~= text::lowercase(query).push(text::ascii_lower(ch)));
    lemma_subsequence_prefix(text::lowercase(query), text::ascii_lower(ch), text::lowercase(name));
}

/// One card to the right and one to the left again leads back.
pub proof fn law_left_undoes_right(s: AppState)
    requires
        s.selected_index + 1 < s.visible().len(),
    ensures
        s.moved_right().moved_left() == s,
{
    assert(s.moved_right().moved_left() =~= s);
}

/// One row down and one row up again leads back, where there is a card right below.
pub proof fn law_up_undoes_down(s: AppState, columns: nat)
    requires
        s.selected_index + model::row_width(columns) < s.visible().len(),
    ensures
        s.moved_down(columns).moved_up(columns) == s,
{
    let w = model::row_width(columns) as int;
    let i = s.selected_index as int;
    let last = s.visible().len() - 1;
    div_mod::lemma_div_plus_one(i, w);
    div_mod::lemma_div_is_ordered(w + i, last, w);
    assert(s.moved_down(columns).moved_up(columns) =~= s);
}

/// One row up and one row down again leads back, from any card below the first row.
pub proof fn law_down_undoes_up(s: AppState, columns: nat)
    requires
        model::row_width(columns) <= s.selected_index < s.visible().len(),
    ensures
        s.moved_up(columns).moved_down(columns) == s,
{
    let w = model::row_width(columns) as int;
    let i = s.selected_index as int;
    let last = s.visible().len() - 1;
    assert(w + (i - w) == i);
    div_mod::lemma_div_plus_one(i - w, w);
    div_mod::lemma_div_is_ordered(i, last, w);
    assert(s.moved_up(columns).visible() == s.visible());
    assert(s.moved_up(columns).moved_down(columns) =~= s);
}

/// The row of the grid that position `index` is in.
pub open spec fn row(index: nat, columns: nat) -> int {
    index as int / model::row_width(columns) as int
}

/// Moving down leads to the next row exactly when there is one, and moving up to the row before
/// exactly when there is one.
pub proof fn law_vertical_moves_change_rows(s: AppState, columns: nat)
    requires
        s.selected_index < s.visible().len(),
    ensures
        row(s.moved_down(columns).selected_index, columns) == (if row(s.selected_index, columns)
            < row((s.visible().len() - 1) as nat, columns) {
            row(s.selected_index, columns) + 1
        } else {
            row(s.selected_index, columns)
        }),
        row(s.moved_up(columns).selected_index, columns) == (if row(s.selected_index, columns)
            > 0 {
            row(s.selected_index, columns) - 1
        } else {
            0
        }),
{
    let w = model::row_width(columns) as int;
    let i = s.selected_index as int;
    let last = s.visible().len() - 1;
    assert(w + i == i + w && -w + i == i - w);
    div_mod::lemma_div_plus_one(i, w);
    div_mod::lemma_div_minus_one(i, w);
    if i < w {
        div_mod::lemma_basic_div(i, w);
    } else {
        div_mod::lemma_div_is_ordered(0, i - w, w);
    }
    if i + w > last {
        div_mod::lemma_div_is_ordered(last, w + i, w);
    }
}

/// After sorting, a fresh picker that is drawn to urgent sessions has its cursor on the most
/// urgent session, if any session needs you. That is the current session only where no other
/// session is as urgent.
pub proof fn law_cursor_drawn_to_the_most_urgent(
    sessions: Seq<SessionView>,
    current: Option<Seq<char>>,
    x: SessionView,
)
    requires
        sessions.contains(x),
        x.urgent(),
    ensures
        AppState::fresh(order::arranged(sessions, current), current).drawn_to_urgent().selected()
            matches Some(top) && top.urgent() && order::no_later(top, x, current) && (
        order::tracked_current(top, current) ==> order::urgency(x) < order::urgency(top) || current
            == Some(x.name)),
{
    let grid = order::arranged(sessions, current);
    order::law_arranged_in_order(sessions, current);
    vstd::seq_lib::to_multiset_contains(sessions, x);
    vstd::seq_lib::to_multiset_contains(grid, x);
    let k = choose|k: int| 0 <= k < grid.len() && grid[k] == x;
    assert(order::no_later(grid[0], grid[k], current));
}

/// After sorting, a fresh picker keeps its cursor where it is, on the current session, if no
/// session needs you.
pub proof fn law_cursor_stays_without_urgency(
    sessions: Seq<SessionView>,
    current: Option<Seq<char>>,
)
    requires
        forall|i: int| 0 <= i < sessions.len() ==> !(#[trigger] sessions[i]).urgent(),
    ensures
        AppState::fresh(order::arranged(sessions, current), current).drawn_to_urgent()
            == AppState::fresh(order::arranged(sessions, current), current),
{
    let grid = order::arranged(sessions, current);
    order::law_arranged_in_order(sessions, current);
    if grid.len() > 0 {
        assert(grid.contains(grid[0]));
        vstd::seq_lib::to_multiset_contains(sessions, grid[0]);
        vstd::seq_lib::to_multiset_contains(grid, grid[0]);
        let k = choose|k: int| 0 <= k < sessions.len() && sessions[k] == grid[0];
        assert(!sessions[k].urgent());
    }
}

/// The cursor stays in the grid and the search consistent through everything that the picker does
/// between two key strokes.
pub proof fn law_steps_keep_the_picker_sound(
    s: AppState,
    listing: Result<Seq<SessionView>, Seq<char>>,
    current_session_name: Option<Seq<char>>,
    current_session_id: Option<Seq<char>>,
    agent_sort: bool,
    vim_keys: bool,
    message: Seq<char>,
)
    requires
        s.cursor_in_grid(),
        search_consistent(s),
    ensures
        AppState::opened(listing, current_session_name, agent_sort, vim_keys).cursor_in_grid(),
        s.refreshed(listing, current_session_id, agent_sort).cursor_in_grid(),
        s.stepped().cursor_in_grid(),
        s.switch_refused(message).cursor_in_grid(),
        search_consistent(AppState::opened(listing, current_session_name, agent_sort, vim_keys)),
        search_consistent(s.refreshed(listing, current_session_id, agent_sort)),
        search_consistent(s.stepped()),
        search_consistent(s.switch_refused(message)),
{
    match listing {
        Ok(sessions) => {
            let grid = picker::grid_order(sessions, agent_sort);
            let kept = model::keep_preview(s.sessions, grid, current_session_id);
            law_cursor_stays_in_grid(s, grid, current_session_name, 1, ' ');
            law_cursor_stays_in_grid(s, kept, current_session_name, 1, ' ');
        },
        Err(_) => {
            law_cursor_stays_in_grid(s, Seq::empty(), current_session_name, 1, ' ');
        },
    }
}

/// The picker opens with its cursor on the current session, whether or not the sessions are
/// sorted.
pub proof fn law_opens_on_the_current_session(
    sessions: Seq<SessionView>,
    name: Seq<char>,
    agent_sort: bool,
    vim_keys: bool,
)
    requires
        exists|i: int| 0 <= i < sessions.len() && (#[trigger] sessions[i]).name == name,
    ensures
        AppState::opened(Ok(sessions), Some(name), agent_sort, vim_keys).selected() matches Some(
            session,
        ) && session.name == name,
{
    let grid = picker::grid_order(sessions, agent_sort);
    order::law_arranged_in_order(sessions, None);
    let i = choose|i: int| 0 <= i < sessions.len() && (#[trigger] sessions[i]).name == name;
    assert(sessions.contains(sessions[i]));
    vstd::seq_lib::to_multiset_contains(sessions, sessions[i]);
    vstd::seq_lib::to_multiset_contains(grid, sessions[i]);
    let k = choose|k: int| 0 <= k < grid.len() && grid[k] == sessions[i];
    assert(grid[k].name == name);
    law_fresh_selects_current(grid, name);
}

/// The picker shows the sessions that tmux lists, no more and no fewer.
pub proof fn law_opens_with_the_listed_sessions(
    sessions: Seq<SessionView>,
    current_session_name: Option<Seq<char>>,
    agent_sort: bool,
    vim_keys: bool,
)
    ensures
        ({
            let s = AppState::opened(Ok(sessions), current_session_name, agent_sort, vim_keys);
            s.visible().to_multiset() == sessions.to_multiset() && s.error is None
        }),
{
    order::law_arranged_in_order(sessions, None);
}

/// A refresh that fails changes nothing but the error that is shown, and the next one that
/// succeeds takes it away.
pub proof fn law_failed_refresh_keeps_the_sessions(
    s: AppState,
    message: Seq<char>,
    sessions: Seq<SessionView>,
    current_session_id: Option<Seq<char>>,
    agent_sort: bool,
)
    ensures
        ({
            let failed = s.refreshed(Err(message), current_session_id, agent_sort);
            &&& failed.visible() == s.visible() && failed.selected() == s.selected()
            &&& failed.step() == s.step()
            &&& failed.refreshed(Ok(sessions), current_session_id, agent_sort) == s.refreshed(
                Ok(sessions),
                current_session_id,
                agent_sort,
            )
            &&& s.refreshed(Ok(sessions), current_session_id, agent_sort).error is None
        }),
{
    let failed = s.refreshed(Err(message), current_session_id, agent_sort);
    assert(failed.refreshed(Ok(sessions), current_session_id, agent_sort) =~= s.refreshed(
        Ok(sessions),
        current_session_id,
        agent_sort,
    ));
}

/// The picker asks tmux to switch only to the session under the cursor, only when that was
/// wished, and never to the session that you are in.
pub proof fn law_switches_to_the_selected_session(s: AppState)
    ensures
        s.step() matches picker::StepView::Switch { target } ==> s.should_switch && !s.should_quit
            && (s.selected() matches Some(session) && session.id == target
            && s.current_session_name != Some(session.name)),
{
}

/// A wish to switch is answered once: after tmux refused, or where nothing is selected, the
/// picker waits.
pub proof fn law_switch_is_asked_once(s: AppState, message: Seq<char>)
    requires
        !s.should_quit,
    ensures
        s.switch_refused(message).step() is Wait,
        s.selected() is None ==> s.step() is Wait,
        s.step() is Wait ==> !s.stepped().should_switch && s.stepped().step() is Wait,
{
}

} // verus!
