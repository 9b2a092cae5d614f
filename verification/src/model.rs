//! Sessions, the statuses of the agents in them, and the state of the picker.
use std::cmp::Ordering;

use vstd::prelude::*;

use crate::seqs;
use crate::text;

pub mod laws;
pub mod picker;

verus! {

/// An agent pane's status, as an external hook writes it into the tmux pane option
/// `@agent_status`. Ordered from least to most severe, so that the largest of several statuses
/// is the worst: `Attention` (blocked on you) outranks `Waiting` (its turn just ended) outranks
/// `Working` (still running).
#[derive(Debug, Clone, Copy, PartialEq, Eq, Structural, Ord)]
pub enum AgentStatus {
    Working,
    Waiting,
    Attention,
}

impl AgentStatus {
    /// How urgently a status asks for you.
    pub open spec fn severity(self) -> int {
        match self {
            AgentStatus::Working => 1,
            AgentStatus::Waiting => 2,
            AgentStatus::Attention => 3,
        }
    }

    /// The word that stands for a status in the pane option.
    pub open spec fn word(self) -> Seq<char> {
        match self {
            AgentStatus::Working => "working"@,
            AgentStatus::Waiting => "waiting"@,
            AgentStatus::Attention => "attention"@,
        }
    }

    /// The status that a word stands for.
    pub open spec fn of_word(word: Seq<char>) -> Option<AgentStatus> {
        if word == AgentStatus::Working.word() {
            Some(AgentStatus::Working)
        } else if word == AgentStatus::Waiting.word() {
            Some(AgentStatus::Waiting)
        } else if word == AgentStatus::Attention.word() {
            Some(AgentStatus::Attention)
        } else {
            None
        }
    }

    /// Reads a status word; the words are `working`, `waiting` and `attention`.
    pub fn parse(value: &str) -> (r: Option<Self>)
        ensures
            r == AgentStatus::of_word(value@),
    {
        if *value == *"working" {
            Some(AgentStatus::Working)
        } else if *value == *"waiting" {
            Some(AgentStatus::Waiting)
        } else if *value == *"attention" {
            Some(AgentStatus::Attention)
        } else {
            None
        }
    }

    /// `severity`, computed.
    pub fn rank(self) -> (r: u8)
        ensures
            r == self.severity(),
    {
        match self {
            AgentStatus::Working => 1,
            AgentStatus::Waiting => 2,
            AgentStatus::Attention => 3,
        }
    }
}

impl PartialOrd for AgentStatus {
    fn partial_cmp(&self, other: &Self) -> (r: Option<Ordering>) {
        let mine: u8 = self.rank();
        let theirs: u8 = other.rank();
        if mine < theirs {
            Some(Ordering::Less)
        } else if mine == theirs {
            Some(Ordering::Equal)
        } else {
            Some(Ordering::Greater)
        }
    }
}

impl vstd::std_specs::cmp::PartialOrdSpecImpl for AgentStatus {
    open spec fn obeys_partial_cmp_spec() -> bool {
        true
    }

    open spec fn partial_cmp_spec(&self, other: &Self) -> Option<Ordering> {
        if self.severity() < other.severity() {
            Some(Ordering::Less)
        } else if self.severity() == other.severity() {
            Some(Ordering::Equal)
        } else {
            Some(Ordering::Greater)
        }
    }
}

/// Every status is read back from its word.
pub proof fn law_status_word_reads_back(status: AgentStatus)
    ensures
        AgentStatus::of_word(status.word()) == Some(status),
{
    reveal_strlit("working");
    reveal_strlit("waiting");
    reveal_strlit("attention");
    assert("working"@.len() == 7 && "waiting"@.len() == 7 && "attention"@.len() == 9);
    assert("working"@[1] == 'o' && "waiting"@[1] == 'a');
}

/// How many panes in a session sit at each agent status. Used to render a count badge (e.g.
/// "2 waiting, 1 working") instead of collapsing a multi-agent session down to a single pane's
/// state.
#[derive(Debug, Clone, Copy, PartialEq, Eq, Structural)]
pub struct AgentPaneCounts {
    pub working: u32,
    pub waiting: u32,
    pub attention: u32,
}

impl AgentPaneCounts {
    /// The counts of a session without agent panes.
    pub open spec fn zero() -> AgentPaneCounts {
        AgentPaneCounts { working: 0, waiting: 0, attention: 0 }
    }

    /// How many panes sit at `status`.
    pub open spec fn at(self, status: AgentStatus) -> u32 {
        match status {
            AgentStatus::Working => self.working,
            AgentStatus::Waiting => self.waiting,
            AgentStatus::Attention => self.attention,
        }
    }

    /// How many panes have an agent at all.
    pub fn total(&self) -> (r: u32)
        requires
            self.working + self.waiting + self.attention <= u32::MAX,
        ensures
            r == self.working + self.waiting + self.attention,
    {
        self.working + self.waiting + self.attention
    }
}

impl Default for AgentPaneCounts {
    fn default() -> (r: Self)
        ensures
            r == AgentPaneCounts::zero(),
    {
        AgentPaneCounts { working: 0, waiting: 0, attention: 0 }
    }
}

/// A tmux session as the picker shows it.
#[derive(Debug, PartialEq, Eq)]
pub struct Session {
    pub id: String,
    pub name: String,
    pub attached: bool,
    pub window_count: u32,
    pub current_window: Option<String>,
    pub last_activity: Option<String>,
    pub preview: Vec<String>,
    pub preview_error: Option<String>,
    /// The worst-ranked status among this session's panes, or `None` if no pane has ever
    /// reported one.
    pub agent_status: Option<AgentStatus>,
    /// Unix timestamp (seconds) of the oldest pane at `agent_status`'s rank, i.e. how long the
    /// most-neglected pane has held that status.
    pub agent_status_since: Option<i64>,
    pub agent_pane_counts: AgentPaneCounts,
}

/// What a [`Session`] holds, with texts as sequences of characters.
#[verifier::ext_equal]
pub struct SessionView {
    pub id: Seq<char>,
    pub name: Seq<char>,
    pub attached: bool,
    pub window_count: u32,
    pub current_window: Option<Seq<char>>,
    pub last_activity: Option<Seq<char>>,
    pub preview: Seq<Seq<char>>,
    pub preview_error: Option<Seq<char>>,
    pub agent_status: Option<AgentStatus>,
    pub agent_status_since: Option<i64>,
    pub agent_pane_counts: AgentPaneCounts,
}

impl View for Session {
    type V = SessionView;

    open spec fn view(&self) -> SessionView {
        SessionView {
            id: self.id@,
            name: self.name@,
            attached: self.attached,
            window_count: self.window_count,
            current_window: text::opt_text(self.current_window),
            last_activity: text::opt_text(self.last_activity),
            preview: text::texts(self.preview@),
            preview_error: text::opt_text(self.preview_error),
            agent_status: self.agent_status,
            agent_status_since: self.agent_status_since,
            agent_pane_counts: self.agent_pane_counts,
        }
    }
}

impl Clone for Session {
    fn clone(&self) -> (r: Self)
        ensures
            r@ == self@,
    {
        let r = Session {
            id: self.id.clone(),
            name: self.name.clone(),
            attached: self.attached,
            window_count: self.window_count,
            current_window: self.current_window.clone(),
            last_activity: self.last_activity.clone(),
            preview: self.preview.clone(),
            preview_error: self.preview_error.clone(),
            agent_status: self.agent_status,
            agent_status_since: self.agent_status_since,
            agent_pane_counts: self.agent_pane_counts,
        };
        assert(text::texts(r.preview@) =~= text::texts(self.preview@));
        r
    }
}

impl SessionView {
    /// Whether an agent in this session is blocked on you or waiting for you.
    pub open spec fn urgent(self) -> bool {
        self.agent_status == Some(AgentStatus::Attention) || self.agent_status == Some(
            AgentStatus::Waiting,
        )
    }
}

impl Session {
    /// Whether an agent in this session is blocked on you or waiting for you.
    pub fn is_urgent(&self) -> (r: bool)
        ensures
            r == self@.urgent(),
    {
        match self.agent_status {
            Some(AgentStatus::Attention) => true,
            Some(AgentStatus::Waiting) => true,
            _ => false,
        }
    }
}

/// The contents of each session.
pub open spec fn session_views(v: Seq<Session>) -> Seq<SessionView> {
    Seq::new(v.len(), |i: int| v[i]@)
}

/// The contents of each session that a reference leads to.
pub open spec fn session_ref_views(v: Seq<&Session>) -> Seq<SessionView> {
    Seq::new(v.len(), |i: int| v[i]@)
}

/// The predicate of being named `name`.
pub open spec fn named(name: Seq<char>) -> spec_fn(SessionView) -> bool {
    |s: SessionView| s.name == name
}

/// The predicate of having the id `id`.
pub open spec fn identified(id: Seq<char>) -> spec_fn(SessionView) -> bool {
    |s: SessionView| s.id == id
}

/// The position of the first session named `name`.
pub fn position_by_name(sessions: &[Session], name: &str) -> (r: Option<usize>)
    ensures
        match r {
            Some(i) => seqs::first_index(session_views(sessions@), named(name@)) == Some(i as int),
            None => seqs::first_index(session_views(sessions@), named(name@)) is None,
        },
{
    let mut i: usize = 0;
    while i < sessions.len()
        invariant
            i <= sessions@.len(),
            forall|j: int| 0 <= j < i ==> session_views(sessions@)[j].name != name@,
        decreases sessions@.len() - i,
    {
        if *sessions[i].name.as_str() == *name {
            proof {
                seqs::lemma_first_index_is(session_views(sessions@), named(name@), i as int);
            }
            return Some(i);
        }
        i = i + 1;
    }
    proof {
        seqs::lemma_first_index_none(session_views(sessions@), named(name@));
    }
    None
}

/// The position of the first session with the id `id`.
pub fn position_by_id(sessions: &[Session], id: &str) -> (r: Option<usize>)
    ensures
        match r {
            Some(i) => seqs::first_index(session_views(sessions@), identified(id@)) == Some(
                i as int,
            ),
            None => seqs::first_index(session_views(sessions@), identified(id@)) is None,
        },
{
    let mut i: usize = 0;
    while i < sessions.len()
        invariant
            i <= sessions@.len(),
            forall|j: int| 0 <= j < i ==> session_views(sessions@)[j].id != id@,
        decreases sessions@.len() - i,
    {
        if *sessions[i].id.as_str() == *id {
            proof {
                seqs::lemma_first_index_is(session_views(sessions@), identified(id@), i as int);
            }
            return Some(i);
        }
        i = i + 1;
    }
    proof {
        seqs::lemma_first_index_none(session_views(sessions@), identified(id@));
    }
    None
}

/// Whether a query finds a session name: its characters occur in the name in their order,
/// letter case aside. The empty query finds every name.
pub open spec fn fuzzy(name: Seq<char>, query: Seq<char>) -> bool {
    text::subsequence(text::lowercase(query), text::lowercase(name))
}

/// Whether `query` finds `name`.
pub fn fuzzy_matches(name: &str, query: &str) -> (r: bool)
    ensures
        r == fuzzy(name@, query@),
{
    let query = query.to_lowercase();
    if query.as_str().is_empty() {
        return true;
    }
    let name = name.to_lowercase();
    text::is_subsequence(query.as_str(), name.as_str())
}

/// The predicate of being found by `query`.
pub open spec fn found_by(query: Seq<char>) -> spec_fn(SessionView) -> bool {
    |s: SessionView| fuzzy(s.name, query)
}

/// The state of the picker.
#[derive(Debug)]
pub struct App {
    pub sessions: Vec<Session>,
    pub selected_index: usize,
    pub current_session_name: Option<String>,
    pub should_quit: bool,
    pub should_switch: bool,
    pub error: Option<String>,
    /// When true, the picker uses modal vim navigation (hjkl to move, `/` to search).
    pub vim_keys: bool,
    search_query: Option<String>,
    /// True while actively typing a query. In vim mode this is distinct from `search_query`
    /// being set: Esc leaves editing (so hjkl moves again) but keeps `search_query` as an
    /// applied filter, matching how Telescope-style pickers commit a search into normal-mode
    /// browsing instead of discarding it. Default mode has no normal-mode navigation to return
    /// to, so the two always stay in lockstep there; see `is_searching`.
    editing_search: bool,
}

/// What an [`App`] holds, with texts as sequences of characters.
#[verifier::ext_equal]
pub struct AppState {
    pub sessions: Seq<SessionView>,
    pub selected_index: nat,
    pub current_session_name: Option<Seq<char>>,
    pub should_quit: bool,
    pub should_switch: bool,
    pub error: Option<Seq<char>>,
    pub vim_keys: bool,
    pub search_query: Option<Seq<char>>,
    pub editing_search: bool,
}

impl View for App {
    type V = AppState;

    closed spec fn view(&self) -> AppState {
        AppState {
            sessions: session_views(self.sessions@),
            selected_index: self.selected_index as nat,
            current_session_name: text::opt_text(self.current_session_name),
            should_quit: self.should_quit,
            should_switch: self.should_switch,
            error: text::opt_text(self.error),
            vim_keys: self.vim_keys,
            search_query: text::opt_text(self.search_query),
            editing_search: self.editing_search,
        }
    }
}

/// What a picker holds is what its fields hold.
proof fn law_app_is_seen_as_it_is(app: App)
    ensures
        app@ == (AppState {
            sessions: Seq::new(app.sessions@.len(), |i: int| app.sessions@[i]@),
            selected_index: app.selected_index as nat,
            current_session_name: match app.current_session_name {
                Some(name) => Some(name@),
                None => None,
            },
            should_quit: app.should_quit,
            should_switch: app.should_switch,
            error: match app.error {
                Some(error) => Some(error@),
                None => None,
            },
            vim_keys: app.vim_keys,
            search_query: match app.search_query {
                Some(query) => Some(query@),
                None => None,
            },
            editing_search: app.editing_search,
        }),
{
    assert(session_views(app.sessions@) =~= Seq::new(
        app.sessions@.len(),
        |i: int| app.sessions@[i]@,
    ));
}

/// The grid's geometry: moving by a row moves by at least one card.
pub open spec fn row_width(columns: nat) -> nat {
    if columns == 0 {
        1
    } else {
        columns
    }
}

impl AppState {
    /// A picker that shows `sessions`, with the cursor on the current session if it is there.
    pub open spec fn fresh(
        sessions: Seq<SessionView>,
        current_session_name: Option<Seq<char>>,
    ) -> AppState {
        AppState {
            sessions,
            selected_index: match current_session_name {
                Some(name) => match seqs::first_index(sessions, named(name)) {
                    Some(i) => i as nat,
                    None => 0,
                },
                None => 0,
            },
            current_session_name,
            should_quit: false,
            should_switch: false,
            error: None,
            vim_keys: false,
            search_query: None,
            editing_search: false,
        }
    }

    /// The sessions that pass the filter, in their order.
    pub open spec fn visible(self) -> Seq<SessionView> {
        match self.search_query {
            Some(query) => self.sessions.filter(found_by(query)),
            None => self.sessions,
        }
    }

    /// The session under the cursor.
    pub open spec fn selected(self) -> Option<SessionView> {
        if self.selected_index < self.visible().len() {
            Some(self.visible()[self.selected_index as int])
        } else {
            None
        }
    }

    /// Whether the cursor is on a visible card, or at the start of an empty grid.
    pub open spec fn cursor_in_grid(self) -> bool {
        self.selected_index == 0 || self.selected_index < self.visible().len()
    }

    /// The state with the cursor at `index`.
    pub open spec fn at(self, index: int) -> AppState {
        AppState { selected_index: index as nat, ..self }
    }

    /// The state with the query `query`, and the cursor on the first card.
    pub open spec fn searching(self, query: Seq<char>) -> AppState {
        AppState { search_query: Some(query), selected_index: 0, ..self }
    }

    /// An empty query is being typed.
    pub open spec fn search_started(self) -> AppState {
        AppState { editing_search: true, ..self.searching(Seq::empty()) }
    }

    /// The query, if there is one, with `ch` at its end.
    pub open spec fn typed(self, ch: char) -> AppState {
        match self.search_query {
            Some(query) => self.searching(query.push(ch)),
            None => self,
        }
    }

    /// The query, if there is one, without its last character.
    pub open spec fn erased(self) -> AppState {
        match self.search_query {
            Some(query) => self.searching(
                if query.len() > 0 {
                    query.drop_last()
                } else {
                    query
                },
            ),
            None => self,
        }
    }

    /// No query any more, and the cursor on the first card.
    pub open spec fn search_cleared(self) -> AppState {
        AppState { search_query: None, editing_search: false, selected_index: 0, ..self }
    }

    /// The query stays as a filter, but is not being typed any more.
    pub open spec fn search_kept(self) -> AppState {
        AppState { editing_search: false, ..self }
    }

    /// The cursor on the top card, if an agent there needs you.
    pub open spec fn drawn_to_urgent(self) -> AppState {
        if self.sessions.len() > 0 && self.sessions[0].urgent() {
            self.at(0)
        } else {
            self
        }
    }

    /// The state with `sessions` in place of the sessions so far. The cursor follows the name
    /// that it was on; where that name is not shown any more, the cursor stays where it was, or
    /// on the last card where there are fewer.
    pub open spec fn with_sessions(self, sessions: Seq<SessionView>) -> AppState {
        let next = AppState { sessions, ..self };
        let shown = next.visible();
        let followed = match self.selected() {
            Some(session) => seqs::first_index(shown, named(session.name)),
            None => None,
        };
        if shown.len() == 0 {
            next.at(0)
        } else {
            match followed {
                Some(i) => next.at(i),
                None => if self.selected_index < shown.len() {
                    next
                } else {
                    next.at(shown.len() - 1)
                },
            }
        }
    }

    /// The cursor one card to the right, unless it is on the last card.
    pub open spec fn moved_right(self) -> AppState {
        if self.selected_index + 1 < self.visible().len() {
            self.at(self.selected_index as int + 1)
        } else {
            self
        }
    }

    /// The cursor one card to the left, unless it is on the first card.
    pub open spec fn moved_left(self) -> AppState {
        if self.selected_index > 0 {
            self.at(self.selected_index - 1)
        } else {
            self
        }
    }

    /// The cursor one row up, unless it is in the first row.
    pub open spec fn moved_up(self, columns: nat) -> AppState {
        if self.selected_index >= row_width(columns) {
            self.at(self.selected_index - row_width(columns))
        } else {
            self
        }
    }

    /// The cursor one row down, or on the last card where the next row is too short for that;
    /// in the last row it stays.
    pub open spec fn moved_down(self, columns: nat) -> AppState {
        let count = self.visible().len();
        let width = row_width(columns);
        if count == 0 || self.selected_index as int / width as int >= (count - 1) / width as int {
            self
        } else if self.selected_index + width < count {
            self.at(self.selected_index as int + width)
        } else {
            self.at(count - 1)
        }
    }
}

/// The sessions in `fresh`, where the one with the id `id` keeps the preview that it has in
/// `shown`.
pub open spec fn keep_preview(
    shown: Seq<SessionView>,
    fresh: Seq<SessionView>,
    id: Option<Seq<char>>,
) -> Seq<SessionView> {
    match id {
        Some(id) => match (
            seqs::first_index(shown, identified(id)),
            seqs::first_index(fresh, identified(id)),
        ) {
            (Some(i), Some(j)) => fresh.update(
                j,
                SessionView {
                    preview: shown[i].preview,
                    preview_error: shown[i].preview_error,
                    ..fresh[j]
                },
            ),
            _ => fresh,
        },
        None => fresh,
    }
}

impl App {
    /// A picker that shows `sessions`, with the cursor on the current session if it is there.
    pub fn new(sessions: Vec<Session>, current_session_name: Option<String>) -> (r: Self)
        ensures
            r@ == AppState::fresh(
                session_views(sessions@),
                text::opt_text(current_session_name),
            ),
    {
        let selected_index: usize = match &current_session_name {
            Some(name) => match position_by_name(sessions.as_slice(), name.as_str()) {
                Some(i) => i,
                None => 0,
            },
            None => 0,
        };
        App {
            sessions,
            selected_index,
            current_session_name,
            should_quit: false,
            should_switch: false,
            error: None,
            vim_keys: false,
            search_query: None,
            editing_search: false,
        }
    }

    /// Moves the cursor to the top card when an agent there is blocked on or waiting for you.
    /// Meant to run after
    /// [`sort_sessions_by_agent_status_with_current`](crate::order::sort_sessions_by_agent_status_with_current)
    /// with the name of the current session, so the top card is the most urgent one other than
    /// the current session (which sorts last within its rank); otherwise the cursor stays on the
    /// current session. A merely `Working` agent doesn't need you yet, so it doesn't pull the
    /// cursor away.
    pub fn select_most_urgent_agent_session(&mut self)
        ensures
            final(self)@ == old(self)@.drawn_to_urgent(),
    {
        if self.sessions.len() > 0 && self.sessions[0].is_urgent() {
            self.selected_index = 0;
        }
    }

    /// The session under the cursor.
    pub fn selected_session(&self) -> (r: Option<&Session>)
        ensures
            match r {
                Some(session) => self@.selected() == Some(session@),
                None => self@.selected() is None,
            },
    {
        let visible = self.visible_sessions();
        if self.selected_index < visible.len() {
            Some(visible[self.selected_index])
        } else {
            None
        }
    }

    /// The sessions that pass the filter, in their order.
    pub fn visible_sessions(&self) -> (r: Vec<&Session>)
        ensures
            session_ref_views(r@) == self@.visible(),
    {
        let mut out: Vec<&Session> = Vec::new();
        let ghost all = session_views(self.sessions@);
        let mut i: usize = 0;
        proof {
            assert(all.take(0) =~= Seq::<SessionView>::empty());
            if let Some(query) = self@.search_query {
                assert(all.take(0).filter(found_by(query)) =~= Seq::<SessionView>::empty()) by {
                    reveal(Seq::filter);
                }
            }
        }
        while i < self.sessions.len()
            invariant
                i <= self.sessions@.len(),
                all == session_views(self.sessions@),
                session_ref_views(out@) == (match self@.search_query {
                    Some(query) => all.take(i as int).filter(found_by(query)),
                    None => all.take(i as int),
                }),
            decreases self.sessions@.len() - i,
        {
            let session = &self.sessions[i];
            let shown = match &self.search_query {
                Some(query) => fuzzy_matches(session.name.as_str(), query.as_str()),
                None => true,
            };
            let ghost before = out@;
            if shown {
                out.push(session);
                assert(session_ref_views(out@) =~= session_ref_views(before).push(session@));
            }
            proof {
                assert(all.take(i + 1) =~= all.take(i as int).push(session@));
                if let Some(query) = self@.search_query {
                    all.take(i as int).lemma_filter_push(session@, found_by(query));
                }
            }
            i = i + 1;
        }
        assert(all.take(i as int) =~= all);
        out
    }

    /// How many sessions pass the filter.
    pub fn visible_session_count(&self) -> (r: usize)
        ensures
            r == self@.visible().len(),
    {
        self.visible_sessions().len()
    }

    /// Starts typing a new query.
    pub fn start_search(&mut self)
        ensures
            final(self)@ == old(self)@.search_started(),
    {
        self.search_query = Some(String::new());
        self.editing_search = true;
        self.selected_index = 0;
    }

    /// Adds a character to the query, if there is one.
    pub fn push_search_char(&mut self, ch: char)
        ensures
            final(self)@ == old(self)@.typed(ch),
    {
        if let Some(query) = &mut self.search_query {
            query.push(ch);
            self.selected_index = 0;
        }
    }

    /// Takes the last character off the query, if there is one.
    pub fn pop_search_char(&mut self)
        ensures
            final(self)@ == old(self)@.erased(),
    {
        if let Some(query) = &mut self.search_query {
            query.pop();
            self.selected_index = 0;
        }
    }

    /// Drops the query and shows every session again.
    pub fn clear_search(&mut self)
        ensures
            final(self)@ == old(self)@.search_cleared(),
    {
        self.search_query = None;
        self.editing_search = false;
        self.selected_index = 0;
    }

    /// Leaves text-entry but keeps the query as an applied filter: vim mode's
    /// Esc-while-searching, so hjkl navigates the filtered results instead of discarding them.
    pub fn stop_editing_search(&mut self)
        ensures
            final(self)@ == old(self)@.search_kept(),
    {
        self.editing_search = false;
    }

    /// Whether keystrokes should be treated as search text-entry right now. In vim mode this is
    /// `false` while a filter is applied but not being edited; in default mode, which has no
    /// normal-mode navigation to drop into and so never calls
    /// [`stop_editing_search`](App::stop_editing_search), it always matches whether there is a
    /// query.
    pub fn is_searching(&self) -> (r: bool)
        ensures
            r == self@.editing_search,
    {
        self.editing_search
    }

    /// The query, if there is one.
    pub fn search_text(&self) -> (r: Option<&str>)
        ensures
            text::opt_str(r) == self@.search_query,
    {
        match &self.search_query {
            Some(query) => Some(query.as_str()),
            None => None,
        }
    }

    /// Shows `sessions` in place of the sessions so far; the cursor stays on the session that it
    /// was on, if that is still shown.
    pub fn replace_sessions(&mut self, sessions: Vec<Session>)
        ensures
            final(self)@ == old(self)@.with_sessions(session_views(sessions@)),
    {
        let selected_name: Option<String> = match self.selected_session() {
            Some(session) => Some(session.name.clone()),
            None => None,
        };
        self.sessions = sessions;
        let visible = self.visible_sessions();
        let count: usize = visible.len();
        if count == 0 {
            self.selected_index = 0;
            return;
        }
        let followed: Option<usize> = match &selected_name {
            Some(name) => position_of_ref(&visible, name.as_str()),
            None => None,
        };
        match followed {
            Some(i) => {
                self.selected_index = i;
            },
            None => {
                if self.selected_index >= count {
                    self.selected_index = count - 1;
                }
            },
        }
    }

    /// Shows `sessions` in place of the sessions so far, but the session with the id
    /// `preserved_session_id` keeps the preview it has.
    pub fn replace_sessions_preserving_preview_for(
        &mut self,
        sessions: Vec<Session>,
        preserved_session_id: Option<&str>,
    )
        ensures
            final(self)@ == old(self)@.with_sessions(
                keep_preview(
                    old(self)@.sessions,
                    session_views(sessions@),
                    text::opt_str(preserved_session_id),
                ),
            ),
    {
        let mut sessions = sessions;
        let ghost fresh = sessions@;
        if let Some(id) = preserved_session_id {
            if let Some(i) = position_by_id(self.sessions.as_slice(), id) {
                if let Some(j) = position_by_id(sessions.as_slice(), id) {
                    proof {
                        seqs::lemma_first_index(session_views(self.sessions@), identified(id@));
                        seqs::lemma_first_index(session_views(sessions@), identified(id@));
                    }
                    sessions[j].preview = self.sessions[i].preview.clone();
                    sessions[j].preview_error = self.sessions[i].preview_error.clone();
                    proof {
                        assert(text::texts(sessions@[j as int].preview@) =~= text::texts(
                            self.sessions@[i as int].preview@,
                        ));
                        assert(session_views(sessions@) =~= keep_preview(
                            self@.sessions,
                            session_views(fresh),
                            Some(id@),
                        ));
                    }
                }
            }
        }
        self.replace_sessions(sessions);
    }

    /// Moves the cursor one card to the left, unless it is on the first card.
    pub fn move_left(&mut self)
        ensures
            final(self)@ == old(self)@.moved_left(),
    {
        if self.selected_index > 0 {
            self.selected_index = self.selected_index - 1;
        }
    }

    /// Moves the cursor one card to the right, unless it is on the last card.
    pub fn move_right(&mut self)
        requires
            old(self)@.selected_index < usize::MAX,
        ensures
            final(self)@ == old(self)@.moved_right(),
    {
        if self.selected_index + 1 < self.visible_session_count() {
            self.selected_index = self.selected_index + 1;
        }
    }

    /// Moves the cursor one row up in a grid of `columns` columns, unless it is in the first row.
    pub fn move_up(&mut self, columns: usize)
        ensures
            final(self)@ == old(self)@.moved_up(columns as nat),
    {
        let columns: usize = if columns == 0 {
            1
        } else {
            columns
        };
        if self.selected_index >= columns {
            self.selected_index = self.selected_index - columns;
        }
    }

    /// Moves the cursor one row down in a grid of `columns` columns, to the last card where the
    /// next row is too short, unless it is in the last row.
    pub fn move_down(&mut self, columns: usize)
        ensures
            final(self)@ == old(self)@.moved_down(columns as nat),
    {
        let columns: usize = if columns == 0 {
            1
        } else {
            columns
        };
        let visible_count: usize = self.visible_session_count();
        if visible_count == 0 {
            return;
        }
        let last_index: usize = visible_count - 1;
        let current_row: usize = self.selected_index / columns;
        let last_row: usize = last_index / columns;
        if current_row < last_row {
            let below: usize = self.selected_index.saturating_add(columns);
            self.selected_index = if below < last_index {
                below
            } else {
                last_index
            };
        }
    }
}

/// The position of the first session named `name`.
fn position_of_ref(sessions: &Vec<&Session>, name: &str) -> (r: Option<usize>)
    ensures
        match r {
            Some(i) => seqs::first_index(session_ref_views(sessions@), named(name@)) == Some(
                i as int,
            ) && i < sessions@.len(),
            None => seqs::first_index(session_ref_views(sessions@), named(name@)) is None,
        },
{
    let mut i: usize = 0;
    while i < sessions.len()
        invariant
            i <= sessions@.len(),
            forall|j: int| 0 <= j < i ==> session_ref_views(sessions@)[j].name != name@,
        decreases sessions@.len() - i,
    {
        if *sessions[i].name.as_str() == *name {
            proof {
                seqs::lemma_first_index_is(session_ref_views(sessions@), named(name@), i as int);
            }
            return Some(i);
        }
        i = i + 1;
    }
    proof {
        seqs::lemma_first_index_none(session_ref_views(sessions@), named(name@));
    }
    None
}

} // verus!
