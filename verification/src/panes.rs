//! The agent statuses that panes report, and the badge that a session gets from its panes.
use vstd::hash_map::StringHashMap;
use vstd::prelude::*;

use crate::model;
use crate::model::{AgentPaneCounts, AgentStatus, Session, SessionView};
use crate::seqs;
use crate::text;
use crate::tmux::FIELD_SEPARATOR;

verus! {

/// What a pane reports: the id of its session, its status and since when it holds it.
pub type PaneRow = (String, Option<AgentStatus>, Option<i64>);

/// What a [`PaneRow`] holds, with the id as a sequence of characters.
#[verifier::ext_equal]
pub struct PaneRowView {
    pub id: Seq<char>,
    pub status: Option<AgentStatus>,
    pub since: Option<i64>,
}

/// The contents of a row.
pub open spec fn row_view(row: PaneRow) -> PaneRowView {
    PaneRowView { id: row.0@, status: row.1, since: row.2 }
}

/// The contents of each row.
pub open spec fn row_views(rows: Seq<PaneRow>) -> Seq<PaneRowView> {
    Seq::new(rows.len(), |i: int| row_view(rows[i]))
}

/// The row that a line tells of. A line without a session id tells of none. Status and
/// timestamp are read independently: one that cannot be read leaves the other intact.
pub open spec fn row_of_line(line: Seq<char>) -> Option<PaneRowView> {
    let f = text::fields(line, FIELD_SEPARATOR, 3);
    if f[0].len() == 0 {
        None
    } else {
        Some(
            PaneRowView {
                id: f[0],
                status: if f.len() > 1 {
                    AgentStatus::of_word(f[1])
                } else {
                    None
                },
                since: if f.len() > 2 {
                    text::signed_number(f[2])
                } else {
                    None
                },
            },
        )
    }
}

/// `row_of_line` as a value.
pub open spec fn row_reader() -> spec_fn(Seq<char>) -> Option<PaneRowView> {
    |line: Seq<char>| row_of_line(line)
}

/// The rows that a pane listing tells of, in the order of its lines.
pub open spec fn listed_rows(output: Seq<char>) -> Seq<PaneRowView> {
    text::lines(output).filter_map(row_reader())
}

/// Reads one line of a pane listing.
fn parse_pane_line(line: &str) -> (r: Option<PaneRow>)
    ensures
        match r {
            Some(row) => row_of_line(line@) == Some(row_view(row)),
            None => row_of_line(line@) is None,
        },
{
    let parts = text::split_fields(line, FIELD_SEPARATOR, 3);
    let ghost f = text::fields(line@, FIELD_SEPARATOR, 3);
    assert(f.len() >= 1);
    assert(forall|i: int| 0 <= i < parts@.len() ==> f[i] == (#[trigger] parts@[i])@);
    if parts[0].as_str().is_empty() {
        return None;
    }
    let status: Option<AgentStatus> = if parts.len() > 1 {
        AgentStatus::parse(parts[1].as_str())
    } else {
        None
    };
    let since: Option<i64> = if parts.len() > 2 {
        text::parse_i64(parts[2].as_str())
    } else {
        None
    };
    Some((parts[0].clone(), status, since))
}

/// Reads a pane listing; lines without a session id are passed over.
pub fn parse_pane_agent_rows(output: &str) -> (r: Vec<PaneRow>)
    ensures
        row_views(r@) == listed_rows(output@),
{
    let lines = text::split_lines(output);
    let ghost all = text::lines(output@);
    let mut rows: Vec<PaneRow> = Vec::new();
    let mut i: usize = 0;
    proof {
        assert(all.take(0) =~= Seq::<Seq<char>>::empty());
        assert(row_views(rows@) =~= all.take(0).filter_map(row_reader()));
    }
    while i < lines.len()
        invariant
            i <= lines@.len(),
            text::texts(lines@) == all,
            row_views(rows@) == all.take(i as int).filter_map(row_reader()),
        decreases lines@.len() - i,
    {
        proof {
            all.lemma_filter_map_take_succ(row_reader(), i as int);
            assert(all[i as int] == lines@[i as int]@);
        }
        let ghost before = rows@;
        match parse_pane_line(lines[i].as_str()) {
            Some(row) => {
                rows.push(row);
                assert(row_views(rows@) =~= row_views(before).push(row_view(row)));
            },
            None => {},
        }
        assert(row_views(rows@) =~= all.take(i + 1).filter_map(row_reader()));
        i = i + 1;
    }
    assert(all.take(i as int) =~= all);
    rows
}

/// Pane listings one after the other tell of the rows of the first and then of those of the second,
/// where the first is empty or ends in a line feed.
pub proof fn law_pane_listings_in_turn(a: Seq<char>, b: Seq<char>)
    requires
        a.len() == 0 || a.last() == '\n',
    ensures
        listed_rows(a + b) == listed_rows(a) + listed_rows(b),
{
    text::law_lines_of_texts_in_turn(a, b);
    seqs::lemma_filter_map_add(text::lines(a), text::lines(b), row_reader());
}

/// The older of two timestamps, where an absent one does not count.
pub open spec fn older(a: Option<i64>, b: Option<i64>) -> Option<i64> {
    match (a, b) {
        (Some(x), Some(y)) => Some(
            if y < x {
                y
            } else {
                x
            },
        ),
        (Some(x), None) => Some(x),
        (None, b) => b,
    }
}

/// Keeps in `slot` the older of the timestamp there and `candidate`.
pub fn merge_oldest(slot: &mut Option<i64>, candidate: Option<i64>)
    ensures
        *final(slot) == older(*old(slot), candidate),
{
    match (*slot, candidate) {
        (None, candidate) => {
            *slot = candidate;
        },
        (Some(current), Some(candidate)) => {
            if candidate < current {
                *slot = Some(candidate);
            }
        },
        _ => {},
    }
}

/// The predicate of reporting `status` for the session `id`.
pub open spec fn reports(id: Seq<char>, status: AgentStatus) -> spec_fn(PaneRowView) -> bool {
    |row: PaneRowView| row.id == id && row.status == Some(status)
}

/// How many panes report `status` for the session `id`.
pub open spec fn pane_count(rows: Seq<PaneRowView>, id: Seq<char>, status: AgentStatus) -> nat {
    rows.filter(reports(id, status)).len()
}

/// The oldest timestamp of `rows`.
pub open spec fn oldest(rows: Seq<PaneRowView>) -> Option<i64>
    decreases rows.len(),
{
    if rows.len() == 0 {
        None
    } else {
        older(oldest(rows.drop_last()), rows.last().since)
    }
}

/// Since when the longest-waiting of the panes that report `status` for the session `id` holds
/// it.
pub open spec fn oldest_since(
    rows: Seq<PaneRowView>,
    id: Seq<char>,
    status: AgentStatus,
) -> Option<i64> {
    oldest(rows.filter(reports(id, status)))
}

/// The worst status that a pane reports for the session `id`.
pub open spec fn worst_status(rows: Seq<PaneRowView>, id: Seq<char>) -> Option<AgentStatus> {
    if pane_count(rows, id, AgentStatus::Attention) > 0 {
        Some(AgentStatus::Attention)
    } else if pane_count(rows, id, AgentStatus::Waiting) > 0 {
        Some(AgentStatus::Waiting)
    } else if pane_count(rows, id, AgentStatus::Working) > 0 {
        Some(AgentStatus::Working)
    } else {
        None
    }
}

/// Folds a session's panes down to one badge: the worst status present, and how long the oldest
/// pane at that status has held it.
#[derive(Debug, Clone, Copy, PartialEq, Eq, Structural)]
pub struct AgentAggregate {
    pub counts: AgentPaneCounts,
    pub attention_since: Option<i64>,
    pub waiting_since: Option<i64>,
    pub working_since: Option<i64>,
}

impl AgentAggregate {
    /// The aggregate of no panes.
    pub open spec fn zero() -> AgentAggregate {
        AgentAggregate {
            counts: AgentPaneCounts::zero(),
            attention_since: None,
            waiting_since: None,
            working_since: None,
        }
    }

    /// The aggregate of the panes that `rows` report for the session `id`.
    pub open spec fn of(rows: Seq<PaneRowView>, id: Seq<char>) -> AgentAggregate {
        AgentAggregate {
            counts: AgentPaneCounts {
                working: pane_count(rows, id, AgentStatus::Working) as u32,
                waiting: pane_count(rows, id, AgentStatus::Waiting) as u32,
                attention: pane_count(rows, id, AgentStatus::Attention) as u32,
            },
            attention_since: oldest_since(rows, id, AgentStatus::Attention),
            waiting_since: oldest_since(rows, id, AgentStatus::Waiting),
            working_since: oldest_since(rows, id, AgentStatus::Working),
        }
    }

    /// The aggregate with one more pane.
    pub open spec fn recorded(self, status: AgentStatus, since: Option<i64>) -> AgentAggregate {
        match status {
            AgentStatus::Attention => AgentAggregate {
                counts: AgentPaneCounts {
                    attention: (self.counts.attention + 1) as u32,
                    ..self.counts
                },
                attention_since: older(self.attention_since, since),
                ..self
            },
            AgentStatus::Waiting => AgentAggregate {
                counts: AgentPaneCounts {
                    waiting: (self.counts.waiting + 1) as u32,
                    ..self.counts
                },
                waiting_since: older(self.waiting_since, since),
                ..self
            },
            AgentStatus::Working => AgentAggregate {
                counts: AgentPaneCounts {
                    working: (self.counts.working + 1) as u32,
                    ..self.counts
                },
                working_since: older(self.working_since, since),
                ..self
            },
        }
    }

    /// The worst status present, with the oldest timestamp at that status.
    pub open spec fn badge(self) -> Option<(AgentStatus, Option<i64>)> {
        if self.counts.attention > 0 {
            Some((AgentStatus::Attention, self.attention_since))
        } else if self.counts.waiting > 0 {
            Some((AgentStatus::Waiting, self.waiting_since))
        } else if self.counts.working > 0 {
            Some((AgentStatus::Working, self.working_since))
        } else {
            None
        }
    }

    /// Adds a pane.
    pub fn record(&mut self, status: AgentStatus, since: Option<i64>)
        requires
            old(self).counts.at(status) < u32::MAX,
        ensures
            *final(self) == old(self).recorded(status, since),
    {
        match status {
            AgentStatus::Attention => {
                self.counts.attention = self.counts.attention + 1;
                merge_oldest(&mut self.attention_since, since);
            },
            AgentStatus::Waiting => {
                self.counts.waiting = self.counts.waiting + 1;
                merge_oldest(&mut self.waiting_since, since);
            },
            AgentStatus::Working => {
                self.counts.working = self.counts.working + 1;
                merge_oldest(&mut self.working_since, since);
            },
        }
    }

    /// The worst status present, with the oldest timestamp at that status.
    pub fn worst(&self) -> (r: Option<(AgentStatus, Option<i64>)>)
        ensures
            r == self.badge(),
    {
        if self.counts.attention > 0 {
            Some((AgentStatus::Attention, self.attention_since))
        } else if self.counts.waiting > 0 {
            Some((AgentStatus::Waiting, self.waiting_since))
        } else if self.counts.working > 0 {
            Some((AgentStatus::Working, self.working_since))
        } else {
            None
        }
    }
}

impl Default for AgentAggregate {
    fn default() -> (r: Self)
        ensures
            r == AgentAggregate::zero(),
    {
        AgentAggregate {
            counts: AgentPaneCounts::default(),
            attention_since: None,
            waiting_since: None,
            working_since: None,
        }
    }
}

/// A session with the badge that `rows` give it. A session for which no pane reports a status
/// stays as it is.
pub open spec fn badged(session: SessionView, rows: Seq<PaneRowView>) -> SessionView {
    match worst_status(rows, session.id) {
        Some(status) => SessionView {
            agent_pane_counts: AgentAggregate::of(rows, session.id).counts,
            agent_status: Some(status),
            agent_status_since: oldest_since(rows, session.id, status),
            ..session
        },
        None => session,
    }
}

/// The sessions, each with the badge that `rows` give it.
pub open spec fn all_badged(
    sessions: Seq<SessionView>,
    rows: Seq<PaneRowView>,
) -> Seq<SessionView> {
    Seq::new(sessions.len(), |i: int| badged(sessions[i], rows))
}

/// Whether the panes of every session can be counted.
pub open spec fn countable(rows: Seq<PaneRowView>) -> bool {
    forall|id: Seq<char>, status: AgentStatus| #[trigger]
        pane_count(rows, id, status) <= u32::MAX
}

/// One more row adds to the count and the timestamp that it reports for, and to no other.
proof fn lemma_one_more_row(rows: Seq<PaneRowView>, row: PaneRowView)
    ensures
        forall|id: Seq<char>, status: AgentStatus| #[trigger]
            pane_count(rows.push(row), id, status) == pane_count(rows, id, status) + (if row.id
                == id && row.status == Some(status) {
                1int
            } else {
                0int
            }),
        forall|id: Seq<char>, status: AgentStatus| #[trigger]
            oldest_since(rows.push(row), id, status) == (if row.id == id && row.status == Some(
                status,
            ) {
                older(oldest_since(rows, id, status), row.since)
            } else {
                oldest_since(rows, id, status)
            }),
{
    let more = rows.push(row);
    assert forall|id: Seq<char>, status: AgentStatus| #[trigger]
        pane_count(more, id, status) == pane_count(rows, id, status) + (if row.id == id
            && row.status == Some(status) {
            1int
        } else {
            0int
        }) by {
        rows.lemma_filter_push(row, reports(id, status));
    }
    assert forall|id: Seq<char>, status: AgentStatus| #[trigger]
        oldest_since(more, id, status) == (if row.id == id && row.status == Some(status) {
            older(oldest_since(rows, id, status), row.since)
        } else {
            oldest_since(rows, id, status)
        }) by {
        let p = reports(id, status);
        rows.lemma_filter_push(row, p);
        if p(row) {
            assert(rows.filter(p).push(row).drop_last() =~= rows.filter(p));
        }
    }
}

/// One more row adds to the aggregate of its session.
proof fn lemma_one_more_aggregated(rows: Seq<PaneRowView>, row: PaneRowView, id: Seq<char>)
    requires
        countable(rows.push(row)),
    ensures
        AgentAggregate::of(rows.push(row), id) == (match row.status {
            Some(status) => if row.id == id {
                AgentAggregate::of(rows, id).recorded(status, row.since)
            } else {
                AgentAggregate::of(rows, id)
            },
            None => AgentAggregate::of(rows, id),
        }),
{
    let more = rows.push(row);
    lemma_one_more_row(rows, row);
    assert(pane_count(more, id, AgentStatus::Attention) <= u32::MAX);
    assert(pane_count(more, id, AgentStatus::Waiting) <= u32::MAX);
    assert(pane_count(more, id, AgentStatus::Working) <= u32::MAX);
    let whole = AgentAggregate::of(more, id);
    assert(whole.attention_since == oldest_since(more, id, AgentStatus::Attention));
    assert(whole.waiting_since == oldest_since(more, id, AgentStatus::Waiting));
    assert(whole.working_since == oldest_since(more, id, AgentStatus::Working));
}

/// The first rows report no more panes than all rows do.
proof fn lemma_prefix_count(rows: Seq<PaneRowView>, n: int, id: Seq<char>, status: AgentStatus)
    requires
        0 <= n <= rows.len(),
    ensures
        pane_count(rows.take(n), id, status) <= pane_count(rows, id, status),
{
    assert(rows =~= rows.take(n) + rows.skip(n));
    Seq::filter_distributes_over_add(rows.take(n), rows.skip(n), reports(id, status));
}

/// Whether `by_session` holds the aggregate of each session that `rows` report a status for,
/// and of no other.
pub open spec fn aggregates(
    by_session: Map<Seq<char>, AgentAggregate>,
    rows: Seq<PaneRowView>,
) -> bool {
    &&& forall|id: Seq<char>| #[trigger]
        by_session.contains_key(id) <==> worst_status(rows, id) is Some
    &&& forall|id: Seq<char>| #[trigger]
        by_session.contains_key(id) ==> by_session[id] == AgentAggregate::of(rows, id)
}

/// The aggregate of each session that a pane reports a status for, if the panes can be counted.
fn aggregate_rows(rows: &[PaneRow]) -> (r: Option<StringHashMap<AgentAggregate>>)
    ensures
        match r {
            Some(by_session) => countable(row_views(rows@)) && aggregates(
                by_session@,
                row_views(rows@),
            ),
            None => !countable(row_views(rows@)),
        },
{
    let ghost all = row_views(rows@);
    let mut by_session: StringHashMap<AgentAggregate> = StringHashMap::new();
    let mut i: usize = 0;
    proof {
        assert forall|id: Seq<char>, status: AgentStatus| #[trigger]
            pane_count(all.take(0), id, status) == 0 by {
            all.take(0).lemma_filter_len(reports(id, status));
        }
    }
    while i < rows.len()
        invariant
            i <= rows@.len(),
            all == row_views(rows@),
            countable(all.take(i as int)),
            aggregates(by_session@, all.take(i as int)),
        decreases rows@.len() - i,
    {
        let row = &rows[i];
        let ghost before = by_session@;
        let ghost done = all.take(i as int);
        let ghost more = all.take(i + 1);
        proof {
            assert(more =~= done.push(row_view(*row)));
            lemma_one_more_row(done, row_view(*row));
        }
        if let Some(status) = row.1 {
            let mut aggregate: AgentAggregate = match by_session.get(row.0.as_str()) {
                Some(aggregate) => *aggregate,
                None => AgentAggregate::default(),
            };
            proof {
                if !before.contains_key(row.0@) {
                    lemma_unreported(done, row.0@);
                }
                assert(aggregate == AgentAggregate::of(done, row.0@));
            }
            let count: u32 = match status {
                AgentStatus::Attention => aggregate.counts.attention,
                AgentStatus::Waiting => aggregate.counts.waiting,
                AgentStatus::Working => aggregate.counts.working,
            };
            assert(count == pane_count(done, row.0@, status));
            if count == u32::MAX {
                proof {
                    lemma_prefix_count(all, i + 1, row.0@, status);
                    assert(pane_count(all, row.0@, status) > u32::MAX);
                }
                return None;
            }
            aggregate.record(status, row.2);
            by_session.insert(row.0.clone(), aggregate);
        }
        proof {
            assert(countable(more));
            assert forall|id: Seq<char>| #[trigger]
                by_session@.contains_key(id) <==> worst_status(more, id) is Some by {
                lemma_one_more_aggregated(done, row_view(*row), id);
                lemma_worst_is_badge(done, id);
                lemma_worst_is_badge(more, id);
                assert(before.contains_key(id) <==> worst_status(done, id) is Some);
            }
            assert forall|id: Seq<char>| #[trigger] by_session@.contains_key(id) implies by_session@[id]
                == AgentAggregate::of(more, id) by {
                lemma_one_more_aggregated(done, row_view(*row), id);
                if id != row.0@ || row.1 is None {
                    assert(before.contains_key(id));
                }
            }
        }
        i = i + 1;
    }
    assert(all.take(i as int) =~= all);
    Some(by_session)
}

/// The aggregate of a session that no pane reports a status for is that of no panes.
proof fn lemma_unreported(rows: Seq<PaneRowView>, id: Seq<char>)
    requires
        worst_status(rows, id) is None,
    ensures
        AgentAggregate::of(rows, id) == AgentAggregate::zero(),
{
    assert(pane_count(rows, id, AgentStatus::Attention) == 0);
    assert(pane_count(rows, id, AgentStatus::Waiting) == 0);
    assert(pane_count(rows, id, AgentStatus::Working) == 0);
}

/// The badge of a session's aggregate is its worst status with the oldest timestamp there.
proof fn lemma_worst_is_badge(rows: Seq<PaneRowView>, id: Seq<char>)
    requires
        forall|status: AgentStatus| #[trigger] pane_count(rows, id, status) <= u32::MAX,
    ensures
        AgentAggregate::of(rows, id).badge() == (match worst_status(rows, id) {
            Some(status) => Some((status, oldest_since(rows, id, status))),
            None => None,
        }),
{
    assert(pane_count(rows, id, AgentStatus::Attention) <= u32::MAX);
    assert(pane_count(rows, id, AgentStatus::Waiting) <= u32::MAX);
    assert(pane_count(rows, id, AgentStatus::Working) <= u32::MAX);
}

/// Gives each session the badge of its panes, if the panes can be counted; otherwise answers
/// `false` and leaves the sessions alone.
pub fn try_apply_agent_status(sessions: &mut [Session], rows: &[PaneRow]) -> (applied: bool)
    ensures
        applied == countable(row_views(rows@)),
        applied ==> model::session_views(final(sessions)@) == all_badged(
            model::session_views(old(sessions)@),
            row_views(rows@),
        ),
        !applied ==> final(sessions)@ == old(sessions)@,
{
    let ghost all = row_views(rows@);
    let ghost start = sessions@;
    let by_session = match aggregate_rows(rows) {
        Some(by_session) => by_session,
        None => {
            return false;
        },
    };
    let mut i: usize = 0;
    while i < sessions.len()
        invariant
            i <= sessions@.len() == start.len(),
            countable(all),
            aggregates(by_session@, all),
            forall|j: int| 0 <= j < i ==> (#[trigger] sessions@[j])@ == badged(start[j]@, all),
            forall|j: int| i <= j < sessions@.len() ==> #[trigger] sessions@[j] == start[j],
        decreases sessions@.len() - i,
    {
        let ghost before = sessions@;
        assert(before[i as int] == start[i as int]);
        if let Some(aggregate) = by_session.get(sessions[i].id.as_str()) {
            proof {
                lemma_worst_is_badge(all, before[i as int].id@);
            }
            if let Some((status, since)) = aggregate.worst() {
                sessions[i].agent_pane_counts = aggregate.counts;
                sessions[i].agent_status = Some(status);
                sessions[i].agent_status_since = since;
            }
            assert(sessions@[i as int]@ =~= badged(start[i as int]@, all));
        }
        i = i + 1;
    }
    assert(model::session_views(sessions@) =~= all_badged(model::session_views(start), all));
    true
}

/// Gives each session the badge of its panes.
pub fn apply_agent_status(sessions: &mut [Session], rows: &[PaneRow])
    requires
        countable(row_views(rows@)),
    ensures
        model::session_views(final(sessions)@) == all_badged(
            model::session_views(old(sessions)@),
            row_views(rows@),
        ),
{
    try_apply_agent_status(sessions, rows);
}

/// Rows that are no more than a count can hold can be counted.
pub proof fn law_few_rows_are_countable(rows: Seq<PaneRowView>)
    requires
        rows.len() <= u32::MAX,
    ensures
        countable(rows),
{
    assert forall|id: Seq<char>, status: AgentStatus| #[trigger]
        pane_count(rows, id, status) <= u32::MAX by {
        rows.lemma_filter_len(reports(id, status));
    }
}

/// A status is counted exactly when a pane reports it.
proof fn lemma_counted(rows: Seq<PaneRowView>, id: Seq<char>, status: AgentStatus)
    ensures
        pane_count(rows, id, status) > 0 <==> exists|i: int|
            0 <= i < rows.len() && (#[trigger] rows[i]).id == id && rows[i].status == Some(status),
{
    let p = reports(id, status);
    let kept = rows.filter(p);
    if kept.len() > 0 {
        assert(kept.contains(kept[0]));
        seqs::lemma_filter_holds(rows, p, kept[0]);
        let i = choose|i: int| 0 <= i < rows.len() && rows[i] == kept[0];
        assert(rows[i].id == id && rows[i].status == Some(status));
    }
    if exists|i: int|
        0 <= i < rows.len() && (#[trigger] rows[i]).id == id && rows[i].status == Some(status) {
        let i = choose|i: int|
            0 <= i < rows.len() && (#[trigger] rows[i]).id == id && rows[i].status == Some(status);
        assert(rows.contains(rows[i]));
        seqs::lemma_filter_holds(rows, p, rows[i]);
    }
}

/// A session's badge is the worst status that any of its panes reports, and a session without
/// such a pane has none.
pub proof fn law_badge_is_the_worst(rows: Seq<PaneRowView>, id: Seq<char>)
    ensures
        match worst_status(rows, id) {
            Some(worst) => {
                &&& exists|i: int|
                    0 <= i < rows.len() && (#[trigger] rows[i]).id == id && rows[i].status == Some(
                        worst,
                    )
                &&& forall|i: int|
                    0 <= i < rows.len() && (#[trigger] rows[i]).id == id && rows[i].status is Some
                        ==> rows[i].status->0.severity() <= worst.severity()
            },
            None => forall|i: int|
                0 <= i < rows.len() && (#[trigger] rows[i]).id == id ==> rows[i].status is None,
        },
{
    lemma_counted(rows, id, AgentStatus::Attention);
    lemma_counted(rows, id, AgentStatus::Waiting);
    lemma_counted(rows, id, AgentStatus::Working);
    assert forall|i: int|
        0 <= i < rows.len() && (#[trigger] rows[i]).id == id && rows[i].status is Some implies (
    match worst_status(rows, id) {
        Some(worst) => rows[i].status->0.severity() <= worst.severity(),
        None => false,
    }) by {
        match rows[i].status->0 {
            AgentStatus::Attention => {
                assert(rows[i].status == Some(AgentStatus::Attention));
            },
            AgentStatus::Waiting => {
                assert(rows[i].status == Some(AgentStatus::Waiting));
            },
            AgentStatus::Working => {
                assert(rows[i].status == Some(AgentStatus::Working));
            },
        }
    }
}

/// The oldest timestamp of some rows is the timestamp of one of them, none of them is older,
/// and it is there exactly when one of them has a timestamp.
pub proof fn law_oldest_is_the_least(rows: Seq<PaneRowView>)
    ensures
        match oldest(rows) {
            Some(t) => {
                &&& exists|i: int| 0 <= i < rows.len() && (#[trigger] rows[i]).since == Some(t)
                &&& forall|i: int|
                    0 <= i < rows.len() && (#[trigger] rows[i]).since is Some ==> t
                        <= rows[i].since->0
            },
            None => forall|i: int| 0 <= i < rows.len() ==> (#[trigger] rows[i]).since is None,
        },
    decreases rows.len(),
{
    if rows.len() > 0 {
        let rest = rows.drop_last();
        law_oldest_is_the_least(rest);
        let n = rows.len() - 1;
        assert forall|i: int| 0 <= i < n implies #[trigger] rows[i] == rest[i] by {}
        if let Some(t) = oldest(rows) {
            if rows[n].since != Some(t) {
                let i = choose|i: int| 0 <= i < rest.len() && (#[trigger] rest[i]).since == Some(t);
                assert(rows[i].since == Some(t));
            }
        }
    }
}

/// The badge's timestamp is that of the pane that has held the worst status longest.
pub proof fn law_badge_is_the_oldest(rows: Seq<PaneRowView>, id: Seq<char>, status: AgentStatus)
    ensures
        match oldest_since(rows, id, status) {
            Some(t) => {
                &&& exists|i: int|
                    0 <= i < rows.len() && reports(id, status)(#[trigger] rows[i])
                        && rows[i].since == Some(t)
                &&& forall|i: int|
                    0 <= i < rows.len() && reports(id, status)(#[trigger] rows[i])
                        && rows[i].since is Some ==> t <= rows[i].since->0
            },
            None => forall|i: int|
                0 <= i < rows.len() && reports(id, status)(#[trigger] rows[i]) ==> rows[i].since
                    is None,
        },
{
    let p = reports(id, status);
    let kept = rows.filter(p);
    law_oldest_is_the_least(kept);
    if let Some(t) = oldest(kept) {
        let k = choose|k: int| 0 <= k < kept.len() && (#[trigger] kept[k]).since == Some(t);
        assert(kept.contains(kept[k]));
        seqs::lemma_filter_holds(rows, p, kept[k]);
        let i = choose|i: int| 0 <= i < rows.len() && rows[i] == kept[k];
        assert(p(rows[i]) && rows[i].since == Some(t));
    }
    assert forall|i: int| 0 <= i < rows.len() && p(#[trigger] rows[i]) implies kept.contains(
        rows[i],
    ) by {
        assert(rows.contains(rows[i]));
        seqs::lemma_filter_holds(rows, p, rows[i]);
    }
}

/// The badge of a session depends on its own panes alone.
pub proof fn law_badge_of_own_panes(session: SessionView, rows: Seq<PaneRowView>)
    requires
        forall|i: int| 0 <= i < rows.len() ==> (#[trigger] rows[i]).id != session.id,
    ensures
        badged(session, rows) == session,
{
    law_badge_is_the_worst(rows, session.id);
}

/// The badge does not depend on the order in which tmux lists the panes.
pub proof fn law_badge_ignores_the_order(
    session: SessionView,
    rows: Seq<PaneRowView>,
    other: Seq<PaneRowView>,
)
    requires
        rows.to_multiset() == other.to_multiset(),
    ensures
        badged(session, rows) == badged(session, other),
{
    broadcast use vstd::seq_lib::group_to_multiset_ensures;

    let id = session.id;
    assert forall|status: AgentStatus| #[trigger]
        pane_count(rows, id, status) == pane_count(other, id, status) && oldest_since(
            rows,
            id,
            status,
        ) == oldest_since(other, id, status) by {
        let p = reports(id, status);
        seqs::lemma_filter_multiset(rows, p);
        seqs::lemma_filter_multiset(other, p);
        assert(rows.filter(p).len() == rows.filter(p).to_multiset().len());
        assert(other.filter(p).len() == other.filter(p).to_multiset().len());
        lemma_same_oldest(rows.filter(p), other.filter(p));
    }
    assert(pane_count(rows, id, AgentStatus::Attention) == pane_count(
        other,
        id,
        AgentStatus::Attention,
    ));
    assert(pane_count(rows, id, AgentStatus::Waiting) == pane_count(
        other,
        id,
        AgentStatus::Waiting,
    ));
    assert(pane_count(rows, id, AgentStatus::Working) == pane_count(
        other,
        id,
        AgentStatus::Working,
    ));
}

/// The same rows in another order have the same oldest timestamp.
proof fn lemma_same_oldest(rows: Seq<PaneRowView>, other: Seq<PaneRowView>)
    requires
        rows.to_multiset() == other.to_multiset(),
    ensures
        oldest(rows) == oldest(other),
{
    law_oldest_is_the_least(rows);
    law_oldest_is_the_least(other);
    assert forall|i: int| 0 <= i < rows.len() implies other.contains(#[trigger] rows[i]) by {
        vstd::seq_lib::to_multiset_contains(rows, rows[i]);
        vstd::seq_lib::to_multiset_contains(other, rows[i]);
        assert(rows.contains(rows[i]));
    }
    assert forall|i: int| 0 <= i < other.len() implies rows.contains(#[trigger] other[i]) by {
        vstd::seq_lib::to_multiset_contains(rows, other[i]);
        vstd::seq_lib::to_multiset_contains(other, other[i]);
        assert(other.contains(other[i]));
    }
    if let Some(t) = oldest(rows) {
        let i = choose|i: int| 0 <= i < rows.len() && (#[trigger] rows[i]).since == Some(t);
        let j = choose|j: int| 0 <= j < other.len() && other[j] == rows[i];
        assert(other[j].since == Some(t));
    }
    if let Some(t) = oldest(other) {
        let i = choose|i: int| 0 <= i < other.len() && (#[trigger] other[i]).since == Some(t);
        let j = choose|j: int| 0 <= j < rows.len() && rows[j] == other[i];
        assert(rows[j].since == Some(t));
    }
}

/// The predicate of reporting some status for the session `id`.
pub open spec fn reports_any(id: Seq<char>) -> spec_fn(PaneRowView) -> bool {
    |row: PaneRowView| row.id == id && row.status is Some
}

/// The counts of a session add up to the number of its panes that report a status.
pub proof fn law_counts_add_up(rows: Seq<PaneRowView>, id: Seq<char>)
    ensures
        pane_count(rows, id, AgentStatus::Working) + pane_count(rows, id, AgentStatus::Waiting)
            + pane_count(rows, id, AgentStatus::Attention) == rows.filter(reports_any(id)).len(),
        rows.filter(reports_any(id)).len() <= rows.len(),
    decreases rows.len(),
{
    rows.lemma_filter_len(reports_any(id));
    if rows.len() == 0 {
        rows.lemma_filter_len(reports(id, AgentStatus::Working));
        rows.lemma_filter_len(reports(id, AgentStatus::Waiting));
        rows.lemma_filter_len(reports(id, AgentStatus::Attention));
    } else {
        let rest = rows.drop_last();
        let row = rows.last();
        law_counts_add_up(rest, id);
        assert(rows =~= rest.push(row));
        rest.lemma_filter_push(row, reports_any(id));
        lemma_one_more_row(rest, row);
        assert(forall|status: AgentStatus| #[trigger]
            pane_count(rows, id, status) == pane_count(rest.push(row), id, status));
        if let Some(status) = row.status {
            match status {
                AgentStatus::Working => {},
                AgentStatus::Waiting => {},
                AgentStatus::Attention => {},
            }
        }
    }
}

} // verus!
