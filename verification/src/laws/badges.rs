//! The badge that a session gets from its panes.
use vstd::prelude::*;

use crate::model::{AgentPaneCounts, AgentStatus, SessionView};
use crate::panes;
use crate::panes::{AgentAggregate, PaneRowView};

verus! {

/// The counts of a badge say for each status how many panes of the session report it, where a
/// count can hold that many.
pub proof fn law_badge_counts_the_panes_at_each_status(
    session: SessionView,
    rows: Seq<PaneRowView>,
    i: int,
)
    requires
        0 <= i < rows.len(),
        rows[i].id == session.id,
        rows[i].status is Some,
        rows.len() <= u32::MAX,
    ensures
        ({
            let at = |status: AgentStatus|
                rows.filter(
                    |row: PaneRowView| row.id == session.id && row.status == Some(status),
                ).len();
            let counts = panes::badged(session, rows).agent_pane_counts;
            &&& counts.working == at(AgentStatus::Working)
            &&& counts.waiting == at(AgentStatus::Waiting)
            &&& counts.attention == at(AgentStatus::Attention)
        }),
{
    panes::law_few_rows_are_countable(rows);
    law_badge_counts_countable_panes(session, rows, i, AgentStatus::Working);
    law_badge_counts_countable_panes(session, rows, i, AgentStatus::Waiting);
    law_badge_counts_countable_panes(session, rows, i, AgentStatus::Attention);
}

/// The count of a badge at one status is the number of the session's panes that report it, where a
/// count can hold the number of panes at each status.
pub proof fn law_badge_counts_countable_panes(
    session: SessionView,
    rows: Seq<PaneRowView>,
    i: int,
    status: AgentStatus,
)
    requires
        0 <= i < rows.len(),
        rows[i].id == session.id,
        rows[i].status is Some,
        rows.filter(
            |row: PaneRowView| row.id == session.id && row.status == Some(status),
        ).len() <= u32::MAX,
    ensures
        ({
            let counts = panes::badged(session, rows).agent_pane_counts;
            let count = match status {
                AgentStatus::Working => counts.working,
                AgentStatus::Waiting => counts.waiting,
                AgentStatus::Attention => counts.attention,
            };
            &&& count == rows.filter(
                |row: PaneRowView| row.id == session.id && row.status == Some(status),
            ).len()
            &&& counts.at(status) == count
        }),
{
    panes::law_badge_is_the_worst(rows, session.id);
    assert(panes::reports(session.id, status)
        =~= |row: PaneRowView| row.id == session.id && row.status == Some(status));
}

/// A session one of whose panes reports a status gets the worst status that its panes report, with
/// the timestamp of the pane that has held that status longest; all else stays as it is.
pub proof fn law_badge_tells_the_worst_and_oldest(
    session: SessionView,
    rows: Seq<PaneRowView>,
    i: int,
)
    requires
        0 <= i < rows.len(),
        rows[i].id == session.id,
        rows[i].status is Some,
    ensures
        ({
            let badged = panes::badged(session, rows);
            &&& badged.agent_status is Some
            &&& exists|j: int|
                0 <= j < rows.len() && (#[trigger] rows[j]).id == session.id && rows[j].status
                    == badged.agent_status
            &&& match badged.agent_status->0 {
                AgentStatus::Attention => true,
                AgentStatus::Waiting => rows[i].status != Some(AgentStatus::Attention),
                AgentStatus::Working => rows[i].status == Some(AgentStatus::Working),
            }
            &&& rows[i].status == badged.agent_status && rows[i].since is Some
                ==> badged.agent_status_since is Some && badged.agent_status_since->0
                <= rows[i].since->0
            &&& badged.agent_status_since is Some ==> exists|j: int|
                0 <= j < rows.len() && (#[trigger] rows[j]).id == session.id && rows[j].status
                    == badged.agent_status && rows[j].since == badged.agent_status_since
            &&& badged.id == session.id && badged.name == session.name && badged.attached
                == session.attached && badged.window_count == session.window_count
            &&& badged.current_window == session.current_window && badged.last_activity
                == session.last_activity
            &&& badged.preview == session.preview && badged.preview_error == session.preview_error
        }),
{
    panes::law_badge_is_the_worst(rows, session.id);
    let badged = panes::badged(session, rows);
    let worst = badged.agent_status->0;
    panes::law_badge_is_the_oldest(rows, session.id, worst);
    if badged.agent_status_since is Some {
        let j = choose|j: int|
            0 <= j < rows.len() && panes::reports(session.id, worst)(#[trigger] rows[j])
                && rows[j].since == badged.agent_status_since;
        assert(rows[j].id == session.id && rows[j].status == badged.agent_status);
    }
    if rows[i].status == badged.agent_status {
        assert(panes::reports(session.id, worst)(rows[i]));
    }
}

/// A session for which no pane reports a status stays as it is.
pub proof fn law_no_status_no_badge(session: SessionView, rows: Seq<PaneRowView>)
    requires
        forall|i: int|
            0 <= i < rows.len() && (#[trigger] rows[i]).id == session.id ==> rows[i].status is None,
    ensures
        panes::badged(session, rows) == session,
{
    panes::law_badge_is_the_worst(rows, session.id);
}

/// Every session of a list gets its own badge, in its place.
pub proof fn law_each_session_gets_its_badge(
    sessions: Seq<SessionView>,
    rows: Seq<PaneRowView>,
    i: int,
)
    requires
        0 <= i < sessions.len(),
    ensures
        panes::all_badged(sessions, rows).len() == sessions.len(),
        panes::all_badged(sessions, rows)[i] == panes::badged(sessions[i], rows),
{
}

/// Where panes can be counted, no more of them report one status for one session than a count can
/// hold.
pub proof fn law_countable_panes(rows: Seq<PaneRowView>, id: Seq<char>, status: AgentStatus)
    requires
        panes::countable(rows),
    ensures
        rows.filter(|row: PaneRowView| row.id == id && row.status == Some(status)).len()
            <= u32::MAX,
{
    assert(panes::pane_count(rows, id, status) <= u32::MAX);
    assert(panes::reports(id, status)
        =~= |row: PaneRowView| row.id == id && row.status == Some(status));
}

/// Where panes cannot be counted, there are a session and a status that more of them report than a
/// count can hold.
pub proof fn law_uncountable_panes(rows: Seq<PaneRowView>) -> (r: (Seq<char>, AgentStatus))
    requires
        !panes::countable(rows),
    ensures
        rows.filter(|row: PaneRowView| row.id == r.0 && row.status == Some(r.1)).len() > u32::MAX,
{
    let (id, status) = choose|id: Seq<char>, status: AgentStatus| #[trigger]
        panes::pane_count(rows, id, status) > u32::MAX;
    assert(panes::reports(id, status)
        =~= |row: PaneRowView| row.id == id && row.status == Some(status));
    (id, status)
}

/// Of two timestamps the smaller is the older one; one that is absent does not count.
pub proof fn law_older(a: Option<i64>, b: Option<i64>)
    ensures
        match panes::older(a, b) {
            Some(t) => (a == Some(t) || b == Some(t)) && (a is Some ==> t <= a->0) && (b is Some
                ==> t <= b->0),
            None => a is None && b is None,
        },
{
}

/// One more pane counts one more at its status and at no other, and makes the timestamp at its
/// status no later.
pub proof fn law_recording_a_pane(
    aggregate: AgentAggregate,
    status: AgentStatus,
    since: Option<i64>,
)
    requires
        aggregate.counts.working < u32::MAX && aggregate.counts.waiting < u32::MAX
            && aggregate.counts.attention < u32::MAX,
    ensures
        ({
            let more = aggregate.recorded(status, since);
            let one = |s: AgentStatus|
                if s == status {
                    1int
                } else {
                    0int
                };
            let merged = |s: AgentStatus, t: Option<i64>|
                if s == status {
                    panes::older(t, since)
                } else {
                    t
                };
            &&& more.counts.working == aggregate.counts.working + one(AgentStatus::Working)
            &&& more.counts.waiting == aggregate.counts.waiting + one(AgentStatus::Waiting)
            &&& more.counts.attention == aggregate.counts.attention + one(AgentStatus::Attention)
            &&& more.working_since == merged(AgentStatus::Working, aggregate.working_since)
            &&& more.waiting_since == merged(AgentStatus::Waiting, aggregate.waiting_since)
            &&& more.attention_since == merged(AgentStatus::Attention, aggregate.attention_since)
        }),
{
}

/// The badge of an aggregate is the worst status it counts a pane at, with the timestamp there;
/// the aggregate of no panes counts none.
pub proof fn law_badge_of_an_aggregate(aggregate: AgentAggregate)
    ensures
        aggregate.badge() == (match (
            aggregate.counts.attention,
            aggregate.counts.waiting,
            aggregate.counts.working,
        ) {
            (0, 0, 0) => None,
            (0, 0, _) => Some((AgentStatus::Working, aggregate.working_since)),
            (0, _, _) => Some((AgentStatus::Waiting, aggregate.waiting_since)),
            _ => Some((AgentStatus::Attention, aggregate.attention_since)),
        }),
        ({
            let none = AgentAggregate::zero();
            &&& none.counts.working == 0 && none.counts.waiting == 0 && none.counts.attention == 0
            &&& none.working_since is None && none.waiting_since is None
                && none.attention_since is None
            &&& none.counts == AgentPaneCounts::zero()
        }),
{
}

} // verus!
