//! The order of the sessions in the grid, and the walk through those that need you.
use vstd::prelude::*;

use crate::model;
use crate::model::{AgentStatus, Session, SessionView};
use crate::seqs;
use crate::text;

verus! {

/// How urgently a session asks for you; a session without an agent does not at all.
pub open spec fn urgency(s: SessionView) -> int {
    match s.agent_status {
        Some(status) => status.severity(),
        None => 0,
    }
}

/// Whether a session has an agent and is the current one.
pub open spec fn tracked_current(s: SessionView, current: Option<Seq<char>>) -> bool {
    s.agent_status is Some && current == Some(s.name)
}

/// Since when a session holds its status; a session that does not tell counts as the latest.
pub open spec fn held_since(s: SessionView) -> int {
    match s.agent_status_since {
        Some(since) => since as int,
        None => i64::MAX as int,
    }
}

/// Whether `a` may stand before `b`: the more urgent session first, within an urgency the
/// current session last, and then the longest-waiting session first.
pub open spec fn no_later(a: SessionView, b: SessionView, current: Option<Seq<char>>) -> bool {
    if urgency(a) != urgency(b) {
        urgency(a) > urgency(b)
    } else if tracked_current(a, current) != tracked_current(b, current) {
        tracked_current(b, current)
    } else {
        held_since(a) <= held_since(b)
    }
}

/// The predicate of being ranked like `x`, neither before nor after it.
pub open spec fn ranked_like(x: SessionView, current: Option<Seq<char>>) -> spec_fn(
    SessionView,
) -> bool {
    |s: SessionView| no_later(s, x, current) && no_later(x, s, current)
}

/// Whether every session may stand before all those that follow it.
pub open spec fn in_order(s: Seq<SessionView>, current: Option<Seq<char>>) -> bool {
    forall|i: int, j: int|
        0 <= i <= j < s.len() ==> no_later(#[trigger] s[i], #[trigger] s[j], current)
}

/// `s` with `x` placed after the last session that may stand before it.
pub open spec fn placed(
    s: Seq<SessionView>,
    x: SessionView,
    current: Option<Seq<char>>,
) -> Seq<SessionView>
    decreases s.len(),
{
    if s.len() == 0 || no_later(s.last(), x, current) {
        s.push(x)
    } else {
        placed(s.drop_last(), x, current).push(s.last())
    }
}

/// The sessions of `s` in the order of the grid. Sessions of one rank keep the order they have
/// in `s`.
pub open spec fn arranged(s: Seq<SessionView>, current: Option<Seq<char>>) -> Seq<SessionView>
    decreases s.len(),
{
    if s.len() == 0 {
        s
    } else {
        placed(arranged(s.drop_last(), current), s.last(), current)
    }
}

proof fn lemma_placed(s: Seq<SessionView>, x: SessionView, current: Option<Seq<char>>)
    ensures
        placed(s, x, current).len() == s.len() + 1,
        placed(s, x, current).to_multiset() == s.to_multiset().insert(x),
        in_order(s, current) ==> in_order(placed(s, x, current), current),
        forall|i: int|
            0 <= i <= s.len() ==> (#[trigger] placed(s, x, current)[i] == x || s.contains(
                placed(s, x, current)[i],
            )),
    decreases s.len(),
{
    broadcast use vstd::seq_lib::group_to_multiset_ensures;

    let r = placed(s, x, current);
    if s.len() == 0 || no_later(s.last(), x, current) {
        assert forall|i: int| 0 <= i <= s.len() implies (#[trigger] r[i] == x || s.contains(
            r[i],
        )) by {
            if i < s.len() {
                assert(r[i] == s[i]);
            }
        }
        if in_order(s, current) {
            assert forall|i: int, j: int| 0 <= i <= j < r.len() implies no_later(
                #[trigger] r[i],
                #[trigger] r[j],
                current,
            ) by {
                if j == s.len() && i < j {
                    assert(no_later(s[i], s.last(), current));
                } else if j < s.len() {
                    assert(no_later(s[i], s[j], current));
                }
            }
        }
    } else {
        let t = s.drop_last();
        lemma_placed(t, x, current);
        let p = placed(t, x, current);
        assert(s =~= t.push(s.last()));
        assert(s.to_multiset() == t.to_multiset().insert(s.last()));
        assert(r.to_multiset() == p.to_multiset().insert(s.last()));
        assert(t.to_multiset().insert(x).insert(s.last()) =~= t.to_multiset().insert(
            s.last(),
        ).insert(x));
        assert forall|i: int| 0 <= i <= s.len() implies (#[trigger] r[i] == x || s.contains(
            r[i],
        )) by {
            if i < s.len() {
                assert(r[i] == p[i]);
                if p[i] != x {
                    assert(t.contains(p[i]));
                    let k = choose|k: int| 0 <= k < t.len() && t[k] == p[i];
                    assert(s[k] == p[i]);
                }
            } else {
                assert(r[i] == s[s.len() - 1]);
            }
        }
        if in_order(s, current) {
            assert(in_order(t, current)) by {
                assert forall|i: int, j: int| 0 <= i <= j < t.len() implies no_later(
                    #[trigger] t[i],
                    #[trigger] t[j],
                    current,
                ) by {
                    assert(no_later(s[i], s[j], current));
                }
            }
            assert forall|i: int, j: int| 0 <= i <= j < r.len() implies no_later(
                #[trigger] r[i],
                #[trigger] r[j],
                current,
            ) by {
                if j < p.len() {
                    assert(no_later(p[i], p[j], current));
                } else if i < p.len() {
                    assert(p[i] == x || t.contains(p[i]));
                    if p[i] != x {
                        let k = choose|k: int| 0 <= k < t.len() && t[k] == p[i];
                        assert(no_later(s[k], s[s.len() - 1], current));
                    }
                }
            }
        }
    }
}

/// The order of the grid: every session may stand before all those that follow it, and the
/// same sessions are there as before.
pub proof fn law_arranged_in_order(s: Seq<SessionView>, current: Option<Seq<char>>)
    ensures
        in_order(arranged(s, current), current),
        arranged(s, current).to_multiset() == s.to_multiset(),
        arranged(s, current).len() == s.len(),
    decreases s.len(),
{
    broadcast use vstd::seq_lib::group_to_multiset_ensures;

    if s.len() > 0 {
        law_arranged_in_order(s.drop_last(), current);
        lemma_placed(arranged(s.drop_last(), current), s.last(), current);
        assert(s =~= s.drop_last().push(s.last()));
    }
}

/// Whether the sessions that satisfy `p` are all of one rank.
pub open spec fn one_rank(p: spec_fn(SessionView) -> bool, current: Option<Seq<char>>) -> bool {
    forall|a: SessionView, b: SessionView|
        #[trigger] p(a) && #[trigger] p(b) ==> no_later(a, b, current)
}

proof fn lemma_placed_stable(
    s: Seq<SessionView>,
    x: SessionView,
    p: spec_fn(SessionView) -> bool,
    current: Option<Seq<char>>,
)
    requires
        one_rank(p, current),
    ensures
        placed(s, x, current).filter(p) == s.push(x).filter(p),
    decreases s.len(),
{
    if s.len() > 0 && !no_later(s.last(), x, current) {
        let t = s.drop_last();
        let last = s.last();
        lemma_placed_stable(t, x, p, current);
        assert(s =~= t.push(last));
        placed(t, x, current).lemma_filter_push(last, p);
        t.lemma_filter_push(x, p);
        t.lemma_filter_push(last, p);
        s.lemma_filter_push(x, p);
    }
}

/// The order of the grid is stable: sessions of one rank keep the order they came in.
pub proof fn law_arranged_stable(
    s: Seq<SessionView>,
    p: spec_fn(SessionView) -> bool,
    current: Option<Seq<char>>,
)
    requires
        one_rank(p, current),
    ensures
        arranged(s, current).filter(p) == s.filter(p),
    decreases s.len(),
{
    if s.len() > 0 {
        let t = s.drop_last();
        law_arranged_stable(t, p, current);
        lemma_placed_stable(arranged(t, current), s.last(), p, current);
        arranged(t, current).lemma_filter_push(s.last(), p);
        t.lemma_filter_push(s.last(), p);
        assert(s =~= t.push(s.last()));
    }
}

/// Whether `a` may stand before `b`.
fn may_precede(a: &Session, b: &Session, current: Option<&str>) -> (r: bool)
    ensures
        r == no_later(a@, b@, text::opt_str(current)),
{
    let rank_a: u8 = urgency_rank(a);
    let rank_b: u8 = urgency_rank(b);
    if rank_a != rank_b {
        return rank_a > rank_b;
    }
    let current_a = is_tracked_current(a, current);
    let current_b = is_tracked_current(b, current);
    if current_a != current_b {
        return current_b;
    }
    let since_a: i64 = match a.agent_status_since {
        Some(since) => since,
        None => i64::MAX,
    };
    let since_b: i64 = match b.agent_status_since {
        Some(since) => since,
        None => i64::MAX,
    };
    since_a <= since_b
}

/// How urgently a session asks for you.
fn urgency_rank(session: &Session) -> (r: u8)
    ensures
        r == urgency(session@),
{
    match session.agent_status {
        Some(status) => status.rank(),
        None => 0,
    }
}

/// Whether a session has an agent and is the current one.
fn is_tracked_current(session: &Session, current: Option<&str>) -> (r: bool)
    ensures
        r == tracked_current(session@, text::opt_str(current)),
{
    match current {
        Some(name) => session.agent_status.is_some() && *session.name.as_str() == *name,
        None => false,
    }
}

/// Exchanges the session at position `j` with the one before it.
fn swap_with_previous(sessions: &mut [Session], j: usize)
    requires
        0 < j < old(sessions)@.len(),
    ensures
        final(sessions)@ == old(sessions)@.update(j - 1, old(sessions)@[j as int]).update(
            j as int,
            old(sessions)@[j - 1],
        ),
{
    let (left, right) = sessions.split_at_mut(j);
    if let (Some(a), Some(b)) = (left.last_mut(), right.first_mut()) {
        std::mem::swap(a, b);
    }
}

/// Moves the session at position `i` to its place among those before it, which are in order
/// already.
fn settle(sessions: &mut [Session], i: usize, current: Option<&str>)
    requires
        i < old(sessions)@.len(),
    ensures
        final(sessions)@.len() == old(sessions)@.len(),
        final(sessions)@.skip(i + 1) == old(sessions)@.skip(i + 1),
        model::session_views(final(sessions)@.take(i + 1)) == placed(
            model::session_views(old(sessions)@.take(i as int)),
            old(sessions)@[i as int]@,
            text::opt_str(current),
        ),
{
    let ghost cur = text::opt_str(current);
    let ghost x = sessions@[i as int]@;
    let ghost p = model::session_views(sessions@.take(i as int));
    let ghost n = sessions@.len();
    let ghost start = sessions@;
    let mut j: usize = i;
    proof {
        assert(model::session_views(sessions@.take(i + 1)) =~= p.take(i as int).push(x) + p.skip(
            i as int,
        ));
        assert(p.take(i as int) =~= p);
        assert(placed(p, x, cur) =~= placed(p.take(i as int), x, cur) + p.skip(i as int));
    }
    while j > 0 && !may_precede(&sessions[j - 1], &sessions[j], current)
        invariant
            j <= i < n,
            sessions@.len() == n,
            p.len() == i,
            cur == text::opt_str(current),
            start.len() == n,
            sessions@.skip(i + 1) == start.skip(i + 1),
            model::session_views(sessions@.take(i + 1)) == p.take(j as int).push(x) + p.skip(
                j as int,
            ),
            placed(p, x, cur) == placed(p.take(j as int), x, cur) + p.skip(j as int),
        decreases j,
    {
        let ghost before = sessions@;
        let ghost views = model::session_views(before.take(i + 1));
        proof {
            assert(views[j as int] == x && views[j - 1] == p[j - 1]);
            assert(views[j as int] == before[j as int]@ && views[j - 1] == before[j - 1]@);
            assert(p.take(j as int).last() == p[j - 1]);
            assert(p.take(j as int).drop_last() =~= p.take(j - 1));
            assert(placed(p.take(j as int), x, cur) + p.skip(j as int) =~= placed(
                p.take(j - 1),
                x,
                cur,
            ) + p.skip(j - 1));
        }
        swap_with_previous(sessions, j);
        proof {
            assert(model::session_views(sessions@.take(i + 1)) =~= views.update(
                j - 1,
                x,
            ).update(j as int, p[j - 1]));
            assert(views.update(j - 1, x).update(j as int, p[j - 1]) =~= p.take(j - 1).push(x)
                + p.skip(j - 1));
            assert(sessions@.skip(i + 1) =~= before.skip(i + 1));
        }
        j = j - 1;
    }
    proof {
        if j > 0 {
            let views = model::session_views(sessions@.take(i + 1));
            assert(views[j as int] == x && views[j - 1] == p[j - 1]);
            assert(views[j as int] == sessions@[j as int]@ && views[j - 1] == sessions@[j - 1]@);
            assert(p.take(j as int).last() == p[j - 1]);
        }
        assert(placed(p.take(j as int), x, cur) == p.take(j as int).push(x));
    }
}

/// Reorders sessions so the ones an agent is waiting on you for lead the grid: `Attention`
/// first, then `Waiting`, then `Working`, then sessions with no agent at all. Within a rank, the
/// longest-waiting session (oldest `agent_status_since`) sorts first, so a neglected pane
/// doesn't get buried under one that only just finished. The current session sorts last within
/// its rank: you're already looking at it, so the other sessions at that urgency are the ones
/// worth surfacing. Stable, so untracked sessions keep tmux's own ordering relative to each
/// other.
pub fn sort_sessions_by_agent_status_with_current(
    sessions: &mut [Session],
    current_session_name: Option<&str>,
)
    ensures
        model::session_views(final(sessions)@) == arranged(
            model::session_views(old(sessions)@),
            text::opt_str(current_session_name),
        ),
        in_order(
            model::session_views(final(sessions)@),
            text::opt_str(current_session_name),
        ),
        model::session_views(final(sessions)@).to_multiset() == model::session_views(
            old(sessions)@,
        ).to_multiset(),
        forall|p: spec_fn(SessionView) -> bool|
            one_rank(p, text::opt_str(current_session_name)) ==> (
            #[trigger] model::session_views(final(sessions)@).filter(p)) == model::session_views(
                old(sessions)@,
            ).filter(p),
{
    let ghost start = sessions@;
    let ghost all = model::session_views(start);
    let ghost cur = text::opt_str(current_session_name);
    let mut i: usize = 0;
    proof {
        assert(model::session_views(sessions@.take(0)) =~= arranged(all.take(0), cur));
    }
    while i < sessions.len()
        invariant
            i <= sessions@.len() == start.len(),
            all == model::session_views(start),
            cur == text::opt_str(current_session_name),
            sessions@.skip(i as int) == start.skip(i as int),
            model::session_views(sessions@.take(i as int)) == arranged(all.take(i as int), cur),
        decreases sessions@.len() - i,
    {
        proof {
            assert(sessions@[i as int] == sessions@.skip(i as int)[0]);
            assert(start[i as int] == start.skip(i as int)[0]);
            assert(sessions@.skip(i as int).skip(1) =~= sessions@.skip(i + 1));
            assert(start.skip(i as int).skip(1) =~= start.skip(i + 1));
            assert(all.take(i + 1).drop_last() =~= all.take(i as int));
            assert(all.take(i + 1).last() == all[i as int]);
        }
        settle(sessions, i, current_session_name);
        i = i + 1;
    }
    proof {
        assert(sessions@.take(i as int) =~= sessions@);
        assert(all.take(i as int) =~= all);
        law_arranged_in_order(all, cur);
        assert forall|p: spec_fn(SessionView) -> bool| one_rank(p, cur) implies (
        #[trigger] model::session_views(sessions@).filter(p)) == all.filter(p) by {
            law_arranged_stable(all, p, cur);
        }
    }
}

/// Same ordering as [`sort_sessions_by_agent_status_with_current`], without a current-session
/// tiebreak.
pub fn sort_sessions_by_agent_status(sessions: &mut [Session])
    ensures
        model::session_views(final(sessions)@) == arranged(
            model::session_views(old(sessions)@),
            None,
        ),
{
    sort_sessions_by_agent_status_with_current(sessions, None);
}

/// The predicate of having an agent that is blocked on you or waiting for you.
pub open spec fn needs_you() -> spec_fn(SessionView) -> bool {
    |s: SessionView| s.urgent()
}

/// The sessions that need you, in the order of the grid.
pub open spec fn urgent_walk(sessions: Seq<SessionView>) -> Seq<SessionView> {
    arranged(sessions.filter(needs_you()), None)
}

/// The session that follows the current one in the walk through those that need you, wrapping
/// around; from a session that is not on the walk, the first one on it.
pub open spec fn follower(
    sessions: Seq<SessionView>,
    current: Option<Seq<char>>,
) -> Option<SessionView> {
    let walk = urgent_walk(sessions);
    let here = match current {
        Some(id) => seqs::first_index(walk, model::identified(id)),
        None => None,
    };
    match here {
        Some(i) => Some(walk[(i + 1) % (walk.len() as int)]),
        None => if walk.len() > 0 {
            Some(walk[0])
        } else {
            None
        },
    }
}

/// The session to jump to from the session with the id `current`: the first one that has the
/// follower's id, unless that is the current id.
pub open spec fn next_urgent(
    sessions: Seq<SessionView>,
    current: Option<Seq<char>>,
) -> Option<SessionView> {
    match follower(sessions, current) {
        Some(next) => if current == Some(next.id) {
            None
        } else {
            match seqs::first_index(sessions, model::identified(next.id)) {
                Some(k) => Some(sessions[k]),
                None => None,
            }
        },
        None => None,
    }
}

/// Whether `id` is the current id.
fn is_current(id: &str, current: Option<&str>) -> (r: bool)
    ensures
        r == (text::opt_str(current) == Some(id@)),
{
    match current {
        Some(current) => *current == *id,
        None => false,
    }
}

/// The sessions of `sessions` that need you, in the order they have there.
fn urgent_sessions(sessions: &[Session]) -> (r: Vec<Session>)
    ensures
        model::session_views(r@) == model::session_views(sessions@).filter(needs_you()),
{
    let ghost all = model::session_views(sessions@);
    let mut out: Vec<Session> = Vec::new();
    let mut i: usize = 0;
    proof {
        assert(all.take(0) =~= Seq::<SessionView>::empty());
        assert(all.take(0).filter(needs_you()) =~= Seq::<SessionView>::empty()) by {
            reveal(Seq::filter);
        }
        assert(model::session_views(out@) =~= Seq::<SessionView>::empty());
    }
    while i < sessions.len()
        invariant
            i <= sessions@.len(),
            all == model::session_views(sessions@),
            model::session_views(out@) == all.take(i as int).filter(needs_you()),
        decreases sessions@.len() - i,
    {
        let session = &sessions[i];
        let ghost before = out@;
        if session.is_urgent() {
            out.push(session.clone());
            assert(model::session_views(out@) =~= model::session_views(before).push(session@));
        }
        proof {
            assert(all.take(i + 1) =~= all.take(i as int).push(session@));
            all.take(i as int).lemma_filter_push(session@, needs_you());
        }
        i = i + 1;
    }
    assert(all.take(i as int) =~= all);
    out
}

/// Picks the session to jump to: the next one after the current session in priority order among
/// those whose agent is blocked on or waiting for you, wrapping around. Cycling (rather than
/// always taking the most urgent non-current session) matters because a session you just left
/// usually stays `waiting`: "most urgent" would bounce between the two oldest waiters and never
/// reach a third. Returns `None` when nothing else needs you.
pub fn next_urgent_session<'a>(
    sessions: &'a [Session],
    current_session_id: Option<&str>,
) -> (r: Option<&'a Session>)
    ensures
        match r {
            Some(session) => next_urgent(
                model::session_views(sessions@),
                text::opt_str(current_session_id),
            ) == Some(session@),
            None => next_urgent(
                model::session_views(sessions@),
                text::opt_str(current_session_id),
            ) is None,
        },
{
    let ghost all = model::session_views(sessions@);
    // No current-session tiebreak here: the current session has to keep its natural slot so
    // "the one after it" walks the whole list.
    let mut urgent = urgent_sessions(sessions);
    sort_sessions_by_agent_status(urgent.as_mut_slice());
    let ghost walk = urgent_walk(all);
    assert(model::session_views(urgent@) == walk);

    let here: Option<usize> = match current_session_id {
        Some(id) => model::position_by_id(urgent.as_slice(), id),
        None => None,
    };
    if urgent.len() == 0 {
        proof {
            if let Some(id) = text::opt_str(current_session_id) {
                seqs::lemma_first_index(walk, model::identified(id));
            }
        }
        return None;
    }
    let next: usize = match here {
        Some(index) => {
            proof {
                seqs::lemma_first_index(
                    walk,
                    model::identified(text::opt_str(current_session_id).unwrap()),
                );
            }
            (index + 1) % urgent.len()
        },
        None => 0,
    };
    assert(follower(all, text::opt_str(current_session_id)) == Some(urgent@[next as int]@));
    let next_id = urgent[next].id.as_str();
    if is_current(next_id, current_session_id) {
        return None;
    }
    proof {
        seqs::lemma_first_index(all, model::identified(next_id@));
    }
    match model::position_by_id(sessions, next_id) {
        Some(k) => Some(&sessions[k]),
        None => None,
    }
}

/// In the grid the more urgent session comes first: `Attention` before `Waiting` before
/// `Working` before no agent. Among sessions of one urgency the current one comes last, and
/// otherwise the one that has waited longest comes first.
pub proof fn law_grid_priority(
    s: Seq<SessionView>,
    current: Option<Seq<char>>,
    i: int,
    j: int,
)
    requires
        0 <= i < j < s.len(),
    ensures
        ({
            let a = arranged(s, current)[i];
            let b = arranged(s, current)[j];
            &&& urgency(a) >= urgency(b)
            &&& urgency(a) == urgency(b) && tracked_current(a, current) ==> tracked_current(
                b,
                current,
            )
            &&& urgency(a) == urgency(b) && tracked_current(a, current) == tracked_current(
                b,
                current,
            ) ==> held_since(a) <= held_since(b)
        }),
{
    law_arranged_in_order(s, current);
    assert(no_later(arranged(s, current)[i], arranged(s, current)[j], current));
}

/// The predicate of having no agent and no agent timestamp.
pub open spec fn untracked() -> spec_fn(SessionView) -> bool {
    |s: SessionView| s.agent_status is None && s.agent_status_since is None
}

/// Sessions with neither an agent nor an agent timestamp keep the order they came in, the current
/// one among them.
pub proof fn law_untracked_keep_their_order(s: Seq<SessionView>, current: Option<Seq<char>>)
    ensures
        arranged(s, current).filter(untracked()) == s.filter(untracked()),
{
    law_arranged_stable(s, untracked(), current);
}

/// A grid in order is left as it is.
pub proof fn law_arranged_settled(s: Seq<SessionView>, current: Option<Seq<char>>)
    requires
        in_order(s, current),
    ensures
        arranged(s, current) == s,
    decreases s.len(),
{
    if s.len() > 0 {
        let t = s.drop_last();
        assert forall|i: int, j: int| 0 <= i <= j < t.len() implies no_later(
            #[trigger] t[i],
            #[trigger] t[j],
            current,
        ) by {
            assert(no_later(s[i], s[j], current));
        }
        law_arranged_settled(t, current);
        if t.len() > 0 {
            assert(no_later(s[t.len() - 1], s[s.len() - 1], current));
        }
        assert(s =~= t.push(s.last()));
    }
}

/// Sorting a sorted grid again changes nothing.
pub proof fn law_arranged_idempotent(s: Seq<SessionView>, current: Option<Seq<char>>)
    ensures
        arranged(arranged(s, current), current) == arranged(s, current),
{
    law_arranged_in_order(s, current);
    law_arranged_settled(arranged(s, current), current);
}

/// Whether `s` and `t` hold the same sessions of each rank, in the same order within the rank.
pub open spec fn same_within_ranks(
    s: Seq<SessionView>,
    t: Seq<SessionView>,
    current: Option<Seq<char>>,
) -> bool {
    forall|x: SessionView|
        #![trigger ranked_like(x, current)]
        s.filter(ranked_like(x, current)) == t.filter(ranked_like(x, current))
}

proof fn lemma_filter_drop_last(s: Seq<SessionView>, p: spec_fn(SessionView) -> bool)
    requires
        s.len() > 0,
    ensures
        p(s.last()) ==> s.filter(p) == s.drop_last().filter(p).push(s.last()),
        !p(s.last()) ==> s.filter(p) == s.drop_last().filter(p),
{
    assert(s =~= s.drop_last().push(s.last()));
    s.drop_last().lemma_filter_push(s.last(), p);
}

/// There is only one way to put sessions in order and to keep the order within each rank.
pub proof fn law_order_is_unique(
    s: Seq<SessionView>,
    t: Seq<SessionView>,
    current: Option<Seq<char>>,
)
    requires
        in_order(s, current),
        in_order(t, current),
        same_within_ranks(s, t, current),
    ensures
        s == t,
    decreases s.len() + t.len(),
{
    if s.len() == 0 && t.len() == 0 {
        assert(s =~= t);
    } else if s.len() == 0 {
        let p = ranked_like(t.last(), current);
        lemma_filter_drop_last(t, p);
        s.lemma_filter_len(p);
        assert(s.filter(p) == t.filter(p));
    } else {
        let x = s.last();
        let p = ranked_like(x, current);
        assert(s.filter(p) == t.filter(p));
        lemma_filter_drop_last(s, p);
        assert(t.filter(p).len() > 0);
        t.lemma_filter_len(p);
        assert(t.len() > 0);
        let y = t.last();
        let q = ranked_like(y, current);
        lemma_filter_drop_last(t, q);
        assert(s.filter(q) == t.filter(q));
        assert(s.filter(q).len() > 0);
        let a = t.filter(p)[0];
        let b = s.filter(q)[0];
        assert(t.filter(p).contains(a));
        assert(s.filter(q).contains(b));
        seqs::lemma_filter_holds(t, p, a);
        seqs::lemma_filter_holds(s, q, b);
        assert(t.contains(a));
        assert(s.contains(b));
        let i = choose|i: int| 0 <= i < t.len() && t[i] == a;
        let j = choose|j: int| 0 <= j < s.len() && s[j] == b;
        assert(no_later(t[i], t[t.len() - 1], current));
        assert(no_later(s[j], s[s.len() - 1], current));
        assert(p(y));
        lemma_filter_drop_last(t, p);
        assert(s.filter(p).last() == x);
        assert(t.filter(p).last() == y);
        assert(x == y);
        let s1 = s.drop_last();
        let t1 = t.drop_last();
        assert forall|i: int, j: int| 0 <= i <= j < s1.len() implies no_later(
            #[trigger] s1[i],
            #[trigger] s1[j],
            current,
        ) by {
            assert(no_later(s[i], s[j], current));
        }
        assert forall|i: int, j: int| 0 <= i <= j < t1.len() implies no_later(
            #[trigger] t1[i],
            #[trigger] t1[j],
            current,
        ) by {
            assert(no_later(t[i], t[j], current));
        }
        assert forall|z: SessionView| s1.filter(#[trigger] ranked_like(z, current)) == t1.filter(
            ranked_like(z, current),
        ) by {
            let r = ranked_like(z, current);
            assert(s.filter(r) == t.filter(r));
            lemma_filter_drop_last(s, r);
            lemma_filter_drop_last(t, r);
            if r(x) {
                assert(s1.filter(r) =~= s.filter(r).drop_last());
                assert(t1.filter(r) =~= t.filter(r).drop_last());
            }
        }
        law_order_is_unique(s1, t1, current);
        assert(s =~= s1.push(x));
        assert(t =~= t1.push(x));
    }
}

/// The grid is the one way to put `s` in order that keeps the order within each rank.
pub proof fn law_arranged_is_the_stable_order(
    s: Seq<SessionView>,
    t: Seq<SessionView>,
    current: Option<Seq<char>>,
)
    ensures
        t == arranged(s, current) <==> in_order(t, current) && same_within_ranks(s, t, current),
{
    let r = arranged(s, current);
    law_arranged_in_order(s, current);
    assert forall|x: SessionView| s.filter(#[trigger] ranked_like(x, current)) == r.filter(
        ranked_like(x, current),
    ) by {
        law_arranged_stable(s, ranked_like(x, current), current);
    }
    if in_order(t, current) && same_within_ranks(s, t, current) {
        assert forall|x: SessionView| r.filter(#[trigger] ranked_like(x, current)) == t.filter(
            ranked_like(x, current),
        ) by {
            assert(s.filter(ranked_like(x, current)) == t.filter(ranked_like(x, current)));
        }
        law_order_is_unique(r, t, current);
    }
}

/// Whether no two sessions share an id.
pub open spec fn distinct_ids(s: Seq<SessionView>) -> bool {
    forall|i: int, j: int| 0 <= i < j < s.len() ==> (#[trigger] s[i]).id != (#[trigger] s[j]).id
}

/// A filter keeps ids distinct.
pub proof fn lemma_distinct_filter(s: Seq<SessionView>, p: spec_fn(SessionView) -> bool)
    requires
        distinct_ids(s),
    ensures
        distinct_ids(s.filter(p)),
    decreases s.len(),
{
    if s.len() == 0 {
        s.lemma_filter_len(p);
    } else {
        let t = s.drop_last();
        assert forall|i: int, j: int| 0 <= i < j < t.len() implies (#[trigger] t[i]).id != (
        #[trigger] t[j]).id by {
            assert(s[i].id != s[j].id);
        }
        lemma_distinct_filter(t, p);
        lemma_filter_drop_last(s, p);
        let f = s.filter(p);
        assert forall|i: int, j: int| 0 <= i < j < f.len() implies (#[trigger] f[i]).id != (
        #[trigger] f[j]).id by {
            let g = t.filter(p);
            assert(f[i] == g[i]);
            if p(s.last()) && j == f.len() - 1 {
                assert(g.contains(g[i]));
                seqs::lemma_filter_holds(t, p, g[i]);
                let k = choose|k: int| 0 <= k < t.len() && t[k] == g[i];
                assert(s[k].id != s[s.len() - 1].id);
            } else {
                assert(f[j] == g[j]);
            }
        }
    }
}

proof fn lemma_distinct_placed(s: Seq<SessionView>, x: SessionView, current: Option<Seq<char>>)
    requires
        distinct_ids(s.push(x)),
    ensures
        distinct_ids(placed(s, x, current)),
    decreases s.len(),
{
    if s.len() > 0 && !no_later(s.last(), x, current) {
        let t = s.drop_last();
        let w = s.push(x);
        let tx = t.push(x);
        assert forall|i: int, j: int| 0 <= i < j < tx.len() implies (#[trigger] tx[i]).id != (
        #[trigger] tx[j]).id by {
            let j2 = if j == t.len() {
                j + 1
            } else {
                j
            };
            assert(w[i].id != w[j2].id);
        }
        lemma_distinct_placed(t, x, current);
        lemma_placed(t, x, current);
        let p = placed(t, x, current);
        let r = p.push(s.last());
        assert forall|i: int, j: int| 0 <= i < j < r.len() implies (#[trigger] r[i]).id != (
        #[trigger] r[j]).id by {
            if j < p.len() {
                assert(p[i].id != p[j].id);
            } else if p[i] == x {
                assert(w[s.len() - 1].id != w[s.len() as int].id);
            } else {
                assert(t.contains(p[i]));
                let k = choose|k: int| 0 <= k < t.len() && t[k] == p[i];
                assert(w[k].id != w[s.len() - 1].id);
            }
        }
    }
}

proof fn lemma_arranged_holds(s: Seq<SessionView>, current: Option<Seq<char>>, x: SessionView)
    ensures
        arranged(s, current).contains(x) <==> s.contains(x),
{
    broadcast use vstd::seq_lib::group_to_multiset_ensures;

    law_arranged_in_order(s, current);
    vstd::seq_lib::to_multiset_contains(s, x);
    vstd::seq_lib::to_multiset_contains(arranged(s, current), x);
}

proof fn lemma_distinct_arranged(s: Seq<SessionView>, current: Option<Seq<char>>)
    requires
        distinct_ids(s),
    ensures
        distinct_ids(arranged(s, current)),
    decreases s.len(),
{
    if s.len() > 0 {
        let t = s.drop_last();
        assert forall|i: int, j: int| 0 <= i < j < t.len() implies (#[trigger] t[i]).id != (
        #[trigger] t[j]).id by {
            assert(s[i].id != s[j].id);
        }
        lemma_distinct_arranged(t, current);
        let a = arranged(t, current);
        let ax = a.push(s.last());
        assert forall|i: int, j: int| 0 <= i < j < ax.len() implies (#[trigger] ax[i]).id != (
        #[trigger] ax[j]).id by {
            if j == a.len() {
                assert(a.contains(a[i]));
                lemma_arranged_holds(t, current, a[i]);
                let k = choose|k: int| 0 <= k < t.len() && t[k] == a[i];
                assert(s[k].id != s[s.len() - 1].id);
            } else {
                assert(a[i].id != a[j].id);
            }
        }
        lemma_distinct_placed(a, s.last(), current);
    }
}

/// No two sessions on the walk share an id where no two sessions do.
pub proof fn lemma_distinct_walk(sessions: Seq<SessionView>)
    requires
        distinct_ids(sessions),
    ensures
        distinct_ids(urgent_walk(sessions)),
{
    lemma_distinct_filter(sessions, needs_you());
    lemma_distinct_arranged(sessions.filter(needs_you()), None);
}

/// The walk holds every session that needs you, and no other.
pub proof fn law_walk_holds_the_urgent(sessions: Seq<SessionView>, x: SessionView)
    ensures
        urgent_walk(sessions).contains(x) <==> sessions.contains(x) && x.urgent(),
{
    lemma_arranged_holds(sessions.filter(needs_you()), None, x);
    seqs::lemma_filter_holds(sessions, needs_you(), x);
}

/// The walk starts at the session that needs you most.
pub proof fn law_walk_starts_at_the_most_urgent(sessions: Seq<SessionView>, x: SessionView)
    requires
        sessions.contains(x),
        x.urgent(),
    ensures
        urgent_walk(sessions).len() > 0,
        no_later(urgent_walk(sessions)[0], x, None),
{
    let walk = urgent_walk(sessions);
    law_walk_holds_the_urgent(sessions, x);
    law_arranged_in_order(sessions.filter(needs_you()), None);
    let k = choose|k: int| 0 <= k < walk.len() && walk[k] == x;
    assert(no_later(walk[0], walk[k], None));
}

/// Among sessions that need you equally, the walk starts at the earliest in the list: no session
/// that ranks like the start of the walk stands before it.
pub proof fn law_walk_starts_at_the_earliest(sessions: Seq<SessionView>, i: int)
    requires
        0 <= i < sessions.len(),
        sessions[i].urgent(),
        ranked_like(urgent_walk(sessions)[0], None)(sessions[i]),
    ensures
        urgent_walk(sessions).len() > 0,
        sessions.take(i + 1).contains(urgent_walk(sessions)[0]),
{
    let walk = urgent_walk(sessions);
    let urgent = sessions.filter(needs_you());
    let p = ranked_like(walk[0], None);
    assert(sessions.contains(sessions[i]));
    law_walk_starts_at_the_most_urgent(sessions, sessions[i]);
    law_arranged_stable(urgent, p, None);

    walk.take(1).lemma_filter_monotone(walk, p);
    assert forall|j: int| 0 <= j < 1 implies p(#[trigger] walk.take(1)[j]) by {}
    seqs::lemma_filter_all(walk.take(1), p);
    assert(walk.filter(p)[0] == walk.take(1)[0]);

    let early = sessions.take(i + 1);
    let early_urgent = early.filter(needs_you());
    early.lemma_filter_monotone(sessions, needs_you());
    early_urgent.lemma_filter_monotone(urgent, p);
    assert(early[i] == sessions[i]);
    assert(early.contains(sessions[i]));
    seqs::lemma_filter_holds(early, needs_you(), sessions[i]);
    seqs::lemma_filter_holds(early_urgent, p, sessions[i]);
    let first = early_urgent.filter(p)[0];
    assert(urgent.filter(p)[0] == first);
    assert(early_urgent.filter(p).contains(first));
    seqs::lemma_filter_holds(early_urgent, p, first);
    seqs::lemma_filter_holds(early, needs_you(), first);
}

/// The session with the follower's id is the follower itself, where no two sessions share an id.
proof fn lemma_first_with_id(sessions: Seq<SessionView>, x: SessionView)
    requires
        distinct_ids(sessions),
        sessions.contains(x),
    ensures
        seqs::first_index(sessions, model::identified(x.id)) matches Some(k) && sessions[k] == x,
{
    seqs::lemma_first_index(sessions, model::identified(x.id));
    let i = choose|i: int| 0 <= i < sessions.len() && sessions[i] == x;
    match seqs::first_index(sessions, model::identified(x.id)) {
        Some(k) => {
            if k < i {
                assert(sessions[k].id != sessions[i].id);
            } else if i < k {
                assert(sessions[i].id != sessions[k].id);
            }
        },
        None => {},
    }
}

/// A jump always leads to one of the sessions, and never to the current one.
pub proof fn law_next_is_another_session(sessions: Seq<SessionView>, current: Option<Seq<char>>)
    ensures
        next_urgent(sessions, current) matches Some(next) ==> sessions.contains(next) && current
            != Some(next.id),
{
    if let Some(next) = follower(sessions, current) {
        seqs::lemma_first_index(sessions, model::identified(next.id));
    }
}

/// A jump leads to a session that needs you, and there is one exactly when a session other than
/// the current one needs you.
pub proof fn law_next_needs_you(sessions: Seq<SessionView>, current: Option<Seq<char>>)
    requires
        distinct_ids(sessions),
    ensures
        next_urgent(sessions, current) matches Some(next) ==> next.urgent(),
        next_urgent(sessions, current) is Some <==> exists|x: SessionView| #[trigger]
            sessions.contains(x) && x.urgent() && current != Some(x.id),
{
    let walk = urgent_walk(sessions);
    let n = walk.len() as int;
    lemma_distinct_filter(sessions, needs_you());
    lemma_distinct_arranged(sessions.filter(needs_you()), None);
    if let Some(id) = current {
        seqs::lemma_first_index(walk, model::identified(id));
    }
    if n > 0 {
        let here = match current {
            Some(id) => seqs::first_index(walk, model::identified(id)),
            None => None,
        };
        let k: int = match here {
            Some(i) => (i + 1) % n,
            None => 0,
        };
        if let Some(i) = here {
            vstd::arithmetic::div_mod::lemma_mod_bound(i + 1, n);
            if i + 1 < n {
                vstd::arithmetic::div_mod::lemma_small_mod((i + 1) as nat, n as nat);
            } else {
                vstd::arithmetic::div_mod::lemma_mod_self_0(n);
            }
        }
        assert(0 <= k < n);
        let next = walk[k];
        assert(follower(sessions, current) == Some(next));
        assert(walk.contains(next));
        law_walk_holds_the_urgent(sessions, next);
        lemma_first_with_id(sessions, next);
        if current == Some(next.id) {
            // Only a walk of one session comes back to where it started.
            assert(model::identified(current->0)(walk[k]));
            let i = here->0;
            assert(here is Some);
            if i < k {
                assert(walk[i].id != walk[k].id);
            } else if k < i {
                assert(walk[k].id != walk[i].id);
            }
            assert(i == k);
            assert(n == 1);
            assert forall|x: SessionView| #[trigger] sessions.contains(x) && x.urgent() implies current
                == Some(x.id) by {
                law_walk_holds_the_urgent(sessions, x);
                let j = choose|j: int| 0 <= j < walk.len() && walk[j] == x;
            }
        } else {
            assert(next_urgent(sessions, current) == Some(next));
            assert(sessions.contains(next) && next.urgent() && current != Some(next.id));
        }
    } else {
        assert forall|x: SessionView| #[trigger] sessions.contains(x) implies !x.urgent() by {
            law_walk_holds_the_urgent(sessions, x);
        }
    }
}

/// From a session that does not need you, a jump leads to the start of the walk.
pub proof fn law_next_from_elsewhere(sessions: Seq<SessionView>, current: Option<Seq<char>>)
    requires
        distinct_ids(sessions),
        urgent_walk(sessions).len() > 0,
        forall|i: int|
            0 <= i < urgent_walk(sessions).len() ==> current != Some(
                (#[trigger] urgent_walk(sessions)[i]).id,
            ),
    ensures
        next_urgent(sessions, current) == Some(urgent_walk(sessions)[0]),
{
    let walk = urgent_walk(sessions);
    if let Some(id) = current {
        seqs::lemma_first_index_none(walk, model::identified(id));
    }
    assert(walk.contains(walk[0]));
    law_walk_holds_the_urgent(sessions, walk[0]);
    lemma_first_with_id(sessions, walk[0]);
}

/// From a session on the walk, a jump leads to the one after it, and from the last one to the
/// first.
pub proof fn law_next_follows_the_walk(sessions: Seq<SessionView>, i: int)
    requires
        distinct_ids(sessions),
        urgent_walk(sessions).len() >= 2,
        0 <= i < urgent_walk(sessions).len(),
    ensures
        next_urgent(sessions, Some(urgent_walk(sessions)[i].id)) == Some(
            urgent_walk(sessions)[if i + 1 < urgent_walk(sessions).len() {
                i + 1
            } else {
                0
            }],
        ),
{
    let walk = urgent_walk(sessions);
    let n = walk.len() as int;
    lemma_distinct_filter(sessions, needs_you());
    lemma_distinct_arranged(sessions.filter(needs_you()), None);
    assert forall|j: int| 0 <= j < i implies !model::identified(walk[i].id)(#[trigger] walk[j]) by {
        assert(walk[j].id != walk[i].id);
    }
    seqs::lemma_first_index_is(walk, model::identified(walk[i].id), i);
    let k: int = if i + 1 < n {
        i + 1
    } else {
        0
    };
    if i + 1 < n {
        vstd::arithmetic::div_mod::lemma_small_mod((i + 1) as nat, n as nat);
        assert(walk[i].id != walk[k].id);
    } else {
        vstd::arithmetic::div_mod::lemma_mod_self_0(n);
        assert(walk[k].id != walk[i].id);
    }
    assert(walk.contains(walk[k]));
    law_walk_holds_the_urgent(sessions, walk[k]);
    lemma_first_with_id(sessions, walk[k]);
}

/// The id reached from the session with the id `id` after `jumps` jumps.
pub open spec fn reached(sessions: Seq<SessionView>, id: Seq<char>, jumps: nat) -> Option<Seq<char>>
    decreases jumps,
{
    if jumps == 0 {
        Some(id)
    } else {
        match reached(sessions, id, (jumps - 1) as nat) {
            Some(from) => match next_urgent(sessions, Some(from)) {
                Some(next) => Some(next.id),
                None => None,
            },
            None => None,
        }
    }
}

/// Jumps cycle: from a session on the walk, `jumps` jumps lead `jumps` places further, wrapping
/// around, so that every session that needs you is reached.
pub proof fn law_jumps_cycle(sessions: Seq<SessionView>, i: int, jumps: nat)
    requires
        distinct_ids(sessions),
        urgent_walk(sessions).len() >= 2,
        0 <= i < urgent_walk(sessions).len(),
    ensures
        0 <= (i + jumps) % (urgent_walk(sessions).len() as int) < urgent_walk(sessions).len(),
        reached(sessions, urgent_walk(sessions)[i].id, jumps) == Some(
            urgent_walk(sessions)[(i + jumps) % (urgent_walk(sessions).len() as int)].id,
        ),
    decreases jumps,
{
    let walk = urgent_walk(sessions);
    let n = walk.len() as int;
    vstd::arithmetic::div_mod::lemma_mod_bound(i + jumps, n);
    if jumps == 0 {
        vstd::arithmetic::div_mod::lemma_small_mod(i as nat, n as nat);
    } else {
        let before = (jumps - 1) as nat;
        law_jumps_cycle(sessions, i, before);
        let k = (i + before) % n;
        law_next_follows_the_walk(sessions, k);
        vstd::arithmetic::div_mod::lemma_add_mod_noop(i + before, 1, n);
        vstd::arithmetic::div_mod::lemma_small_mod(1, n as nat);
        assert((k + 1) % n == (i + jumps) % n);
        if k + 1 < n {
            vstd::arithmetic::div_mod::lemma_small_mod((k + 1) as nat, n as nat);
        } else {
            vstd::arithmetic::div_mod::lemma_mod_self_0(n);
        }
    }
}

/// Jumping from any session on the walk reaches any other session on it, without going round
/// twice.
pub proof fn law_jumps_reach_everyone(sessions: Seq<SessionView>, i: int, target: SessionView)
    requires
        distinct_ids(sessions),
        urgent_walk(sessions).len() >= 2,
        0 <= i < urgent_walk(sessions).len(),
        sessions.contains(target),
        target.urgent(),
    ensures
        exists|jumps: nat|
            jumps < urgent_walk(sessions).len() && #[trigger] reached(
                sessions,
                urgent_walk(sessions)[i].id,
                jumps,
            ) == Some(target.id),
{
    let walk = urgent_walk(sessions);
    let n = walk.len() as int;
    law_walk_holds_the_urgent(sessions, target);
    let k = choose|k: int| 0 <= k < walk.len() && walk[k] == target;
    let jumps: nat = if k >= i {
        (k - i) as nat
    } else {
        (k - i + n) as nat
    };
    law_jumps_cycle(sessions, i, jumps);
    if k >= i {
        vstd::arithmetic::div_mod::lemma_small_mod(k as nat, n as nat);
    } else {
        vstd::arithmetic::div_mod::lemma_mod_add_multiples_vanish(k, n);
        vstd::arithmetic::div_mod::lemma_small_mod(k as nat, n as nat);
    }
    assert(reached(sessions, walk[i].id, jumps) == Some(target.id));
}

} // verus!
