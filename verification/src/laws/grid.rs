//! The order of the grid, and the jump to the next session that needs you.
use vstd::prelude::*;

use crate::model;
use crate::model::{AgentStatus, SessionView};
use crate::order;
use crate::seqs;

verus! {

/// The grid is ordered by status: `Attention` before `Waiting` before `Working` before sessions
/// without an agent, whatever else the sessions hold. Of two sessions at one status, the one that
/// is current comes last; otherwise the one with the earlier timestamp comes first, and one
/// without a timestamp counts as the latest.
pub proof fn law_grid_is_ordered_by_status(
    s: Seq<SessionView>,
    current: Option<Seq<char>>,
    i: int,
    j: int,
)
    requires
        0 <= i < j < s.len(),
    ensures
        order::arranged(s, current).len() == s.len(),
        ({
            let a = order::arranged(s, current)[i];
            let b = order::arranged(s, current)[j];
            let current_a = a.agent_status is Some && current == Some(a.name);
            let current_b = b.agent_status is Some && current == Some(b.name);
            &&& b.agent_status == Some(AgentStatus::Attention) ==> a.agent_status == Some(
                AgentStatus::Attention,
            )
            &&& b.agent_status == Some(AgentStatus::Waiting) ==> a.agent_status == Some(
                AgentStatus::Attention,
            ) || a.agent_status == Some(AgentStatus::Waiting)
            &&& b.agent_status == Some(AgentStatus::Working) ==> a.agent_status is Some
            &&& a.agent_status == b.agent_status ==> (current_a ==> current_b)
            &&& a.agent_status == b.agent_status && current_a == current_b ==> match (
                a.agent_status_since,
                b.agent_status_since,
            ) {
                (Some(x), Some(y)) => x <= y,
                (None, Some(y)) => y == i64::MAX,
                _ => true,
            }
        }),
{
    order::law_arranged_in_order(s, current);
    assert(order::no_later(
        order::arranged(s, current)[i],
        order::arranged(s, current)[j],
        current,
    ));
}

/// Sorting keeps the order of the sessions that agree in status, in being current and in
/// timestamp, and it neither adds nor drops a session.
pub proof fn law_grid_keeps_the_order_of_equals(
    s: Seq<SessionView>,
    current: Option<Seq<char>>,
    x: SessionView,
)
    ensures
        order::arranged(s, current).to_multiset() == s.to_multiset(),
        ({
            let since = |y: SessionView|
                match y.agent_status_since {
                    Some(t) => t,
                    None => i64::MAX,
                };
            let like_x = |y: SessionView|
                y.agent_status == x.agent_status && since(y) == since(x) && (x.agent_status is Some
                    ==> (current == Some(y.name)) == (current == Some(x.name)));
            order::arranged(s, current).filter(like_x) == s.filter(like_x)
        }),
{
    let since = |y: SessionView|
        match y.agent_status_since {
            Some(t) => t,
            None => i64::MAX,
        };
    let like_x = |y: SessionView|
        y.agent_status == x.agent_status && since(y) == since(x) && (x.agent_status is Some ==> (
        current == Some(y.name)) == (current == Some(x.name)));
    order::law_arranged_in_order(s, current);
    assert forall|a: SessionView, b: SessionView| #[trigger] like_x(a) && #[trigger] like_x(
        b,
    ) implies order::no_later(a, b, current) by {}
    order::law_arranged_stable(s, like_x, current);
}

/// The walk goes from the most to the least pressing session: those whose agents are blocked on
/// you first, and among sessions at one status the earlier timestamp first.
pub proof fn law_walk_is_in_priority_order(sessions: Seq<SessionView>, i: int, j: int)
    requires
        0 <= i < j < order::urgent_walk(sessions).len(),
    ensures
        order::in_order(order::urgent_walk(sessions), None),
        ({
            let a = order::urgent_walk(sessions)[i];
            let b = order::urgent_walk(sessions)[j];
            &&& b.agent_status == Some(AgentStatus::Attention) ==> a.agent_status == Some(
                AgentStatus::Attention,
            )
            &&& a.agent_status == b.agent_status ==> match (
                a.agent_status_since,
                b.agent_status_since,
            ) {
                (Some(x), Some(y)) => x <= y,
                (None, Some(y)) => y == i64::MAX,
                _ => true,
            }
        }),
{
    let urgent = sessions.filter(order::needs_you());
    order::law_arranged_in_order(urgent, None);
    law_grid_is_ordered_by_status(urgent, None, i, j);
}

/// The walk goes through the sessions whose agents are blocked on you or waiting for you, each as
/// often as it is listed, and through no others.
pub proof fn law_walk_goes_through_the_urgent(sessions: Seq<SessionView>)
    ensures
        order::urgent_walk(sessions).to_multiset() == sessions.filter(
            |y: SessionView|
                y.agent_status == Some(AgentStatus::Attention) || y.agent_status == Some(
                    AgentStatus::Waiting,
                ),
        ).to_multiset(),
{
    let p = |y: SessionView|
        y.agent_status == Some(AgentStatus::Attention) || y.agent_status == Some(
            AgentStatus::Waiting,
        );
    assert(order::needs_you() =~= p);
    order::law_arranged_in_order(sessions.filter(p), None);
}

/// On the walk, sessions that agree in status and timestamp keep the order of the listing.
pub proof fn law_walk_keeps_the_order_of_equals(sessions: Seq<SessionView>, x: SessionView)
    requires
        x.agent_status == Some(AgentStatus::Attention) || x.agent_status == Some(
            AgentStatus::Waiting,
        ),
    ensures
        ({
            let since = |y: SessionView|
                match y.agent_status_since {
                    Some(t) => t,
                    None => i64::MAX,
                };
            let like_x = |y: SessionView|
                y.agent_status == x.agent_status && since(y) == since(x);
            order::urgent_walk(sessions).filter(like_x) == sessions.filter(like_x)
        }),
{
    let since = |y: SessionView|
        match y.agent_status_since {
            Some(t) => t,
            None => i64::MAX,
        };
    let like_x = |y: SessionView| y.agent_status == x.agent_status && since(y) == since(x);
    let urgent = sessions.filter(order::needs_you());
    assert forall|a: SessionView, b: SessionView| #[trigger] like_x(a) && #[trigger] like_x(
        b,
    ) implies order::no_later(a, b, None) by {}
    order::law_arranged_stable(urgent, like_x, None);
    lemma_filter_twice(sessions, order::needs_you(), like_x);
}

/// Filtering by `p` first does not matter where `q` is narrower.
proof fn lemma_filter_twice(
    s: Seq<SessionView>,
    p: spec_fn(SessionView) -> bool,
    q: spec_fn(SessionView) -> bool,
)
    requires
        forall|x: SessionView| #[trigger] q(x) ==> p(x),
    ensures
        s.filter(p).filter(q) == s.filter(q),
    decreases s.len(),
{
    if s.len() == 0 {
        s.lemma_filter_len(p);
        s.lemma_filter_len(q);
        s.filter(p).lemma_filter_len(q);
        assert(s.filter(p).filter(q) =~= s.filter(q));
    } else {
        let t = s.drop_last();
        lemma_filter_twice(t, p, q);
        assert(s =~= t.push(s.last()));
        t.lemma_filter_push(s.last(), p);
        t.lemma_filter_push(s.last(), q);
        t.filter(p).lemma_filter_push(s.last(), q);
    }
}

/// A filter keeps the order of what it keeps.
proof fn lemma_filter_keeps_order(
    s: Seq<SessionView>,
    p: spec_fn(SessionView) -> bool,
    i: int,
    j: int,
) -> (r: (int, int))
    requires
        0 <= i < j < s.len(),
        p(s[i]),
        p(s[j]),
    ensures
        0 <= r.0 < r.1 < s.filter(p).len(),
        s.filter(p)[r.0] == s[i],
        s.filter(p)[r.1] == s[j],
{
    let left = s.take(j);
    let right = s.skip(j);
    assert(s =~= left + right);
    Seq::filter_distributes_over_add(left, right, p);
    assert(left[i] == s[i] && left.contains(s[i]));
    assert(right[0] == s[j] && right.contains(s[j]));
    seqs::lemma_filter_holds(left, p, s[i]);
    seqs::lemma_filter_holds(right, p, s[j]);
    let a = choose|a: int| 0 <= a < left.filter(p).len() && left.filter(p)[a] == s[i];
    let b = choose|b: int| 0 <= b < right.filter(p).len() && right.filter(p)[b] == s[j];
    assert(s.filter(p)[a] == s[i]);
    assert(s.filter(p)[left.filter(p).len() + b] == s[j]);
    (a, left.filter(p).len() + b)
}

/// The place on the walk of a session that needs you.
proof fn lemma_place_on_the_walk(sessions: Seq<SessionView>, i: int) -> (r: int)
    requires
        0 <= i < sessions.len(),
        sessions[i].urgent(),
    ensures
        0 <= r < order::urgent_walk(sessions).len(),
        order::urgent_walk(sessions)[r] == sessions[i],
{
    let walk = order::urgent_walk(sessions);
    assert(sessions.contains(sessions[i]));
    order::law_walk_holds_the_urgent(sessions, sessions[i]);
    choose|r: int| 0 <= r < walk.len() && walk[r] == sessions[i]
}

/// Of two sessions that need you, the more pressing one comes first on the walk; of two that are
/// equally pressing, the one that is listed first.
proof fn lemma_pressing_first(sessions: Seq<SessionView>, i: int, j: int, a: int, b: int)
    requires
        order::distinct_ids(sessions),
        0 <= i < sessions.len(),
        0 <= j < sessions.len(),
        i != j,
        sessions[i].urgent(),
        sessions[j].urgent(),
        0 <= a < order::urgent_walk(sessions).len(),
        0 <= b < order::urgent_walk(sessions).len(),
        order::urgent_walk(sessions)[a] == sessions[i],
        order::urgent_walk(sessions)[b] == sessions[j],
        order::no_later(sessions[i], sessions[j], None),
        order::no_later(sessions[j], sessions[i], None) ==> i < j,
    ensures
        a < b,
{
    let walk = order::urgent_walk(sessions);
    let urgent = sessions.filter(order::needs_you());
    let (x, y) = (sessions[i], sessions[j]);
    order::law_arranged_in_order(urgent, None);
    order::lemma_distinct_walk(sessions);
    assert(x.id != y.id) by {
        if i < j {
            assert(sessions[i].id != sessions[j].id);
        } else {
            assert(sessions[j].id != sessions[i].id);
        }
    }
    if b < a {
        assert(order::no_later(walk[b], walk[a], None));
        let p = order::ranked_like(x, None);
        assert(p(x) && p(y));
        order::law_arranged_stable(urgent, p, None);
        let (iu, ju) = lemma_filter_keeps_order(sessions, order::needs_you(), i, j);
        let (c, d) = lemma_filter_keeps_order(urgent, p, iu, ju);
        let (e, f) = lemma_filter_keeps_order(walk, p, b, a);
        let kept = walk.filter(p);
        order::lemma_distinct_filter(walk, p);
        assert(kept[c] == x && kept[f] == x && kept[d] == y && kept[e] == y);
        if c < f {
            assert(kept[c].id != kept[f].id);
        } else if f < c {
            assert(kept[f].id != kept[c].id);
        }
        if d < e {
            assert(kept[d].id != kept[e].id);
        } else if e < d {
            assert(kept[e].id != kept[d].id);
        }
    }
}

/// A jump from the session `h` that needs you leads to the one right after it in priority order,
/// and from the last one to the first: no other session `m` that needs you is passed over. The
/// more pressing status comes first, then the earlier timestamp, then the earlier place in the
/// list.
pub proof fn law_jump_goes_to_the_next_in_priority_order(
    sessions: Seq<SessionView>,
    h: int,
    k: int,
    m: int,
)
    requires
        forall|i: int, j: int|
            0 <= i < j < sessions.len() ==> (#[trigger] sessions[i]).id != (
            #[trigger] sessions[j]).id,
        0 <= h < sessions.len(),
        0 <= k < sessions.len(),
        0 <= m < sessions.len(),
        m != h && m != k,
        sessions[h].agent_status == Some(AgentStatus::Attention) || sessions[h].agent_status
            == Some(AgentStatus::Waiting),
        sessions[m].agent_status == Some(AgentStatus::Attention) || sessions[m].agent_status
            == Some(AgentStatus::Waiting),
        order::next_urgent(sessions, Some(sessions[h].id)) == Some(sessions[k]),
    ensures
        k != h,
        ({
            let since = |i: int|
                match sessions[i].agent_status_since {
                    Some(t) => t,
                    None => i64::MAX,
                };
            let ahead = |i: int, j: int|
                if sessions[i].agent_status != sessions[j].agent_status {
                    sessions[i].agent_status == Some(AgentStatus::Attention)
                } else if since(i) != since(j) {
                    since(i) < since(j)
                } else {
                    i < j
                };
            if ahead(h, k) {
                ahead(m, h) || ahead(k, m)
            } else {
                ahead(k, m) && ahead(m, h)
            }
        }),
{
    let walk = order::urgent_walk(sessions);
    let n = walk.len() as int;
    order::law_next_needs_you(sessions, Some(sessions[h].id));
    let a = lemma_place_on_the_walk(sessions, h);
    let b = lemma_place_on_the_walk(sessions, k);
    let c = lemma_place_on_the_walk(sessions, m);
    order::lemma_distinct_walk(sessions);
    assert(sessions[m].id != sessions[h].id) by {
        if m < h {
            assert(sessions[m].id != sessions[h].id);
        } else {
            assert(sessions[h].id != sessions[m].id);
        }
    }
    assert(a != c);
    order::law_next_follows_the_walk(sessions, a);
    let next: int = if a + 1 < n {
        a + 1
    } else {
        0
    };
    assert(walk[next] == sessions[k]);
    assert(b == next) by {
        if b < next {
            assert(walk[b].id != walk[next].id);
        } else if next < b {
            assert(walk[next].id != walk[b].id);
        }
    }
    assert(k != h) by {
        if a < b {
            assert(walk[a].id != walk[b].id);
        } else {
            assert(walk[b].id != walk[a].id);
        }
    }
    lemma_pressing(sessions, h, k, a, b);
    lemma_pressing(sessions, h, m, a, c);
    lemma_pressing(sessions, k, m, b, c);
}

/// Whichever of two sessions that need you is more pressing is the first of them on the walk.
proof fn lemma_pressing(sessions: Seq<SessionView>, i: int, j: int, a: int, b: int)
    requires
        order::distinct_ids(sessions),
        0 <= i < sessions.len(),
        0 <= j < sessions.len(),
        i != j,
        sessions[i].urgent(),
        sessions[j].urgent(),
        0 <= a < order::urgent_walk(sessions).len(),
        0 <= b < order::urgent_walk(sessions).len(),
        order::urgent_walk(sessions)[a] == sessions[i],
        order::urgent_walk(sessions)[b] == sessions[j],
    ensures
        a < b <==> order::no_later(sessions[i], sessions[j], None) && (order::no_later(
            sessions[j],
            sessions[i],
            None,
        ) ==> i < j),
        b < a <==> order::no_later(sessions[j], sessions[i], None) && (order::no_later(
            sessions[i],
            sessions[j],
            None,
        ) ==> j < i),
{
    if order::no_later(sessions[i], sessions[j], None) && (order::no_later(
        sessions[j],
        sessions[i],
        None,
    ) ==> i < j) {
        lemma_pressing_first(sessions, i, j, a, b);
    } else {
        lemma_pressing_first(sessions, j, i, b, a);
    }
}

/// A jump from a session that does not need you, or from nowhere, leads to the most pressing
/// session: no other one `m` is ahead of it.
pub proof fn law_jump_from_elsewhere_goes_to_the_most_pressing(
    sessions: Seq<SessionView>,
    current: Option<Seq<char>>,
    k: int,
    m: int,
)
    requires
        forall|i: int, j: int|
            0 <= i < j < sessions.len() ==> (#[trigger] sessions[i]).id != (
            #[trigger] sessions[j]).id,
        forall|i: int|
            0 <= i < sessions.len() && current == Some((#[trigger] sessions[i]).id)
                ==> sessions[i].agent_status != Some(AgentStatus::Attention)
                && sessions[i].agent_status != Some(AgentStatus::Waiting),
        0 <= k < sessions.len(),
        0 <= m < sessions.len(),
        m != k,
        sessions[m].agent_status == Some(AgentStatus::Attention) || sessions[m].agent_status
            == Some(AgentStatus::Waiting),
        order::next_urgent(sessions, current) == Some(sessions[k]),
    ensures
        ({
            let since = |i: int|
                match sessions[i].agent_status_since {
                    Some(t) => t,
                    None => i64::MAX,
                };
            if sessions[k].agent_status != sessions[m].agent_status {
                sessions[k].agent_status == Some(AgentStatus::Attention)
            } else if since(k) != since(m) {
                since(k) < since(m)
            } else {
                k < m
            }
        }),
{
    let walk = order::urgent_walk(sessions);
    order::law_next_needs_you(sessions, current);
    let b = lemma_place_on_the_walk(sessions, k);
    let c = lemma_place_on_the_walk(sessions, m);
    order::lemma_distinct_walk(sessions);
    assert forall|i: int| 0 <= i < walk.len() implies current != Some((#[trigger] walk[i]).id) by {
        assert(walk.contains(walk[i]));
        order::law_walk_holds_the_urgent(sessions, walk[i]);
        let j = choose|j: int| 0 <= j < sessions.len() && sessions[j] == walk[i];
        assert(sessions[j].urgent());
    }
    order::law_next_from_elsewhere(sessions, current);
    assert(b == 0) by {
        if 0 < b {
            assert(walk[0].id != walk[b].id);
        }
    }
    assert(c != b) by {
        if k < m {
            assert(sessions[k].id != sessions[m].id);
        } else {
            assert(sessions[m].id != sessions[k].id);
        }
    }
    lemma_pressing(sessions, k, m, b, c);
}

/// There is a session to jump to exactly when one other than the current one is blocked on you or
/// waiting for you, and it is one of those.
pub proof fn law_jump_leads_to_a_session_that_needs_you(
    sessions: Seq<SessionView>,
    current: Option<Seq<char>>,
)
    requires
        forall|i: int, j: int|
            0 <= i < j < sessions.len() ==> (#[trigger] sessions[i]).id != (
            #[trigger] sessions[j]).id,
    ensures
        match order::next_urgent(sessions, current) {
            Some(next) => sessions.contains(next) && current != Some(next.id) && (next.agent_status
                == Some(AgentStatus::Attention) || next.agent_status == Some(
                AgentStatus::Waiting,
            )),
            None => forall|i: int|
                0 <= i < sessions.len() && current != Some((#[trigger] sessions[i]).id)
                    ==> sessions[i].agent_status != Some(AgentStatus::Attention)
                    && sessions[i].agent_status != Some(AgentStatus::Waiting),
        },
{
    order::law_next_needs_you(sessions, current);
    order::law_next_is_another_session(sessions, current);
    if order::next_urgent(sessions, current) is None {
        assert forall|i: int|
            0 <= i < sessions.len() && current != Some((#[trigger] sessions[i]).id) implies
            sessions[i].agent_status != Some(AgentStatus::Attention) && sessions[i].agent_status
            != Some(AgentStatus::Waiting) by {
            assert(sessions.contains(sessions[i]));
        }
    }
}

/// A jump looks for the current id on the walk and takes the id after it, from the last place the
/// first. It leads to the first listed session with the id it took, unless that is the current id.
pub proof fn law_jump_takes_the_next_id_on_the_walk(
    sessions: Seq<SessionView>,
    current: Option<Seq<char>>,
    here: int,
    k: int,
)
    requires
        0 <= here < order::urgent_walk(sessions).len(),
        current == Some(order::urgent_walk(sessions)[here].id),
        forall|j: int|
            0 <= j < here ==> current != Some((#[trigger] order::urgent_walk(sessions)[j]).id),
        0 <= k < sessions.len(),
    ensures
        ({
            let walk = order::urgent_walk(sessions);
            let taken = walk[if here + 1 < walk.len() {
                here + 1
            } else {
                0
            }].id;
            &&& sessions[k].id == taken && (forall|j: int|
                0 <= j < k ==> (#[trigger] sessions[j]).id != taken) && current != Some(taken)
                ==> order::next_urgent(sessions, current) == Some(sessions[k])
            &&& current == Some(taken) ==> order::next_urgent(sessions, current) is None
        }),
{
    let walk = order::urgent_walk(sessions);
    let n = walk.len() as int;
    seqs::lemma_first_index_is(walk, model::identified(current->0), here);
    if here + 1 < n {
        vstd::arithmetic::div_mod::lemma_small_mod((here + 1) as nat, n as nat);
    } else {
        vstd::arithmetic::div_mod::lemma_mod_self_0(n);
    }
    let next: int = if here + 1 < n {
        here + 1
    } else {
        0
    };
    let taken = walk[next].id;
    if sessions[k].id == taken && (forall|j: int|
        0 <= j < k ==> (#[trigger] sessions[j]).id != taken) {
        seqs::lemma_first_index_is(sessions, model::identified(taken), k);
    }
}

/// A jump from an id that is not on the walk, or from nowhere, takes the first id on the walk and
/// leads to the first listed session with that id; where the walk is empty it leads nowhere.
pub proof fn law_jump_takes_the_first_id_on_the_walk(
    sessions: Seq<SessionView>,
    current: Option<Seq<char>>,
    k: int,
)
    requires
        forall|j: int|
            0 <= j < order::urgent_walk(sessions).len() ==> current != Some(
                (#[trigger] order::urgent_walk(sessions)[j]).id,
            ),
        0 <= k < sessions.len(),
    ensures
        ({
            let walk = order::urgent_walk(sessions);
            &&& walk.len() > 0 && sessions[k].id == walk[0].id && (forall|j: int|
                0 <= j < k ==> (#[trigger] sessions[j]).id != walk[0].id)
                ==> order::next_urgent(sessions, current) == Some(sessions[k])
            &&& walk.len() == 0 ==> order::next_urgent(sessions, current) is None
        }),
{
    let walk = order::urgent_walk(sessions);
    if let Some(id) = current {
        seqs::lemma_first_index_none(walk, model::identified(id));
    }
    if walk.len() > 0 && sessions[k].id == walk[0].id && (forall|j: int|
        0 <= j < k ==> (#[trigger] sessions[j]).id != walk[0].id) {
        seqs::lemma_first_index_is(sessions, model::identified(walk[0].id), k);
    }
}

} // verus!
