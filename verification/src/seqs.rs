//! Sequence functions that the contracts of this crate are stated over.
use vstd::prelude::*;

verus! {

/// The position of the first element of `s` that satisfies `p`, if any does.
pub open spec fn first_index<T>(s: Seq<T>, p: spec_fn(T) -> bool) -> Option<int>
    decreases s.len(),
{
    if s.len() == 0 {
        None
    } else if p(s[0]) {
        Some(0)
    } else {
        match first_index(s.drop_first(), p) {
            Some(i) => Some(i + 1),
            None => None,
        }
    }
}

/// `first_index` answers a position where `p` holds and before which it does not,
/// and answers none only where `p` holds nowhere.
pub proof fn lemma_first_index<T>(s: Seq<T>, p: spec_fn(T) -> bool)
    ensures
        match first_index(s, p) {
            Some(i) => {
                &&& 0 <= i < s.len()
                &&& p(s[i])
                &&& forall|j: int| 0 <= j < i ==> !p(#[trigger] s[j])
            },
            None => forall|j: int| 0 <= j < s.len() ==> !p(#[trigger] s[j]),
        },
    decreases s.len(),
{
    if s.len() > 0 && !p(s[0]) {
        let rest = s.drop_first();
        lemma_first_index(rest, p);
        match first_index(rest, p) {
            Some(i) => {
                assert forall|j: int| 0 <= j < i + 1 implies !p(#[trigger] s[j]) by {
                    if j > 0 {
                        assert(s[j] == rest[j - 1]);
                    }
                }
            },
            None => {
                assert forall|j: int| 0 <= j < s.len() implies !p(#[trigger] s[j]) by {
                    if j > 0 {
                        assert(s[j] == rest[j - 1]);
                    }
                }
            },
        }
    }
}

/// A position where `p` holds and before which it does not is the one `first_index` answers.
pub proof fn lemma_first_index_is<T>(s: Seq<T>, p: spec_fn(T) -> bool, i: int)
    requires
        0 <= i < s.len(),
        p(s[i]),
        forall|j: int| 0 <= j < i ==> !p(#[trigger] s[j]),
    ensures
        first_index(s, p) == Some(i),
{
    lemma_first_index(s, p);
}

/// Where `p` holds nowhere, `first_index` answers none.
pub proof fn lemma_first_index_none<T>(s: Seq<T>, p: spec_fn(T) -> bool)
    requires
        forall|j: int| 0 <= j < s.len() ==> !p(#[trigger] s[j]),
    ensures
        first_index(s, p) is None,
{
    lemma_first_index(s, p);
}

/// A filtered sequence holds those elements that satisfy the filter, and no others.
pub proof fn lemma_filter_holds<T>(s: Seq<T>, p: spec_fn(T) -> bool, x: T)
    ensures
        s.filter(p).contains(x) <==> s.contains(x) && p(x),
{
    broadcast use vstd::seq_lib::group_filter_ensures;

    if s.filter(p).contains(x) {
        let i = choose|i: int| 0 <= i < s.filter(p).len() && s.filter(p)[i] == x;
        s.lemma_filter_pred(p, i);
        s.lemma_filter_contains_rev(p, x);
    }
    if s.contains(x) && p(x) {
        let i = choose|i: int| 0 <= i < s.len() && s[i] == x;
        s.lemma_filter_contains(p, i);
    }
}

/// Filtering and counting commute.
pub proof fn lemma_filter_multiset<A>(s: Seq<A>, p: spec_fn(A) -> bool)
    ensures
        s.filter(p).to_multiset() == s.to_multiset().filter(p),
    decreases s.len(),
{
    broadcast use vstd::seq_lib::group_to_multiset_ensures;
    broadcast use vstd::multiset::group_multiset_axioms;

    if s.len() == 0 {
        assert(s.filter(p) =~= s) by {
            reveal(Seq::filter);
        }
        assert(s.to_multiset().len() == 0);
        assert(s.to_multiset() =~= s.to_multiset().filter(p));
    } else {
        let rest = s.drop_last();
        let last = s.last();
        lemma_filter_multiset(rest, p);
        rest.lemma_filter_push(last, p);
        assert(s =~= rest.push(last));
        assert(s.filter(p).to_multiset() =~= s.to_multiset().filter(p));
    }
}

/// Where `f` answers something for every item, nothing is left out.
pub proof fn lemma_filter_map_all<A, B>(s: Seq<A>, f: spec_fn(A) -> Option<B>, t: Seq<B>)
    requires
        t.len() == s.len(),
        forall|i: int| 0 <= i < s.len() ==> f(#[trigger] s[i]) == Some(t[i]),
    ensures
        s.filter_map(f) == t,
    decreases s.len(),
{
    if s.len() == 0 {
        assert(s.filter_map(f) =~= t) by {
            reveal(Seq::filter_map);
        }
    } else {
        let n = s.len() - 1;
        let rest = s.take(n);
        assert forall|i: int| 0 <= i < n implies f(#[trigger] rest[i]) == Some(t.take(n)[i]) by {
            assert(rest[i] == s[i]);
        }
        lemma_filter_map_all(rest, f, t.take(n));
        s.lemma_filter_map_take_succ(f, n);
        assert(s.take(n + 1) =~= s);
        assert(f(s[n]) == Some(t[n]));
        assert(t.take(n).push(t[n]) =~= t);
        assert(s.filter_map(f) =~= t);
    }
}

/// Where `p` holds everywhere, the filter keeps everything.
pub proof fn lemma_filter_all<A>(s: Seq<A>, p: spec_fn(A) -> bool)
    requires
        forall|i: int| 0 <= i < s.len() ==> p(#[trigger] s[i]),
    ensures
        s.filter(p) == s,
    decreases s.len(),
{
    reveal(Seq::filter);
    if s.len() > 0 {
        let t = s.drop_last();
        assert forall|i: int| 0 <= i < t.len() implies p(#[trigger] t[i]) by {
            assert(t[i] == s[i]);
        }
        lemma_filter_all(t, p);
        assert(s =~= t.push(s.last()));
    } else {
        assert(s.filter(p) =~= s);
    }
}

/// What comes out of two sequences one after the other is what comes out of each.
pub proof fn lemma_filter_map_add<A, B>(s: Seq<A>, t: Seq<A>, f: spec_fn(A) -> Option<B>)
    ensures
        (s + t).filter_map(f) == s.filter_map(f) + t.filter_map(f),
    decreases t.len(),
{
    if t.len() == 0 {
        assert(s + t =~= s);
        assert(t.filter_map(f) =~= Seq::empty()) by {
            reveal(Seq::filter_map);
        }
    } else {
        let n = t.len() - 1;
        let whole = s + t;
        lemma_filter_map_add(s, t.take(n), f);
        whole.lemma_filter_map_take_succ(f, s.len() + n);
        t.lemma_filter_map_take_succ(f, n);
        assert(whole.take(s.len() + n) =~= s + t.take(n));
        assert(whole.take(s.len() + n + 1) =~= whole);
        assert(t.take(n + 1) =~= t);
    }
    assert((s + t).filter_map(f) =~= s.filter_map(f) + t.filter_map(f));
}

} // verus!
