//! Which sessions a search shows.
use vstd::prelude::*;

use crate::model;
use crate::model::{AppState, SessionView};
use crate::text;

verus! {

/// A query finds a name exactly when there are rising positions in the name in lower case, one for
/// every character of the query in lower case, that hold these characters.
pub proof fn law_query_finds_its_characters_in_order(name: Seq<char>, query: Seq<char>)
    ensures
        model::fuzzy(name, query) <==> exists|at: Seq<int>|
            #![trigger at.len()]
            at.len() == text::lowercase(query).len() && (forall|i: int|
                0 <= i < text::lowercase(query).len() ==> 0 <= #[trigger] at[i] < text::lowercase(
                    name,
                ).len() && text::lowercase(name)[at[i]] == text::lowercase(query)[i]) && (forall|
                i: int,
                j: int,
            |
                0 <= i < j < text::lowercase(query).len() ==> #[trigger] at[i] < #[trigger] at[j]),
{
    crate::laws::texts::law_subsequence(text::lowercase(query), text::lowercase(name));
}

/// A query whose characters are not all in an ASCII name does not find it: each of them, in either
/// case, must occur there.
pub proof fn law_query_finds_only_names_with_its_characters(
    name: Seq<char>,
    query: Seq<char>,
    i: int,
)
    requires
        forall|j: int| 0 <= j < name.len() ==> '\0' <= #[trigger] name[j] <= '\u{7f}',
        forall|j: int| 0 <= j < query.len() ==> '\0' <= #[trigger] query[j] <= '\u{7f}',
        model::fuzzy(name, query),
        0 <= i < query.len(),
    ensures
        exists|j: int|
            0 <= j < name.len() && ((#[trigger] name[j]) == query[i] || 'A' <= name[j] <= 'Z'
                && query[i] as int == name[j] as int + 32 || 'A' <= query[i] <= 'Z' && name[j] as int
                == query[i] as int + 32),
{
    law_query_finds_its_characters_in_order(name, query);
    assert(vstd::utf8::is_ascii_chars(name));
    assert(vstd::utf8::is_ascii_chars(query));
    let at = choose|at: Seq<int>|
        #![trigger at.len()]
        at.len() == text::lowercase(query).len() && (forall|i: int|
            0 <= i < text::lowercase(query).len() ==> 0 <= #[trigger] at[i] < text::lowercase(
                name,
            ).len() && text::lowercase(name)[at[i]] == text::lowercase(query)[i]) && (forall|
            i: int,
            j: int,
        |
            0 <= i < j < text::lowercase(query).len() ==> #[trigger] at[i] < #[trigger] at[j]);
    let j = at[i];
    assert(0 <= j < name.len());
    assert(text::lowercase(name)[j] == text::ascii_lower(name[j]));
    assert(text::lowercase(query)[i] == text::ascii_lower(query[i]));
}

/// Without a query every session is shown. With one, those whose names it finds are shown, in the
/// order of the list.
pub proof fn law_search_shows_what_the_query_finds(s: AppState, query: Seq<char>)
    ensures
        s.search_query is None ==> s.visible() == s.sessions,
        s.search_query == Some(query) ==> s.visible() == s.sessions.filter(
            |x: SessionView| model::fuzzy(x.name, query),
        ),
{
    assert(model::found_by(query) =~= |x: SessionView| model::fuzzy(x.name, query));
}

/// The session under the cursor is the one at that place among those that are shown.
pub proof fn law_selected_is_under_the_cursor(s: AppState)
    ensures
        s.selected_index < s.visible().len() ==> s.selected() == Some(
            s.visible()[s.selected_index as int],
        ),
        s.selected_index >= s.visible().len() ==> s.selected() is None,
{
}

} // verus!
