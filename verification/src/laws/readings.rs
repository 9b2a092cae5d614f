//! What tmux's listings and captured panes tell.
use vstd::prelude::*;

use crate::model::{AgentStatus, Session, SessionView};
use crate::panes;
use crate::panes::{PaneRow, PaneRowView};
use crate::seqs;
use crate::text;
use crate::tmux;
use crate::tmux::TmuxError;

verus! {

/// A line of up to six fields, with colons between them or else with unit separators and no colon
/// at all, tells of the session with the id in its first and the name in its second field. The
/// session is attached unless the third field is missing or `0`; its windows are the number in the
/// fourth field, or none; its last activity is the sixth field, unless that is missing or empty.
/// Nothing else is known of it. A line without a name tells of no session. Only the sixth field
/// may hold the separator.
pub proof fn law_session_lines(f: Seq<Seq<char>>, sep: char)
    requires
        1 <= f.len() <= 6,
        sep == ':' && f.len() >= 2 || sep == '\u{1f}' && !text::joined(f, sep).contains(':'),
        forall|i: int|
            0 <= i < f.len() && i < 5 ==> !(#[trigger] f[i]).contains(sep),
    ensures
        match tmux::session_of_line(text::joined(f, sep)) {
            Some(session) => {
                &&& f.len() >= 2 && f[1].len() > 0
                &&& session.id == f[0] && session.name == f[1]
                &&& session.attached == (f.len() >= 3 && f[2] != seq!['0'])
                &&& f.len() >= 4 ==> match text::unsigned_number(f[3], u32::MAX as nat) {
                    Some(n) => session.window_count == n,
                    None => session.window_count == 0,
                }
                &&& f.len() < 4 ==> session.window_count == 0
                &&& session.last_activity == (if f.len() == 6 && f[5].len() > 0 {
                    Some(f[5])
                } else {
                    None
                })
                &&& session.current_window is None && session.preview.len() == 0
                    && session.preview_error is None
                &&& session.agent_status is None && session.agent_status_since is None
                &&& session.agent_pane_counts.working == 0 && session.agent_pane_counts.waiting == 0
                    && session.agent_pane_counts.attention == 0
            },
            None => f.len() < 2 || f[1].len() == 0,
        },
{
    reveal_strlit("0");
    assert("0"@ =~= seq!['0']);
    let line = text::joined(f, sep);
    lemma_fields_up_to(f, sep, 6);
    if f.len() >= 2 {
        assert(line[f[0].len() as int] == sep);
        assert(line.contains(sep));
    }
}

/// A text without a separator is one field.
proof fn lemma_one_field(line: Seq<char>, sep: char, limit: nat)
    ensures
        limit >= 2 && !line.contains(sep) ==> text::fields(line, sep, limit) == seq![line],
{
    if !line.contains(sep) {
        assert forall|j: int| 0 <= j < line.len() implies !text::is_char(sep)(#[trigger] line[j]) by {
            assert(line.contains(line[j]));
        }
        seqs::lemma_first_index_none(line, text::is_char(sep));
    }
}

/// Fields are read back from their line also where more fields are asked for than there are.
proof fn lemma_fields_up_to(f: Seq<Seq<char>>, sep: char, limit: nat)
    requires
        1 <= f.len() <= limit,
        forall|i: int|
            0 <= i < f.len() && i < limit - 1 ==> !(#[trigger] f[i]).contains(sep),
    ensures
        text::fields(text::joined(f, sep), sep, limit) == f,
    decreases f.len(),
{
    if f.len() == 1 {
        if limit > 1 {
            lemma_one_field(f[0], sep, limit);
        }
        assert(text::fields(text::joined(f, sep), sep, limit) =~= f);
    } else {
        let rest = f.drop_first();
        assert forall|i: int| 0 <= i < rest.len() && i < limit - 2 implies !(
        #[trigger] rest[i]).contains(sep) by {
            assert(rest[i] == f[i + 1]);
        }
        lemma_fields_up_to(rest, sep, (limit - 1) as nat);
        let s = text::joined(f, sep);
        let k = f[0].len() as int;
        assert forall|j: int| 0 <= j < k implies !text::is_char(sep)(#[trigger] s[j]) by {
            assert(s[j] == f[0][j]);
            assert(f[0].contains(f[0][j]));
        }
        seqs::lemma_first_index_is(s, text::is_char(sep), k);
        assert(s.take(k) =~= f[0]);
        assert(s.skip(k + 1) =~= text::joined(rest, sep));
        assert(seq![f[0]] + rest =~= f);
    }
}

/// A pane line of up to three fields with colons between them tells of the session id in its first
/// field, the status whose word is in the second, and the time in the third; what is missing or
/// cannot be read is absent. A line with an empty id tells of nothing. Only the third field may
/// hold a colon.
pub proof fn law_pane_lines(f: Seq<Seq<char>>)
    requires
        1 <= f.len() <= 3,
        forall|i: int|
            0 <= i < f.len() && i < 2 ==> !(#[trigger] f[i]).contains(':'),
    ensures
        match panes::row_of_line(text::joined(f, ':')) {
            Some(row) => {
                &&& f[0].len() > 0 && row.id == f[0]
                &&& row.status == Some(AgentStatus::Working) <==> f.len() >= 2 && f[1]
                    == "working"@
                &&& row.status == Some(AgentStatus::Waiting) <==> f.len() >= 2 && f[1]
                    == "waiting"@
                &&& row.status == Some(AgentStatus::Attention) <==> f.len() >= 2 && f[1]
                    == "attention"@
                &&& f.len() == 3 ==> row.since == text::signed_number(f[2])
                &&& f.len() < 3 ==> row.since is None
            },
            None => f[0].len() == 0,
        },
{
    lemma_fields_up_to(f, ':', 3);
    if f.len() >= 2 {
        crate::laws::states::law_status_words(f[1]);
    }
}

/// A listing tells line by line of the sessions that its lines tell of, in the order of the lines,
/// and a pane listing likewise of its rows.
pub proof fn law_listings_go_line_by_line(output: Seq<char>)
    ensures
        tmux::listed_sessions(output) == text::lines(output).filter_map(
            |line: Seq<char>| tmux::session_of_line(line),
        ),
        panes::listed_rows(output) == text::lines(output).filter_map(
            |line: Seq<char>| panes::row_of_line(line),
        ),
{
    assert(tmux::session_reader() =~= |line: Seq<char>| tmux::session_of_line(line));
    assert(panes::row_reader() =~= |line: Seq<char>| panes::row_of_line(line));
}

/// A listing that tells of no session is an error unless it is all white space; any other listing
/// gives the sessions it tells of.
pub proof fn law_reading_a_listing(output: Seq<char>)
    ensures
        match tmux::read_listing(output) {
            Ok(sessions) => sessions == tmux::listed_sessions(output) && (sessions.len() > 0
                || forall|i: int|
                0 <= i < output.len() ==> text::white_space(#[trigger] output[i])),
            Err(message) => message
                == "tmux list-sessions returned output in an unexpected format"@
                && tmux::listed_sessions(output).len() == 0 && exists|i: int|
                0 <= i < output.len() && !text::white_space(#[trigger] output[i]),
        },
{
}

/// What a read listing gives, and what an error says.
pub proof fn law_sessions_result(sessions: Vec<Session>, error: TmuxError)
    ensures
        tmux::sessions_result(Ok(sessions)) == Ok::<Seq<SessionView>, Seq<char>>(
            Seq::new(sessions@.len(), |i: int| sessions@[i]@),
        ),
        tmux::sessions_result(Err(error)) == Err::<Seq<SessionView>, Seq<char>>(error.message@),
{
    assert(crate::model::session_views(sessions@) =~= Seq::new(
        sessions@.len(),
        |i: int| sessions@[i]@,
    ));
}

/// A row is seen as it is.
pub proof fn law_rows_are_seen_as_they_are(rows: Seq<PaneRow>, i: int)
    requires
        0 <= i < rows.len(),
    ensures
        panes::row_views(rows).len() == rows.len(),
        panes::row_views(rows)[i] == (PaneRowView {
            id: rows[i].0@,
            status: rows[i].1,
            since: rows[i].2,
        }),
{
}

/// A preview shows lines of the pane without the white space at their ends: the last ones up to
/// the last that is not blank, as many as asked for or else all from the first on.
pub proof fn law_preview(output: Seq<char>, max: nat, end: int)
    requires
        0 <= end <= text::lines(output).len(),
        end > 0 ==> text::trim_end(text::lines(output)[end - 1]).len() > 0,
        forall|i: int|
            end <= i < text::lines(output).len() ==> text::trim_end(
                #[trigger] text::lines(output)[i],
            ).len() == 0,
    ensures
        ({
            let from: int = if end > max {
                end - max
            } else {
                0
            };
            tmux::preview_of(output, max) == Seq::new(
                (end - from) as nat,
                |i: int| text::trim_end(text::lines(output)[from + i]),
            )
        }),
{
    let lines = text::lines(output);
    let trimmed = tmux::right_trimmed(lines);
    let kept = tmux::without_empty_end(trimmed);
    let from: int = if end > max {
        end - max
    } else {
        0
    };
    tmux::lemma_without_empty_end(trimmed);
    assert(kept.len() == end) by {
        if kept.len() < end {
            assert(trimmed[end - 1].len() == 0);
        }
        if kept.len() > end {
            assert(trimmed[kept.len() - 1] == text::trim_end(lines[kept.len() - 1]));
            assert(kept.last() == trimmed[kept.len() - 1]);
        }
    }
    assert(tmux::preview_of(output, max) =~= Seq::new(
        (end - from) as nat,
        |i: int| text::trim_end(text::lines(output)[from + i]),
    ));
}

} // verus!
