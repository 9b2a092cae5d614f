//! What tmux is asked, and how its answers are read.
use vstd::prelude::*;

use crate::model;
use crate::model::{AgentPaneCounts, Session, SessionView};
use crate::seqs;
use crate::text;

verus! {

/// What tmux is to print for each session.
pub const SESSION_FORMAT: &'static str = "#{session_id}:#{session_name}:#{session_attached}:#{session_windows}:#{session_created}:#{session_activity}";

/// What tmux is to print for each pane.
pub const PANE_AGENT_FORMAT: &'static str = "#{session_id}:#{@agent_status}:#{@agent_status_since}";

/// What stands between the fields of a line.
pub const FIELD_SEPARATOR: char = ':';

/// What stands between the fields of a line that has no [`FIELD_SEPARATOR`].
pub const LEGACY_FIELD_SEPARATOR: char = '\u{1f}';

/// The fields of a session line: id, name, attached, windows, created and activity.
pub open spec fn session_fields(line: Seq<char>) -> Seq<Seq<char>> {
    if line.contains(FIELD_SEPARATOR) {
        text::fields(line, FIELD_SEPARATOR, 6)
    } else {
        text::fields(line, LEGACY_FIELD_SEPARATOR, 6)
    }
}

/// The session that a line tells of. A line without a name tells of none; a field that is
/// missing or that cannot be read counts as detached, as no windows, or as no activity.
pub open spec fn session_of_line(line: Seq<char>) -> Option<SessionView> {
    let f = session_fields(line);
    if f.len() < 2 || f[1].len() == 0 {
        None
    } else {
        Some(
            SessionView {
                id: f[0],
                name: f[1],
                attached: f.len() > 2 && f[2] != "0"@,
                window_count: if f.len() > 3 {
                    match text::unsigned_number(f[3], u32::MAX as nat) {
                        Some(n) => n as u32,
                        None => 0,
                    }
                } else {
                    0
                },
                current_window: None,
                last_activity: if f.len() > 5 && f[5].len() > 0 {
                    Some(f[5])
                } else {
                    None
                },
                preview: Seq::empty(),
                preview_error: None,
                agent_status: None,
                agent_status_since: None,
                agent_pane_counts: AgentPaneCounts::zero(),
            },
        )
    }
}

/// `session_of_line` as a value.
pub open spec fn session_reader() -> spec_fn(Seq<char>) -> Option<SessionView> {
    |line: Seq<char>| session_of_line(line)
}

/// The sessions that a listing tells of, in the order of its lines.
pub open spec fn listed_sessions(output: Seq<char>) -> Seq<SessionView> {
    text::lines(output).filter_map(session_reader())
}

/// Reads one line of a session listing.
fn parse_session_line(line: &str) -> (r: Option<Session>)
    ensures
        match r {
            Some(session) => session_of_line(line@) == Some(session@),
            None => session_of_line(line@) is None,
        },
{
    let separator = if text::contains_char(line, FIELD_SEPARATOR) {
        FIELD_SEPARATOR
    } else {
        LEGACY_FIELD_SEPARATOR
    };
    let parts = text::split_fields(line, separator, 6);
    let ghost f = session_fields(line@);
    assert(text::texts(parts@) == f);
    assert(forall|i: int| 0 <= i < parts@.len() ==> f[i] == (#[trigger] parts@[i])@);
    if parts.len() < 2 || parts[1].as_str().is_empty() {
        return None;
    }
    let attached = parts.len() > 2 && !(*parts[2].as_str() == *"0");
    let window_count: u32 = if parts.len() > 3 {
        match text::parse_u32(parts[3].as_str()) {
            Some(n) => n,
            None => 0,
        }
    } else {
        0
    };
    let last_activity: Option<String> = if parts.len() > 5 && !parts[5].as_str().is_empty() {
        Some(parts[5].clone())
    } else {
        None
    };
    let session = Session {
        id: parts[0].clone(),
        name: parts[1].clone(),
        attached,
        window_count,
        current_window: None,
        last_activity,
        preview: Vec::new(),
        preview_error: None,
        agent_status: None,
        agent_status_since: None,
        agent_pane_counts: AgentPaneCounts::default(),
    };
    assert(session@.preview =~= Seq::empty());
    assert(session@ =~= session_of_line(line@)->0);
    Some(session)
}

/// Reads a session listing; lines that tell of no session are passed over.
pub fn parse_sessions(output: &str) -> (r: Vec<Session>)
    ensures
        model::session_views(r@) == listed_sessions(output@),
{
    let lines = text::split_lines(output);
    let ghost all = text::lines(output@);
    let mut sessions: Vec<Session> = Vec::new();
    let mut i: usize = 0;
    proof {
        assert(all.take(0) =~= Seq::<Seq<char>>::empty());
        assert(model::session_views(sessions@) =~= all.take(0).filter_map(session_reader())) by {
            reveal(Seq::filter_map);
        }
    }
    while i < lines.len()
        invariant
            i <= lines@.len(),
            text::texts(lines@) == all,
            model::session_views(sessions@) == all.take(i as int).filter_map(session_reader()),
        decreases lines@.len() - i,
    {
        proof {
            all.lemma_filter_map_take_succ(session_reader(), i as int);
            assert(all[i as int] == lines@[i as int]@);
        }
        let ghost before = sessions@;
        match parse_session_line(lines[i].as_str()) {
            Some(session) => {
                sessions.push(session);
                assert(model::session_views(sessions@) =~= model::session_views(before).push(
                    session@,
                ));
            },
            None => {},
        }
        assert(model::session_views(sessions@) =~= all.take(i + 1).filter_map(session_reader()));
        i = i + 1;
    }
    assert(all.take(i as int) =~= all);
    sessions
}

/// The session that the six fields of a line tell of.
pub open spec fn session_told(f: Seq<Seq<char>>) -> SessionView {
    SessionView {
        id: f[0],
        name: f[1],
        attached: f[2] != "0"@,
        window_count: match text::unsigned_number(f[3], u32::MAX as nat) {
            Some(n) => n as u32,
            None => 0,
        },
        current_window: None,
        last_activity: if f[5].len() > 0 {
            Some(f[5])
        } else {
            None
        },
        preview: Seq::empty(),
        preview_error: None,
        agent_status: None,
        agent_status_since: None,
        agent_pane_counts: AgentPaneCounts::zero(),
    }
}

/// Whether six fields make a session line with `sep` between them: the first five must not hold
/// the separator, the name must not be empty, and a line in the legacy format must not hold the
/// other separator.
pub open spec fn tells_a_session(f: Seq<Seq<char>>, sep: char) -> bool {
    &&& f.len() == 6
    &&& sep == FIELD_SEPARATOR || sep == LEGACY_FIELD_SEPARATOR && !text::joined(f, sep).contains(
        FIELD_SEPARATOR,
    )
    &&& forall|i: int| 0 <= i < 5 ==> !(#[trigger] f[i]).contains(sep)
    &&& f[1].len() > 0
}

/// A session line tells what was written into it.
pub proof fn law_session_line_reads_back(f: Seq<Seq<char>>, sep: char)
    requires
        tells_a_session(f, sep),
    ensures
        session_of_line(text::joined(f, sep)) == Some(session_told(f)),
{
    let line = text::joined(f, sep);
    assert(line[f[0].len() as int] == sep);
    text::law_fields_read_back(f, sep);
}

/// The session lines with the fields `all`.
pub open spec fn session_lines(all: Seq<Seq<Seq<char>>>, sep: char) -> Seq<Seq<char>> {
    Seq::new(all.len(), |i: int| text::joined(all[i], sep))
}

/// A listing tells of the sessions that were written into it, in their order. No field may hold
/// a line feed, and no line may end in a carriage return.
pub proof fn law_listing_reads_back(all: Seq<Seq<Seq<char>>>, sep: char)
    requires
        forall|i: int| 0 <= i < all.len() ==> tells_a_session(#[trigger] all[i], sep),
        forall|i: int|
            0 <= i < all.len() ==> text::one_line(#[trigger] session_lines(all, sep)[i]),
    ensures
        listed_sessions(text::written_lines(session_lines(all, sep))) == Seq::new(
            all.len(),
            |i: int| session_told(all[i]),
        ),
{
    let lines = session_lines(all, sep);
    text::law_lines_read_back(lines);
    assert forall|i: int| 0 <= i < lines.len() implies session_reader()(#[trigger] lines[i])
        == Some(session_told(all[i])) by {
        law_session_line_reads_back(all[i], sep);
    }
    seqs::lemma_filter_map_all(
        lines,
        session_reader(),
        Seq::new(all.len(), |i: int| session_told(all[i])),
    );
}

/// Listings one after the other tell of the sessions of the first and then of those of the second,
/// where the first is empty or ends in a line feed.
pub proof fn law_listings_in_turn(a: Seq<char>, b: Seq<char>)
    requires
        a.len() == 0 || a.last() == '\n',
    ensures
        listed_sessions(a + b) == listed_sessions(a) + listed_sessions(b),
{
    text::law_lines_of_texts_in_turn(a, b);
    seqs::lemma_filter_map_add(text::lines(a), text::lines(b), session_reader());
}

/// Every session that a listing tells of has a name.
pub proof fn law_listed_sessions_are_named(output: Seq<char>, session: SessionView)
    requires
        listed_sessions(output).contains(session),
    ensures
        session.name.len() > 0,
        session.agent_status is None && session.agent_status_since is None,
{
    text::lines(output).lemma_filter_map_contains(session_reader(), session);
}

/// Why tmux could not be asked or could not answer.
#[derive(Debug, PartialEq, Eq)]
pub struct TmuxError {
    pub message: String,
}

/// What the sessions are, or what the error says.
pub open spec fn sessions_result(r: Result<Vec<Session>, TmuxError>) -> Result<
    Seq<SessionView>,
    Seq<char>,
> {
    match r {
        Ok(sessions) => Ok(model::session_views(sessions@)),
        Err(error) => Err(error.message@),
    }
}

/// The error that says `message`.
pub fn error_saying(message: &str) -> (r: TmuxError)
    ensures
        r.message@ == message@,
{
    TmuxError { message: message.to_string() }
}

/// The sessions that a listing tells of. It is an error if it tells of none but is not blank.
pub open spec fn read_listing(output: Seq<char>) -> Result<Seq<SessionView>, Seq<char>> {
    if listed_sessions(output).len() == 0 && !text::blank(output) {
        Err("tmux list-sessions returned output in an unexpected format"@)
    } else {
        Ok(listed_sessions(output))
    }
}

/// Reads a session listing; one that tells of no session must be blank.
pub fn parse_sessions_output(output: &str) -> (r: Result<Vec<Session>, TmuxError>)
    ensures
        sessions_result(r) == read_listing(output@),
{
    let sessions = parse_sessions(output);
    if sessions.len() == 0 && !text::is_blank(output) {
        return Err(error_saying("tmux list-sessions returned output in an unexpected format"));
    }
    Ok(sessions)
}

/// Each line without the white space at its end.
pub open spec fn right_trimmed(lines: Seq<Seq<char>>) -> Seq<Seq<char>> {
    Seq::new(lines.len(), |i: int| text::trim_end(lines[i]))
}

/// The lines without the empty ones at their end.
pub open spec fn without_empty_end(lines: Seq<Seq<char>>) -> Seq<Seq<char>>
    decreases lines.len(),
{
    if lines.len() > 0 && lines.last().len() == 0 {
        without_empty_end(lines.drop_last())
    } else {
        lines
    }
}

/// The last `max` lines.
pub open spec fn last_lines(lines: Seq<Seq<char>>, max: nat) -> Seq<Seq<char>> {
    if lines.len() <= max {
        lines
    } else {
        lines.skip(lines.len() - max)
    }
}

/// The preview of a captured pane: its last `max` lines, not counting the empty ones at the
/// end, each without the white space at its end.
pub open spec fn preview_of(output: Seq<char>, max: nat) -> Seq<Seq<char>> {
    last_lines(without_empty_end(right_trimmed(text::lines(output))), max)
}

/// The last `max_lines` lines of a captured pane.
pub fn trim_preview(output: &str, max_lines: usize) -> (r: Vec<String>)
    ensures
        text::texts(r@) == preview_of(output@, max_lines as nat),
{
    let all = text::split_lines(output);
    let ghost trimmed = right_trimmed(text::lines(output@));
    let mut lines: Vec<String> = Vec::new();
    let mut i: usize = 0;
    while i < all.len()
        invariant
            i <= all@.len(),
            text::texts(all@) == text::lines(output@),
            trimmed == right_trimmed(text::lines(output@)),
            text::texts(lines@) == trimmed.take(i as int),
        decreases all@.len() - i,
    {
        let line = text::trimmed_end(all[i].as_str());
        proof {
            assert(text::texts(all@)[i as int] == all@[i as int]@);
            text::lemma_texts_push(lines@, line);
            assert(trimmed.take(i + 1) =~= trimmed.take(i as int).push(line@));
        }
        lines.push(line);
        i = i + 1;
    }
    assert(trimmed.take(i as int) =~= trimmed);
    while lines.len() > 0 && lines[lines.len() - 1].as_str().is_empty()
        invariant
            without_empty_end(text::texts(lines@)) == without_empty_end(trimmed),
        decreases lines@.len(),
    {
        let ghost before = lines@;
        lines.pop();
        assert(text::texts(before).drop_last() =~= text::texts(lines@));
    }
    let ghost kept = lines@;
    assert(text::texts(kept) == without_empty_end(trimmed));
    if lines.len() > max_lines {
        let start: usize = lines.len() - max_lines;
        let last = lines.split_off(start);
        assert(text::texts(last@) =~= text::texts(kept).skip(start as int));
        last
    } else {
        lines
    }
}

/// A preview has at most `max` lines, and its last line is not empty.
pub proof fn law_preview_fits(output: Seq<char>, max: nat)
    ensures
        preview_of(output, max).len() <= max,
        preview_of(output, max).len() > 0 ==> preview_of(output, max).last().len() > 0,
{
    let trimmed = right_trimmed(text::lines(output));
    lemma_without_empty_end(trimmed);
}

/// Only empty lines at the end are left out, and all of them.
pub proof fn lemma_without_empty_end(lines: Seq<Seq<char>>)
    ensures
        without_empty_end(lines).len() > 0 ==> without_empty_end(lines).last().len() > 0,
        without_empty_end(lines).len() <= lines.len(),
        without_empty_end(lines) == lines.take(without_empty_end(lines).len() as int),
        forall|i: int|
            without_empty_end(lines).len() <= i < lines.len() ==> (#[trigger] lines[i]).len() == 0,
    decreases lines.len(),
{
    if lines.len() > 0 && lines.last().len() == 0 {
        let rest = lines.drop_last();
        lemma_without_empty_end(rest);
        let n = without_empty_end(lines).len() as int;
        assert(lines.take(n) =~= rest.take(n));
        assert forall|i: int| n <= i < lines.len() implies (#[trigger] lines[i]).len() == 0 by {
            if i < lines.len() - 1 {
                assert(lines[i] == rest[i]);
            }
        }
    } else {
        assert(lines.take(lines.len() as int) =~= lines);
    }
}

/// Whether `shown` stands in `lines` from position `from` on, with nothing but empty lines after
/// it.
pub open spec fn ends_the_pane(lines: Seq<Seq<char>>, shown: Seq<Seq<char>>, from: int) -> bool {
    &&& 0 <= from <= from + shown.len() <= lines.len()
    &&& lines.subrange(from, (from + shown.len()) as int) == shown
    &&& forall|i: int| from + shown.len() <= i < lines.len() ==> (#[trigger] lines[i]).len() == 0
}

/// A preview is a run of the pane's right-trimmed lines that only empty lines follow, and it
/// leaves lines out before it only where it is full.
pub proof fn law_preview_ends_the_pane(output: Seq<char>, max: nat)
    ensures
        exists|from: int| #[trigger]
            ends_the_pane(right_trimmed(text::lines(output)), preview_of(output, max), from) && (
            preview_of(output, max).len() < max ==> from == 0),
{
    let lines = right_trimmed(text::lines(output));
    let kept = without_empty_end(lines);
    let shown = preview_of(output, max);
    lemma_without_empty_end(lines);
    let from: int = kept.len() - shown.len();
    assert(lines.subrange(from, (from + shown.len()) as int) =~= shown);
    assert(ends_the_pane(lines, shown, from));
}

/// A line without the white space at its end has none there, and is a part of the line.
proof fn lemma_trim_end(s: Seq<char>)
    ensures
        text::trim_end(s).len() <= s.len(),
        text::trim_end(s) == s.take(text::trim_end(s).len() as int),
        text::trim_end(text::trim_end(s)) == text::trim_end(s),
        text::trim_end(s).len() > 0 ==> !text::white_space(text::trim_end(s).last()),
    decreases s.len(),
{
    if s.len() > 0 && text::white_space(s.last()) {
        lemma_trim_end(s.drop_last());
        let n = text::trim_end(s).len() as int;
        assert(s.take(n) =~= s.drop_last().take(n));
    } else {
        assert(s.take(s.len() as int) =~= s);
    }
}

/// A preview that is shown as a pane is its own preview, where there is room for its lines.
pub proof fn law_preview_of_a_preview(output: Seq<char>, max: nat, room: nat)
    requires
        preview_of(output, max).len() <= room,
    ensures
        preview_of(text::joined(preview_of(output, max), '\n'), room) == preview_of(output, max),
{
    let lines = text::lines(output);
    let trimmed = right_trimmed(lines);
    let kept = without_empty_end(trimmed);
    let shown = preview_of(output, max);
    lemma_without_empty_end(trimmed);
    text::law_lines_hold_no_line_feed(output);
    let from: int = kept.len() - shown.len();
    assert forall|i: int| 0 <= i < shown.len() implies text::one_line(#[trigger] shown[i])
        && text::trim_end(shown[i]) == shown[i] by {
        let line = lines[from + i];
        assert(shown[i] == kept[from + i]);
        assert(kept[from + i] == trimmed[from + i]);
        assert(shown[i] == text::trim_end(line));
        lemma_trim_end(line);
        assert(!shown[i].contains('\n')) by {
            if shown[i].contains('\n') {
                let j = choose|j: int| 0 <= j < shown[i].len() && shown[i][j] == '\n';
                assert(line[j] == '\n');
                assert(line.contains('\n'));
            }
        }
    }
    law_preview_fits(output, max);
    text::law_joined_lines_read_back(shown);
    assert(right_trimmed(shown) =~= shown);
}

} // verus!
