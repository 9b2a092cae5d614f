//! Text functions: line splitting, field splitting, trimming and decimal numbers.
//!
//! The specification functions speak of a text as the sequence of its characters.
use vstd::prelude::*;

use crate::seqs;

verus! {

/// `String::push` appends one character.
pub assume_specification[ String::push ](s: &mut String, ch: char)
    ensures
        final(s)@ == old(s)@.push(ch),
;

/// `String::pop` takes the last character off and answers it; it leaves an empty string
/// alone and answers none.
pub assume_specification[ String::pop ](s: &mut String) -> (r: Option<char>)
    ensures
        old(s)@.len() == 0 ==> r is None && final(s)@ == old(s)@,
        old(s)@.len() > 0 ==> r == Some(old(s)@.last()) && final(s)@ == old(s)@.drop_last(),
;

/// `==` on string slices compares their characters.
pub assume_specification[ <str as PartialEq>::eq ](a: &str, b: &str) -> (r: bool)
    ensures
        r == (a@ == b@),
;

/// What `str::to_lowercase` makes of a text that is not pure ASCII.
pub uninterp spec fn unicode_lowercase(s: Seq<char>) -> Seq<char>;

/// `str::to_lowercase` maps the letters `A` to `Z` to `a` to `z` and keeps every other ASCII
/// character. What it makes of other texts follows the Unicode tables and depends on the text
/// alone; it has a name here and is not spelled out.
pub assume_specification[ str::to_lowercase ](s: &str) -> (r: String)
    ensures
        vstd::utf8::is_ascii_chars(s@) ==> r@ == ascii_lowercase(s@),
        !vstd::utf8::is_ascii_chars(s@) ==> r@ == unicode_lowercase(s@),
;

/// An ASCII letter in lower case; any other character as it is.
pub open spec fn ascii_lower(c: char) -> char {
    if 'A' <= c <= 'Z' {
        (c as u8 + 32) as char
    } else {
        c
    }
}

/// A text with its ASCII letters in lower case.
pub open spec fn ascii_lowercase(s: Seq<char>) -> Seq<char> {
    Seq::new(s.len(), |i: int| ascii_lower(s[i]))
}

/// A text in lower case.
pub open spec fn lowercase(s: Seq<char>) -> Seq<char> {
    if vstd::utf8::is_ascii_chars(s) {
        ascii_lowercase(s)
    } else {
        unicode_lowercase(s)
    }
}

/// A text as `{:?}` prints it: quoted, and escaped where needed.
pub uninterp spec fn debug_text(s: Seq<char>) -> Seq<char>;

/// Formats a text with `{:?}`, which puts it in quotes and escapes some characters, in a way
/// that depends on the text alone; the outcome has a name here and is not spelled out.
#[verifier::external_body]
pub(crate) fn debug_quoted(s: &str) -> (r: String)
    ensures
        r@ == debug_text(s@),
{
    format!("{s:?}")
}

/// What `String::from_utf8_lossy` makes of bytes that are not valid UTF-8.
pub uninterp spec fn repaired_utf8(bytes: Seq<u8>) -> Seq<char>;

/// The text that bytes stand for.
pub open spec fn utf8_text(bytes: Seq<u8>) -> Seq<char> {
    if vstd::utf8::valid_utf8(bytes) {
        vstd::utf8::decode_utf8(bytes)
    } else {
        repaired_utf8(bytes)
    }
}

/// Calls `String::from_utf8_lossy`, which decodes valid UTF-8. In other bytes it replaces what
/// is not valid by replacement characters, in a way that depends on the bytes alone; the
/// outcome has a name here and is not spelled out.
#[verifier::external_body]
pub(crate) fn decode_lossy(bytes: &[u8]) -> (r: String)
    ensures
        vstd::utf8::valid_utf8(bytes@) ==> r@ == vstd::utf8::decode_utf8(bytes@),
        !vstd::utf8::valid_utf8(bytes@) ==> r@ == repaired_utf8(bytes@),
{
    String::from_utf8_lossy(bytes).into_owned()
}

/// The characters of each string.
pub open spec fn texts(v: Seq<String>) -> Seq<Seq<char>> {
    Seq::new(v.len(), |i: int| v[i]@)
}

/// The characters of an optional string.
pub open spec fn opt_text(s: Option<String>) -> Option<Seq<char>> {
    match s {
        Some(s) => Some(s@),
        None => None,
    }
}

/// The characters of an optional string slice.
pub open spec fn opt_str(s: Option<&str>) -> Option<Seq<char>> {
    match s {
        Some(s) => Some(s@),
        None => None,
    }
}

/// One more string adds its characters.
pub proof fn lemma_texts_push(v: Seq<String>, s: String)
    ensures
        texts(v.push(s)) == texts(v).push(s@),
{
    assert(texts(v.push(s)) =~= texts(v).push(s@));
}

/// Whether a character has the Unicode property `White_Space`.
pub open spec fn white_space(c: char) -> bool {
    ||| '\u{9}' <= c <= '\u{d}'
    ||| c == ' '
    ||| c == '\u{85}'
    ||| c == '\u{a0}'
    ||| c == '\u{1680}'
    ||| '\u{2000}' <= c <= '\u{200a}'
    ||| c == '\u{2028}'
    ||| c == '\u{2029}'
    ||| c == '\u{202f}'
    ||| c == '\u{205f}'
    ||| c == '\u{3000}'
}

/// Whether a character is white space.
pub fn is_white_space(c: char) -> (r: bool)
    ensures
        r == white_space(c),
{
    ('\u{9}' <= c && c <= '\u{d}') || c == ' ' || c == '\u{85}' || c == '\u{a0}' || c == '\u{1680}'
        || ('\u{2000}' <= c && c <= '\u{200a}') || c == '\u{2028}' || c == '\u{2029}' || c
        == '\u{202f}' || c == '\u{205f}' || c == '\u{3000}'
}

/// The characters of a string slice, one by one.
pub fn chars_of(s: &str) -> (r: Vec<char>)
    ensures
        r@ == s@,
{
    let mut v: Vec<char> = Vec::new();
    for c in it: s.chars()
        invariant
            it.seq() == s@,
            v@ == s@.take(it.index() as int),
    {
        v.push(c);
    }
    v
}

/// The string of the characters from position `from` up to position `to`.
pub fn substring(cs: &Vec<char>, from: usize, to: usize) -> (r: String)
    requires
        from <= to <= cs@.len(),
    ensures
        r@ == cs@.subrange(from as int, to as int),
{
    let mut s = String::new();
    let mut i: usize = from;
    while i < to
        invariant
            from <= i <= to <= cs@.len(),
            s@ == cs@.subrange(from as int, i as int),
        decreases to - i,
    {
        s.push(cs[i]);
        i = i + 1;
        assert(s@ =~= cs@.subrange(from as int, i as int));
    }
    s
}

/// The predicate of being the character `sep`.
pub open spec fn is_char(sep: char) -> spec_fn(char) -> bool {
    |c: char| c == sep
}

/// A line without the carriage return that stood before its line feed.
pub open spec fn strip_cr(line: Seq<char>) -> Seq<char> {
    if line.len() > 0 && line.last() == '\r' {
        line.drop_last()
    } else {
        line
    }
}

/// The lines of a text. A line ends at a line feed, and a carriage return right before it
/// belongs to the line ending; the last line needs no line ending.
pub open spec fn lines(s: Seq<char>) -> Seq<Seq<char>>
    decreases s.len(),
    via lines_decreases
{
    if s.len() == 0 {
        Seq::empty()
    } else {
        match seqs::first_index(s, is_char('\n')) {
            Some(k) => seq![strip_cr(s.take(k))] + lines(s.skip(k + 1)),
            None => seq![s],
        }
    }
}

#[via_fn]
proof fn lines_decreases(s: Seq<char>) {
    seqs::lemma_first_index(s, is_char('\n'));
}

/// The lines of `text`.
pub fn split_lines(text: &str) -> (r: Vec<String>)
    ensures
        texts(r@) == lines(text@),
{
    let cs = chars_of(text);
    let mut out: Vec<String> = Vec::new();
    let mut start: usize = 0;
    let mut i: usize = 0;
    assert(cs@.skip(0) =~= cs@);
    assert(texts(out@) + lines(cs@) =~= lines(cs@));
    while i < cs.len()
        invariant
            start <= i <= cs@.len(),
            forall|j: int| start <= j < i ==> cs@[j] != '\n',
            texts(out@) + lines(cs@.skip(start as int)) == lines(cs@),
        decreases cs@.len() - i,
    {
        if cs[i] == '\n' {
            let ghost rest = cs@.skip(start as int);
            let ghost k = i - start;
            proof {
                assert(forall|j: int| 0 <= j < k ==> rest[j] == cs@[start + j]);
                seqs::lemma_first_index_is(rest, is_char('\n'), k);
                assert(rest.take(k) =~= cs@.subrange(start as int, i as int));
                assert(rest.skip(k + 1) =~= cs@.skip(i + 1));
            }
            let end: usize = if i > start && cs[i - 1] == '\r' { i - 1 } else { i };
            let line = substring(&cs, start, end);
            assert(line@ =~= strip_cr(rest.take(k)));
            let ghost before = out@;
            out.push(line);
            proof {
                lemma_texts_push(before, line);
                assert(texts(before) + (seq![line@] + lines(cs@.skip(i + 1))) =~= texts(out@)
                    + lines(cs@.skip(i + 1)));
            }
            start = i + 1;
        }
        i = i + 1;
    }
    let ghost rest = cs@.skip(start as int);
    if start < cs.len() {
        let line = substring(&cs, start, cs.len());
        proof {
            assert(line@ =~= rest);
            assert(forall|j: int| 0 <= j < rest.len() ==> rest[j] == cs@[start + j]);
            seqs::lemma_first_index_none(rest, is_char('\n'));
            lemma_texts_push(out@, line);
        }
        out.push(line);
        assert(texts(out@) =~= lines(text@));
    } else {
        assert(rest =~= Seq::<char>::empty());
        assert(texts(out@) =~= lines(text@));
    }
    out
}

/// The fields of a text: it is split at the first `limit - 1` separators, so that the last
/// field may hold separators.
pub open spec fn fields(s: Seq<char>, sep: char, limit: nat) -> Seq<Seq<char>>
    decreases limit,
{
    if limit == 0 {
        Seq::empty()
    } else if limit == 1 {
        seq![s]
    } else {
        match seqs::first_index(s, is_char(sep)) {
            Some(k) => seq![s.take(k)] + fields(s.skip(k + 1), sep, (limit - 1) as nat),
            None => seq![s],
        }
    }
}

/// The fields of `text`, at most `limit` of them.
pub fn split_fields(text: &str, sep: char, limit: usize) -> (r: Vec<String>)
    ensures
        texts(r@) == fields(text@, sep, limit as nat),
{
    let cs = chars_of(text);
    let mut out: Vec<String> = Vec::new();
    if limit == 0 {
        assert(texts(out@) =~= Seq::<Seq<char>>::empty());
        return out;
    }
    let mut start: usize = 0;
    let mut i: usize = 0;
    let mut left: usize = limit;
    assert(cs@.skip(0) =~= cs@);
    assert(texts(out@) + fields(cs@, sep, limit as nat) =~= fields(cs@, sep, limit as nat));
    while i < cs.len() && left > 1
        invariant
            start <= i <= cs@.len(),
            left >= 1,
            forall|j: int| start <= j < i ==> cs@[j] != sep,
            texts(out@) + fields(cs@.skip(start as int), sep, left as nat) == fields(
                cs@,
                sep,
                limit as nat,
            ),
        decreases cs@.len() - i,
    {
        if cs[i] == sep {
            let ghost rest = cs@.skip(start as int);
            let ghost k = i - start;
            proof {
                assert(forall|j: int| 0 <= j < k ==> rest[j] == cs@[start + j]);
                seqs::lemma_first_index_is(rest, is_char(sep), k);
                assert(rest.skip(k + 1) =~= cs@.skip(i + 1));
            }
            let field = substring(&cs, start, i);
            assert(field@ =~= rest.take(k));
            let ghost before = out@;
            out.push(field);
            start = i + 1;
            left = left - 1;
            proof {
                lemma_texts_push(before, field);
                let tail = fields(cs@.skip(i + 1), sep, left as nat);
                assert(texts(before) + (seq![field@] + tail) =~= texts(out@) + tail);
            }
        }
        i = i + 1;
    }
    let ghost rest = cs@.skip(start as int);
    let field = substring(&cs, start, cs.len());
    proof {
        assert(field@ =~= rest);
        if left > 1 {
            assert(forall|j: int| 0 <= j < rest.len() ==> rest[j] == cs@[start + j]);
            seqs::lemma_first_index_none(rest, is_char(sep));
        }
        lemma_texts_push(out@, field);
    }
    out.push(field);
    assert(texts(out@) =~= fields(text@, sep, limit as nat));
    out
}

/// Whether `c` occurs in `text`.
pub fn contains_char(text: &str, c: char) -> (r: bool)
    ensures
        r == text@.contains(c),
{
    let cs = chars_of(text);
    let mut i: usize = 0;
    while i < cs.len()
        invariant
            cs@ == text@,
            i <= cs@.len(),
            forall|j: int| 0 <= j < i ==> cs@[j] != c,
        decreases cs@.len() - i,
    {
        if cs[i] == c {
            return true;
        }
        i = i + 1;
    }
    false
}

/// Whether `s` begins with `prefix`.
pub open spec fn begins_with(s: Seq<char>, prefix: Seq<char>) -> bool {
    prefix.len() <= s.len() && s.take(prefix.len() as int) == prefix
}

/// What follows `prefix` in `text`, if `text` begins with it.
pub fn after_prefix(text: &str, prefix: &str) -> (r: Option<String>)
    ensures
        opt_text(r) == (if begins_with(text@, prefix@) {
            Some(text@.skip(prefix@.len() as int))
        } else {
            None
        }),
{
    let cs = chars_of(text);
    let ps = chars_of(prefix);
    if ps.len() > cs.len() {
        return None;
    }
    let mut i: usize = 0;
    while i < ps.len()
        invariant
            cs@ == text@,
            ps@ == prefix@,
            i <= ps@.len() <= cs@.len(),
            forall|j: int| 0 <= j < i ==> cs@[j] == ps@[j],
        decreases ps@.len() - i,
    {
        if cs[i] != ps[i] {
            assert(text@.take(prefix@.len() as int)[i as int] != prefix@[i as int]);
            return None;
        }
        i = i + 1;
    }
    assert(text@.take(prefix@.len() as int) =~= prefix@);
    let rest = substring(&cs, i, cs.len());
    assert(rest@ =~= text@.skip(prefix@.len() as int));
    Some(rest)
}

/// A text without the white space at its end.
pub open spec fn trim_end(s: Seq<char>) -> Seq<char>
    decreases s.len(),
{
    if s.len() > 0 && white_space(s.last()) {
        trim_end(s.drop_last())
    } else {
        s
    }
}

/// A text without the white space at its start.
pub open spec fn trim_start(s: Seq<char>) -> Seq<char>
    decreases s.len(),
{
    if s.len() > 0 && white_space(s[0]) {
        trim_start(s.drop_first())
    } else {
        s
    }
}

/// A text without the white space at its start and at its end.
pub open spec fn trim(s: Seq<char>) -> Seq<char> {
    trim_end(trim_start(s))
}

/// Whether every character of a text is white space.
pub open spec fn blank(s: Seq<char>) -> bool {
    forall|i: int| 0 <= i < s.len() ==> white_space(#[trigger] s[i])
}

/// `text` without the white space at its end.
pub fn trimmed_end(text: &str) -> (r: String)
    ensures
        r@ == trim_end(text@),
{
    let cs = chars_of(text);
    let mut end: usize = cs.len();
    assert(cs@.take(end as int) =~= cs@);
    while end > 0 && is_white_space(cs[end - 1])
        invariant
            end <= cs@.len(),
            trim_end(cs@.take(end as int)) == trim_end(cs@),
        decreases end,
    {
        assert(cs@.take(end as int).drop_last() =~= cs@.take(end - 1));
        end = end - 1;
    }
    substring(&cs, 0, end)
}

/// `text` without the white space at its start and at its end.
pub fn trimmed(text: &str) -> (r: String)
    ensures
        r@ == trim(text@),
{
    let cs = chars_of(text);
    let mut start: usize = 0;
    assert(cs@.skip(0) =~= cs@);
    while start < cs.len() && is_white_space(cs[start])
        invariant
            start <= cs@.len(),
            trim_start(cs@.skip(start as int)) == trim_start(cs@),
        decreases cs@.len() - start,
    {
        assert(cs@.skip(start as int).drop_first() =~= cs@.skip(start + 1));
        start = start + 1;
    }
    let ghost rest = cs@.skip(start as int);
    let mut end: usize = cs.len();
    assert(cs@.subrange(start as int, end as int) =~= rest);
    while end > start && is_white_space(cs[end - 1])
        invariant
            start <= end <= cs@.len(),
            trim_end(cs@.subrange(start as int, end as int)) == trim_end(rest),
        decreases end,
    {
        assert(cs@.subrange(start as int, end as int).drop_last() =~= cs@.subrange(
            start as int,
            end - 1,
        ));
        end = end - 1;
    }
    substring(&cs, start, end)
}

/// Whether `text` holds nothing but white space.
pub fn is_blank(text: &str) -> (r: bool)
    ensures
        r == blank(text@),
{
    let cs = chars_of(text);
    let mut i: usize = 0;
    while i < cs.len()
        invariant
            cs@ == text@,
            i <= cs@.len(),
            forall|j: int| 0 <= j < i ==> white_space(#[trigger] cs@[j]),
        decreases cs@.len() - i,
    {
        if !is_white_space(cs[i]) {
            return false;
        }
        i = i + 1;
    }
    true
}


/// Whether a character is one of the ten decimal digits.
pub open spec fn digit(c: char) -> bool {
    '0' <= c <= '9'
}

/// Whether a text is a decimal numeral: at least one digit, and nothing but digits.
pub open spec fn numeral(s: Seq<char>) -> bool {
    s.len() > 0 && forall|i: int| 0 <= i < s.len() ==> digit(#[trigger] s[i])
}

/// The number that a decimal numeral stands for.
pub open spec fn numeral_value(s: Seq<char>) -> nat
    decreases s.len(),
{
    if s.len() == 0 {
        0
    } else {
        (10 * numeral_value(s.drop_last()) + (s.last() as int - '0' as int)) as nat
    }
}

/// The number up to `max` that a numeral stands for, with or without a `+` before it.
pub open spec fn unsigned_number(s: Seq<char>, max: nat) -> Option<nat> {
    let digits = if s.len() > 0 && s[0] == '+' {
        s.drop_first()
    } else {
        s
    };
    if numeral(digits) && numeral_value(digits) <= max {
        Some(numeral_value(digits))
    } else {
        None
    }
}

/// The `i64` that a numeral stands for, with or without a sign before it.
pub open spec fn signed_number(s: Seq<char>) -> Option<i64> {
    if s.len() > 0 && s[0] == '-' {
        let digits = s.drop_first();
        if numeral(digits) && numeral_value(digits) <= -(i64::MIN as int) {
            Some((-(numeral_value(digits) as int)) as i64)
        } else {
            None
        }
    } else {
        match unsigned_number(s, i64::MAX as nat) {
            Some(n) => Some(n as i64),
            None => None,
        }
    }
}

/// A longer numeral stands for a number that is at least as large.
proof fn lemma_numeral_value_grows(s: Seq<char>, i: int)
    requires
        numeral(s),
        0 <= i <= s.len(),
    ensures
        numeral_value(s.take(i)) <= numeral_value(s),
    decreases s.len() - i,
{
    if i == s.len() {
        assert(s.take(i) =~= s);
    } else {
        lemma_numeral_value_grows(s, i + 1);
        assert(digit(s[i]));
        assert(s.take(i + 1).drop_last() =~= s.take(i));
        assert(s.take(i + 1).last() == s[i]);
    }
}

/// The number that the characters from position `from` on stand for, if they are a numeral and
/// the number is at most `max`.
fn parse_numeral(cs: &Vec<char>, from: usize, max: u64) -> (r: Option<u64>)
    requires
        from <= cs@.len(),
    ensures
        match r {
            Some(n) => numeral(cs@.skip(from as int)) && n == numeral_value(cs@.skip(from as int))
                && n <= max,
            None => !numeral(cs@.skip(from as int)) || numeral_value(cs@.skip(from as int)) > max,
        },
{
    let ghost s = cs@.skip(from as int);
    if from == cs.len() {
        return None;
    }
    let mut n: u64 = 0;
    let mut i: usize = from;
    assert(s.take(0) =~= Seq::<char>::empty());
    while i < cs.len()
        invariant
            from <= i <= cs@.len(),
            s == cs@.skip(from as int),
            forall|j: int| 0 <= j < i - from ==> digit(#[trigger] s[j]),
            n == numeral_value(s.take(i - from)),
            n <= max,
        decreases cs@.len() - i,
    {
        let c = cs[i];
        assert(s[i - from] == c);
        if !('0' <= c && c <= '9') {
            assert(!digit(s[i - from]));
            return None;
        }
        let d: u64 = (c as u32 - '0' as u32) as u64;
        assert(s.take(i - from + 1).drop_last() =~= s.take(i - from));
        assert(s.take(i - from + 1).last() == c);
        let next: u128 = 10 * (n as u128) + d as u128;
        assert(next == numeral_value(s.take(i - from + 1)));
        if next > max as u128 {
            proof {
                if numeral(s) {
                    lemma_numeral_value_grows(s, i - from + 1);
                }
            }
            return None;
        }
        n = next as u64;
        i = i + 1;
    }
    assert(s.take(i - from) =~= s);
    Some(n)
}

/// The number that `cs` stands for, with or without a `+` before it, if it is at most `max`.
fn parse_unsigned(cs: &Vec<char>, max: u64) -> (r: Option<u64>)
    ensures
        match r {
            Some(n) => unsigned_number(cs@, max as nat) == Some(n as nat),
            None => unsigned_number(cs@, max as nat) is None,
        },
{
    assert(cs@.skip(0) =~= cs@);
    assert(cs@.len() > 0 ==> cs@.skip(1) =~= cs@.drop_first());
    if cs.len() > 0 && cs[0] == '+' {
        parse_numeral(cs, 1, max)
    } else {
        parse_numeral(cs, 0, max)
    }
}

/// Reads a `u8` in decimal notation, with or without a `+` before it.
pub fn parse_u8(text: &str) -> (r: Option<u8>)
    ensures
        match r {
            Some(n) => unsigned_number(text@, u8::MAX as nat) == Some(n as nat),
            None => unsigned_number(text@, u8::MAX as nat) is None,
        },
{
    match parse_unsigned(&chars_of(text), 255) {
        Some(n) => Some(n as u8),
        None => None,
    }
}

/// Reads a `u32` in decimal notation, with or without a `+` before it.
pub fn parse_u32(text: &str) -> (r: Option<u32>)
    ensures
        match r {
            Some(n) => unsigned_number(text@, u32::MAX as nat) == Some(n as nat),
            None => unsigned_number(text@, u32::MAX as nat) is None,
        },
{
    match parse_unsigned(&chars_of(text), 0xffff_ffff) {
        Some(n) => Some(n as u32),
        None => None,
    }
}

/// Reads an `i64` in decimal notation, with or without a sign before it.
pub fn parse_i64(text: &str) -> (r: Option<i64>)
    ensures
        r == signed_number(text@),
{
    let cs = chars_of(text);
    if cs.len() > 0 && cs[0] == '-' {
        assert(cs@.skip(1) =~= cs@.drop_first());
        match parse_numeral(&cs, 1, 0x8000_0000_0000_0000) {
            Some(n) => Some((-(n as i128)) as i64),
            None => None,
        }
    } else {
        match parse_unsigned(&cs, 0x7fff_ffff_ffff_ffff) {
            Some(n) => Some(n as i64),
            None => None,
        }
    }
}

/// The digit that stands for a number below ten.
pub open spec fn digit_char(d: nat) -> char {
    ('0' as nat + d) as char
}

/// A number in decimal notation, without leading zeros.
pub open spec fn decimal(n: nat) -> Seq<char>
    decreases n,
{
    if n < 10 {
        seq![digit_char(n)]
    } else {
        decimal(n / 10).push(digit_char(n % 10))
    }
}

/// Decimal notation is a numeral, and reading it gives the number back.
pub proof fn law_decimal_reads_back(n: nat)
    ensures
        numeral(decimal(n)),
        numeral_value(decimal(n)) == n,
    decreases n,
{
    let last = digit_char(n % 10);
    assert(digit(last) && last as int - '0' as int == n % 10);
    if n < 10 {
        assert(decimal(n).drop_last() =~= Seq::<char>::empty());
        assert(decimal(n).last() == last);
        assert(numeral_value(decimal(n).drop_last()) == 0);
    } else {
        law_decimal_reads_back(n / 10);
        assert(decimal(n).drop_last() =~= decimal(n / 10));
        assert(decimal(n).last() == last);
        assert forall|i: int| 0 <= i < decimal(n).len() implies digit(#[trigger] decimal(n)[i]) by {
            if i < decimal(n).len() - 1 {
                assert(decimal(n)[i] == decimal(n / 10)[i]);
            }
        }
    }
}

/// `n` in decimal notation.
pub fn to_decimal(n: u64) -> (r: String)
    ensures
        r@ == decimal(n as nat),
    decreases n,
{
    let last: u64 = n % 10;
    let c: char = (('0' as u8) + (last as u8)) as char;
    let mut s = if n < 10 {
        String::new()
    } else {
        to_decimal(n / 10)
    };
    s.push(c);
    proof {
        assert(c == digit_char(last as nat));
        if n < 10 {
            assert(s@ =~= decimal(n as nat));
        }
    }
    s
}

/// Whether the characters of `needle` occur in `hay` in their order, with any others between.
pub open spec fn subsequence(needle: Seq<char>, hay: Seq<char>) -> bool
    decreases hay.len(),
{
    if needle.len() == 0 {
        true
    } else if hay.len() == 0 {
        false
    } else if needle[0] == hay[0] {
        subsequence(needle.drop_first(), hay.drop_first())
    } else {
        subsequence(needle, hay.drop_first())
    }
}

/// Whether `at` names, in rising order, a position in `hay` for each character of `needle`.
pub open spec fn placed_at(needle: Seq<char>, hay: Seq<char>, at: Seq<int>) -> bool {
    &&& at.len() == needle.len()
    &&& forall|i: int|
        0 <= i < at.len() ==> 0 <= #[trigger] at[i] < hay.len() && hay[at[i]] == needle[i]
    &&& forall|i: int, j: int| 0 <= i < j < at.len() ==> #[trigger] at[i] < #[trigger] at[j]
}

/// A text is a subsequence of another exactly when its characters can be placed in the other
/// at rising positions.
pub proof fn law_subsequence_is_placement(needle: Seq<char>, hay: Seq<char>)
    ensures
        subsequence(needle, hay) <==> exists|at: Seq<int>| placed_at(needle, hay, at),
    decreases hay.len(),
{
    if needle.len() == 0 {
        assert(placed_at(needle, hay, Seq::empty()));
    } else if hay.len() == 0 {
        if exists|at: Seq<int>| placed_at(needle, hay, at) {
            let at = choose|at: Seq<int>| placed_at(needle, hay, at);
            assert(0 <= at[0] < hay.len());
        }
    } else {
        let tail = hay.drop_first();
        let rest = if needle[0] == hay[0] {
            needle.drop_first()
        } else {
            needle
        };
        let used: int = if needle[0] == hay[0] {
            1
        } else {
            0
        };
        law_subsequence_is_placement(rest, tail);
        if subsequence(rest, tail) {
            let at = choose|at: Seq<int>| placed_at(rest, tail, at);
            let moved = Seq::new(
                needle.len(),
                |i: int|
                    if i < used {
                        0
                    } else {
                        at[i - used] + 1
                    },
            );
            assert forall|i: int| 0 <= i < moved.len() implies 0 <= #[trigger] moved[i] < hay.len()
                && hay[moved[i]] == needle[i] by {
                if i >= used {
                    assert(0 <= at[i - used] < tail.len());
                    assert(tail[at[i - used]] == hay[at[i - used] + 1]);
                }
            }
            assert(placed_at(needle, hay, moved));
        }
        if exists|at: Seq<int>| placed_at(needle, hay, at) {
            let at = choose|at: Seq<int>| placed_at(needle, hay, at);
            let moved = Seq::new(rest.len(), |i: int| at[i + used] - 1);
            assert(0 <= at[0] < hay.len() && hay[at[0]] == needle[0]);
            assert forall|i: int| 0 <= i < moved.len() implies 0 <= #[trigger] moved[i] < tail.len()
                && tail[moved[i]] == rest[i] by {
                assert(0 <= at[i + used] < hay.len());
                if i + used > 0 {
                    assert(at[0] < at[i + used]);
                }
            }
            assert(placed_at(rest, tail, moved));
        }
    }
}

/// Whether the characters of `needle` occur in `hay` in their order.
pub fn is_subsequence(needle: &str, hay: &str) -> (r: bool)
    ensures
        r == subsequence(needle@, hay@),
{
    let q = chars_of(needle);
    let n = chars_of(hay);
    let mut i: usize = 0;
    let mut j: usize = 0;
    assert(q@.skip(0) =~= q@);
    assert(n@.skip(0) =~= n@);
    while i < q.len() && j < n.len()
        invariant
            i <= q@.len(),
            j <= n@.len(),
            subsequence(q@.skip(i as int), n@.skip(j as int)) == subsequence(q@, n@),
        decreases n@.len() - j,
    {
        assert(n@.skip(j as int).drop_first() =~= n@.skip(j + 1));
        if q[i] == n[j] {
            assert(q@.skip(i as int).drop_first() =~= q@.skip(i + 1));
            i = i + 1;
        }
        j = j + 1;
    }
    i == q.len()
}

/// The fields `fs` with `sep` between them.
pub open spec fn joined(fs: Seq<Seq<char>>, sep: char) -> Seq<char>
    decreases fs.len(),
{
    if fs.len() == 0 {
        Seq::empty()
    } else if fs.len() == 1 {
        fs[0]
    } else {
        fs[0].push(sep) + joined(fs.drop_first(), sep)
    }
}

/// Splitting undoes joining: fields without the separator are read back, and the last one may
/// hold it.
pub proof fn law_fields_read_back(fs: Seq<Seq<char>>, sep: char)
    requires
        fs.len() >= 1,
        forall|i: int| 0 <= i < fs.len() - 1 ==> !(#[trigger] fs[i]).contains(sep),
    ensures
        fields(joined(fs, sep), sep, fs.len()) == fs,
    decreases fs.len(),
{
    if fs.len() == 1 {
        assert(fields(joined(fs, sep), sep, 1) =~= fs);
    } else {
        let rest = fs.drop_first();
        assert forall|i: int| 0 <= i < rest.len() - 1 implies !(#[trigger] rest[i]).contains(
            sep,
        ) by {
            assert(rest[i] == fs[i + 1]);
        }
        law_fields_read_back(rest, sep);
        let s = joined(fs, sep);
        let k = fs[0].len() as int;
        assert forall|j: int| 0 <= j < k implies !is_char(sep)(#[trigger] s[j]) by {
            assert(s[j] == fs[0][j]);
            assert(!fs[0].contains(sep));
        }
        seqs::lemma_first_index_is(s, is_char(sep), k);
        assert(s.take(k) =~= fs[0]);
        assert(s.skip(k + 1) =~= joined(rest, sep));
        assert(seq![fs[0]] + rest =~= fs);
    }
}

/// The lines `ls`, each with a line feed at its end.
pub open spec fn written_lines(ls: Seq<Seq<char>>) -> Seq<char>
    decreases ls.len(),
{
    if ls.len() == 0 {
        Seq::empty()
    } else {
        ls[0].push('\n') + written_lines(ls.drop_first())
    }
}

/// Whether a text can stand in a line of its own: it holds no line feed and does not end in a
/// carriage return.
pub open spec fn one_line(s: Seq<char>) -> bool {
    !s.contains('\n') && (s.len() == 0 || s.last() != '\r')
}

/// Lines are read back as they were written.
pub proof fn law_lines_read_back(ls: Seq<Seq<char>>)
    requires
        forall|i: int| 0 <= i < ls.len() ==> one_line(#[trigger] ls[i]),
    ensures
        lines(written_lines(ls)) == ls,
    decreases ls.len(),
{
    if ls.len() == 0 {
        assert(lines(written_lines(ls)) =~= ls);
    } else {
        let rest = ls.drop_first();
        assert forall|i: int| 0 <= i < rest.len() implies one_line(#[trigger] rest[i]) by {
            assert(rest[i] == ls[i + 1]);
        }
        law_lines_read_back(rest);
        let s = written_lines(ls);
        let k = ls[0].len() as int;
        assert(one_line(ls[0]));
        assert forall|j: int| 0 <= j < k implies !is_char('\n')(#[trigger] s[j]) by {
            assert(s[j] == ls[0][j]);
            assert(!ls[0].contains('\n'));
        }
        seqs::lemma_first_index_is(s, is_char('\n'), k);
        assert(s.take(k) =~= ls[0]);
        assert(s.skip(k + 1) =~= written_lines(rest));
        assert(strip_cr(ls[0]) == ls[0]);
        assert(seq![ls[0]] + rest =~= ls);
    }
}

/// Texts one after the other have the lines of the first and then those of the second, where the
/// first is empty or ends in a line feed.
pub proof fn law_lines_of_texts_in_turn(a: Seq<char>, b: Seq<char>)
    requires
        a.len() == 0 || a.last() == '\n',
    ensures
        lines(a + b) == lines(a) + lines(b),
    decreases a.len(),
{
    if a.len() == 0 {
        assert(a + b =~= b);
        assert(lines(a) + lines(b) =~= lines(b));
    } else {
        let s = a + b;
        seqs::lemma_first_index(a, is_char('\n'));
        assert(is_char('\n')(a[a.len() - 1]));
        let k = seqs::first_index(a, is_char('\n'))->0;
        assert forall|j: int| 0 <= j < k implies !is_char('\n')(#[trigger] s[j]) by {
            assert(s[j] == a[j]);
        }
        seqs::lemma_first_index_is(s, is_char('\n'), k);
        let rest = a.skip(k + 1);
        if rest.len() > 0 {
            assert(rest.last() == a.last());
        }
        law_lines_of_texts_in_turn(rest, b);
        assert(s.take(k) =~= a.take(k));
        assert(s.skip(k + 1) =~= rest + b);
        assert(lines(s) =~= lines(a) + lines(b));
    }
}

/// Lines with line feeds between them are read back, where the last one is not empty.
pub proof fn law_joined_lines_read_back(ls: Seq<Seq<char>>)
    requires
        forall|i: int| 0 <= i < ls.len() ==> one_line(#[trigger] ls[i]),
        ls.len() > 0 ==> ls.last().len() > 0,
    ensures
        lines(joined(ls, '\n')) == ls,
    decreases ls.len(),
{
    if ls.len() == 0 {
        assert(lines(joined(ls, '\n')) =~= ls);
    } else if ls.len() == 1 {
        let s = ls[0];
        assert(one_line(s));
        assert forall|j: int| 0 <= j < s.len() implies !is_char('\n')(#[trigger] s[j]) by {
            assert(!s.contains('\n'));
        }
        seqs::lemma_first_index_none(s, is_char('\n'));
        assert(lines(s) =~= ls);
    } else {
        let rest = ls.drop_first();
        assert forall|i: int| 0 <= i < rest.len() implies one_line(#[trigger] rest[i]) by {
            assert(rest[i] == ls[i + 1]);
        }
        law_joined_lines_read_back(rest);
        let head = seq![ls[0]];
        law_lines_read_back(head);
        assert(written_lines(head) =~= ls[0].push('\n')) by {
            reveal_with_fuel(written_lines, 2);
            assert(head.drop_first() =~= Seq::empty());
        }
        law_lines_of_texts_in_turn(ls[0].push('\n'), joined(rest, '\n'));
        assert(head + rest =~= ls);
    }
}

/// No line holds a line feed.
pub proof fn law_lines_hold_no_line_feed(s: Seq<char>)
    ensures
        forall|i: int| 0 <= i < lines(s).len() ==> !(#[trigger] lines(s)[i]).contains('\n'),
    decreases s.len(),
{
    if s.len() > 0 {
        seqs::lemma_first_index(s, is_char('\n'));
        match seqs::first_index(s, is_char('\n')) {
            Some(k) => {
                law_lines_hold_no_line_feed(s.skip(k + 1));
                let head = strip_cr(s.take(k));
                assert(!head.contains('\n')) by {
                    if head.contains('\n') {
                        let j = choose|j: int| 0 <= j < head.len() && head[j] == '\n';
                        assert(is_char('\n')(s[j]));
                    }
                }
                let rest = lines(s.skip(k + 1));
                assert forall|i: int| 0 <= i < lines(s).len() implies !(
                #[trigger] lines(s)[i]).contains('\n') by {
                    if i > 0 {
                        assert(lines(s)[i] == rest[i - 1]);
                    }
                }
            },
            None => {
                assert(!s.contains('\n')) by {
                    if s.contains('\n') {
                        let j = choose|j: int| 0 <= j < s.len() && s[j] == '\n';
                        assert(is_char('\n')(s[j]));
                    }
                }
            },
        }
    }
}

/// Trimming leaves nothing exactly of a blank text.
pub proof fn law_trim_of_blank(s: Seq<char>)
    ensures
        trim(s).len() == 0 <==> blank(s),
    decreases s.len(),
{
    if s.len() > 0 {
        if white_space(s[0]) {
            let t = s.drop_first();
            law_trim_of_blank(t);
            assert forall|i: int| 0 <= i < s.len() && blank(t) implies white_space(
                #[trigger] s[i],
            ) by {
                if i > 0 {
                    assert(s[i] == t[i - 1]);
                }
            }
            if blank(s) {
                assert forall|i: int| 0 <= i < t.len() implies white_space(#[trigger] t[i]) by {
                    assert(t[i] == s[i + 1]);
                }
            }
        } else {
            lemma_trim_end_keeps_first(s);
            assert(!white_space(s[0]));
        }
    }
}

/// Trimming at the end stops at the latest at a first character that is no white space.
proof fn lemma_trim_end_keeps_first(s: Seq<char>)
    requires
        s.len() > 0,
        !white_space(s[0]),
    ensures
        trim_end(s).len() > 0,
    decreases s.len(),
{
    if white_space(s.last()) {
        lemma_trim_end_keeps_first(s.drop_last());
    }
}

} // verus!
