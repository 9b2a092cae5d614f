//! What the text functions come to, character by character.
use vstd::prelude::*;

use crate::seqs;
use crate::text;

verus! {

/// The texts of strings are the characters of each, in their order.
pub proof fn law_texts_are_the_characters(
    v: Seq<String>,
    i: int,
    s: Option<String>,
    t: Option<&str>,
)
    requires
        0 <= i < v.len(),
    ensures
        text::texts(v).len() == v.len(),
        text::texts(v)[i] == v[i]@,
        s is None ==> text::opt_text(s) is None,
        s is Some ==> text::opt_text(s) == Some(s->0@),
        t is None ==> text::opt_str(t) is None,
        t is Some ==> text::opt_str(t) == Some(t->0@),
{
}

/// No strings, no texts.
pub proof fn law_no_strings_no_texts()
    ensures
        text::texts(Seq::empty()).len() == 0,
{
}

/// Lower case changes the letters `A` to `Z` of an ASCII text, and nothing else.
pub proof fn law_lower_case(s: Seq<char>, i: int)
    requires
        forall|j: int| 0 <= j < s.len() ==> '\0' <= #[trigger] s[j] <= '\u{7f}',
        0 <= i < s.len(),
    ensures
        text::lowercase(s).len() == s.len(),
        'A' <= s[i] <= 'Z' ==> text::lowercase(s)[i] as int == s[i] as int + ('a' as int
            - 'A' as int),
        !('A' <= s[i] <= 'Z') ==> text::lowercase(s)[i] == s[i],
{
    assert(vstd::utf8::is_ascii_chars(s));
}

/// Bytes that are valid UTF-8 stand for the text they encode.
pub proof fn law_valid_bytes_are_decoded(bytes: Seq<u8>)
    requires
        vstd::utf8::valid_utf8(bytes),
    ensures
        text::utf8_text(bytes) == vstd::utf8::decode_utf8(bytes),
{
}

/// White space is what Unicode calls so.
pub proof fn law_white_space(c: char)
    ensures
        text::white_space(c) <==> {
            let n = c as int;
            ||| 9 <= n <= 13
            ||| n == 32
            ||| n == 0x85
            ||| n == 0xa0
            ||| n == 0x1680
            ||| 0x2000 <= n <= 0x200a
            ||| n == 0x2028
            ||| n == 0x2029
            ||| n == 0x202f
            ||| n == 0x205f
            ||| n == 0x3000
        },
{
}

/// A text up to its first line feed is its first line, less one carriage return at its end; what
/// follows the line feed holds the other lines. A text without a line feed is one line as it
/// stands, and the empty text has no lines.
pub proof fn law_lines_end_at_line_feeds(line: Seq<char>, rest: Seq<char>)
    requires
        forall|i: int| 0 <= i < line.len() ==> #[trigger] line[i] != '\n',
    ensures
        text::lines(Seq::empty()) == Seq::<Seq<char>>::empty(),
        line.len() > 0 ==> text::lines(line) == seq![line],
        text::lines(line + seq!['\n'] + rest) == seq![
            if line.len() > 0 && line[line.len() - 1] == '\r' {
                line.take(line.len() - 1)
            } else {
                line
            },
        ] + text::lines(rest),
{
    let newline = text::is_char('\n');
    seqs::lemma_first_index_none(line, newline);
    let s = line + seq!['\n'] + rest;
    let k = line.len() as int;
    assert forall|j: int| 0 <= j < k implies !newline(#[trigger] s[j]) by {
        assert(s[j] == line[j]);
    }
    assert(s[k] == '\n');
    seqs::lemma_first_index_is(s, newline, k);
    assert(s.take(k) =~= line);
    assert(s.skip(k + 1) =~= rest);
    assert(line.len() > 0 ==> line.drop_last() =~= line.take(line.len() - 1));
}

/// A text up to its first separator is its first field, and what follows the separator holds the
/// other fields. A text without a separator is one field, and so is any text once no more fields
/// than one are asked for.
pub proof fn law_fields_end_at_separators(
    field: Seq<char>,
    sep: char,
    rest: Seq<char>,
    limit: nat,
)
    requires
        forall|i: int| 0 <= i < field.len() ==> #[trigger] field[i] != sep,
        limit >= 1,
    ensures
        text::fields(field, sep, limit) == seq![field],
        text::fields(rest, sep, 1) == seq![rest],
        text::fields(field + seq![sep] + rest, sep, limit + 1) == seq![field] + text::fields(
            rest,
            sep,
            limit,
        ),
        text::fields(rest, sep, 0) == Seq::<Seq<char>>::empty(),
{
    let here = text::is_char(sep);
    seqs::lemma_first_index_none(field, here);
    let s = field + seq![sep] + rest;
    let k = field.len() as int;
    assert forall|j: int| 0 <= j < k implies !here(#[trigger] s[j]) by {
        assert(s[j] == field[j]);
    }
    assert(s[k] == sep);
    seqs::lemma_first_index_is(s, here, k);
    assert(s.take(k) =~= field);
    assert(s.skip(k + 1) =~= rest);
}

/// Trimming at the end takes off white space alone, and leaves none there.
pub proof fn law_trim_end(s: Seq<char>)
    ensures
        text::trim_end(s).len() <= s.len(),
        text::trim_end(s) == s.take(text::trim_end(s).len() as int),
        forall|i: int|
            text::trim_end(s).len() <= i < s.len() ==> text::white_space(#[trigger] s[i]),
        text::trim_end(s).len() > 0 ==> !text::white_space(s[text::trim_end(s).len() - 1]),
    decreases s.len(),
{
    if s.len() > 0 && text::white_space(s.last()) {
        let t = s.drop_last();
        law_trim_end(t);
        let n = text::trim_end(s).len() as int;
        assert(s.take(n) =~= t.take(n));
        assert forall|i: int| n <= i < s.len() implies text::white_space(#[trigger] s[i]) by {
            if i < t.len() {
                assert(s[i] == t[i]);
            }
        }
        if n > 0 {
            assert(s[n - 1] == t[n - 1]);
        }
    } else {
        assert(s.take(s.len() as int) =~= s);
    }
}

/// Trimming at the start takes off white space alone, and leaves none there.
pub proof fn law_trim_start(s: Seq<char>)
    ensures
        text::trim_start(s).len() <= s.len(),
        text::trim_start(s) == s.skip(s.len() - text::trim_start(s).len()),
        forall|i: int|
            0 <= i < s.len() - text::trim_start(s).len() ==> text::white_space(#[trigger] s[i]),
        text::trim_start(s).len() > 0 ==> !text::white_space(
            s[s.len() - text::trim_start(s).len()],
        ),
    decreases s.len(),
{
    if s.len() > 0 && text::white_space(s[0]) {
        let t = s.drop_first();
        law_trim_start(t);
        let n = s.len() - text::trim_start(s).len();
        assert(s.skip(n) =~= t.skip(n - 1));
        assert forall|i: int| 0 <= i < n implies text::white_space(#[trigger] s[i]) by {
            if i > 0 {
                assert(s[i] == t[i - 1]);
            }
        }
    } else {
        assert(s.skip(0) =~= s);
    }
}

/// Trimming keeps the part of a text from its first to its last character that is no white space,
/// and nothing of a text that has no such character.
pub proof fn law_trim(s: Seq<char>, from: int, to: int)
    requires
        0 <= from <= to <= s.len(),
        forall|i: int| 0 <= i < from ==> text::white_space(#[trigger] s[i]),
        forall|i: int| to <= i < s.len() ==> text::white_space(#[trigger] s[i]),
        from < to ==> !text::white_space(s[from]) && !text::white_space(s[to - 1]),
    ensures
        text::trim(s) == s.subrange(from, to),
        text::blank(s) <==> from == to,
{
    law_trim_start(s);
    let t = text::trim_start(s);
    law_trim_end(t);
    let n = s.len() - t.len();
    let e = text::trim_end(t);
    assert forall|i: int| 0 <= i < t.len() implies #[trigger] t[i] == s[n + i] by {}
    if from < to {
        assert(n == from) by {
            if n < from {
                assert(text::white_space(s[n]));
            }
            if from < n {
                assert(text::white_space(s[from]));
            }
        }
        assert(e.len() == to - from) by {
            if e.len() < to - from {
                assert(text::white_space(t[to - from - 1]));
            }
            if e.len() > to - from {
                assert(text::white_space(s[n + e.len() - 1]));
            }
        }
        assert(e =~= s.subrange(from, to));
    } else {
        assert forall|i: int| 0 <= i < s.len() implies text::white_space(#[trigger] s[i]) by {}
        assert(t.len() == 0);
        assert(e =~= s.subrange(from, to));
    }
}

/// A numeral is one or more of the digits `0` to `9`, and each further digit makes its value ten
/// times as large and adds its own.
pub proof fn law_numerals(s: Seq<char>, c: char)
    requires
        '0' <= c <= '9',
    ensures
        text::numeral(s) <==> s.len() > 0 && forall|i: int|
            0 <= i < s.len() ==> '0' <= #[trigger] s[i] <= '9',
        text::numeral_value(Seq::empty()) == 0,
        text::numeral_value(s.push(c)) == 10 * text::numeral_value(s) + (c as int - '0' as int),
{
    assert(s.push(c).drop_last() =~= s);
    assert(text::numeral(s) ==> forall|i: int| 0 <= i < s.len() ==> text::digit(#[trigger] s[i]));
    if s.len() > 0 && forall|i: int| 0 <= i < s.len() ==> '0' <= #[trigger] s[i] <= '9' {
        assert forall|i: int| 0 <= i < s.len() implies text::digit(#[trigger] s[i]) by {}
    }
}

/// A number is a numeral, or a `+` and a numeral, that stands for no more than the largest number
/// asked for.
pub proof fn law_unsigned_numbers(s: Seq<char>, max: nat)
    ensures
        ({
            let digits = if s.len() > 0 && s[0] == '+' {
                s.skip(1)
            } else {
                s
            };
            match text::unsigned_number(s, max) {
                Some(n) => text::numeral(digits) && n == text::numeral_value(digits) && n <= max,
                None => !text::numeral(digits) || text::numeral_value(digits) > max,
            }
        }),
{
    if s.len() > 0 {
        assert(s.drop_first() =~= s.skip(1));
    }
}

/// A signed number is a numeral, or a sign and a numeral, that stands for a number in the range of
/// `i64`.
pub proof fn law_signed_numbers(s: Seq<char>)
    ensures
        ({
            let signed = s.len() > 0 && (s[0] == '+' || s[0] == '-');
            let digits = if signed {
                s.skip(1)
            } else {
                s
            };
            let value = if s.len() > 0 && s[0] == '-' {
                -(text::numeral_value(digits) as int)
            } else {
                text::numeral_value(digits) as int
            };
            match text::signed_number(s) {
                Some(n) => text::numeral(digits) && n == value,
                None => !text::numeral(digits) || value < i64::MIN || value > i64::MAX,
            }
        }),
{
    if s.len() > 0 {
        assert(s.drop_first() =~= s.skip(1));
    }
}

/// Decimal notation has no leading zeros; with `law_decimal_reads_back` that is all there is to it.
pub proof fn law_decimal_has_no_leading_zeros(n: nat)
    ensures
        text::decimal(n).len() >= 1,
        text::decimal(n).len() > 1 ==> text::decimal(n)[0] != '0',
        forall|i: int|
            0 <= i < text::decimal(n).len() ==> '0' <= #[trigger] text::decimal(n)[i] <= '9',
        text::numeral_value(text::decimal(n)) == n,
    decreases n,
{
    text::law_decimal_reads_back(n);
    assert forall|i: int| 0 <= i < text::decimal(n).len() implies '0' <= #[trigger] text::decimal(
        n,
    )[i] <= '9' by {
        assert(text::digit(text::decimal(n)[i]));
    }
    if n >= 10 {
        law_decimal_has_no_leading_zeros(n / 10);
        assert(text::decimal(n)[0] == text::decimal(n / 10)[0]);
        if text::decimal(n / 10).len() == 1 && text::decimal(n / 10)[0] == '0' {
            text::law_decimal_reads_back(n / 10);
            let d = text::decimal(n / 10);
            law_numerals(Seq::empty(), '0');
            assert(d =~= Seq::<char>::empty().push('0'));
        }
    }
}

/// One text is a subsequence of another exactly when there are rising positions in the other, one
/// for each of its characters, that hold these characters.
pub proof fn law_subsequence(needle: Seq<char>, hay: Seq<char>)
    ensures
        text::subsequence(needle, hay) <==> exists|at: Seq<int>|
            #![trigger at.len()]
            at.len() == needle.len() && (forall|i: int|
                0 <= i < needle.len() ==> 0 <= #[trigger] at[i] < hay.len() && hay[at[i]]
                    == needle[i]) && (forall|i: int, j: int|
                0 <= i < j < needle.len() ==> #[trigger] at[i] < #[trigger] at[j]),
{
    text::law_subsequence_is_placement(needle, hay);
    if text::subsequence(needle, hay) {
        let at = choose|at: Seq<int>| text::placed_at(needle, hay, at);
        assert(at.len() == needle.len());
    }
    if exists|at: Seq<int>|
        #![trigger at.len()]
        at.len() == needle.len() && (forall|i: int|
            0 <= i < needle.len() ==> 0 <= #[trigger] at[i] < hay.len() && hay[at[i]] == needle[i])
            && (forall|i: int, j: int|
            0 <= i < j < needle.len() ==> #[trigger] at[i] < #[trigger] at[j]) {
        let at = choose|at: Seq<int>|
            #![trigger at.len()]
            at.len() == needle.len() && (forall|i: int|
                0 <= i < needle.len() ==> 0 <= #[trigger] at[i] < hay.len() && hay[at[i]]
                    == needle[i]) && (forall|i: int, j: int|
                0 <= i < j < needle.len() ==> #[trigger] at[i] < #[trigger] at[j]);
        assert(text::placed_at(needle, hay, at));
    }
}

/// A text begins with a prefix exactly when it holds the prefix's characters at its start.
pub proof fn law_prefixes(s: Seq<char>, prefix: Seq<char>)
    ensures
        text::begins_with(s, prefix) <==> prefix.len() <= s.len() && forall|i: int|
            0 <= i < prefix.len() ==> #[trigger] s[i] == prefix[i],
{
    if prefix.len() <= s.len() {
        let start = s.take(prefix.len() as int);
        if start == prefix {
            assert forall|i: int| 0 <= i < prefix.len() implies #[trigger] s[i] == prefix[i] by {
                assert(start[i] == prefix[i]);
            }
        }
        if forall|i: int| 0 <= i < prefix.len() ==> #[trigger] s[i] == prefix[i] {
            assert(start =~= prefix);
        }
    }
}

/// Joined fields have the separator between them and nowhere else; written lines have a line feed
/// behind each.
pub proof fn law_joined_and_written(first: Seq<char>, rest: Seq<Seq<char>>, sep: char)
    ensures
        text::joined(Seq::empty(), sep) == Seq::<char>::empty(),
        text::joined(seq![first], sep) == first,
        rest.len() > 0 ==> text::joined(seq![first] + rest, sep) == first + seq![sep]
            + text::joined(rest, sep),
        text::written_lines(Seq::empty()) == Seq::<char>::empty(),
        text::written_lines(seq![first] + rest) == first + seq!['\n'] + text::written_lines(rest),
{
    let all = seq![first] + rest;
    assert(all.drop_first() =~= rest);
    assert(first.push(sep) =~= first + seq![sep]);
    assert(first.push('\n') =~= first + seq!['\n']);
}

} // verus!
