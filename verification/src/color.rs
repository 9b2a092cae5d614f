//! Color names on the command line.
use std::str::FromStr;

use ratatui::style::Color;
use vstd::prelude::*;

use crate::seqs;
use crate::text;

verus! {

/// A color of the terminal.
#[derive(Debug, Clone, Copy, PartialEq, Eq, Structural)]
pub enum TermColor {
    Reset,
    Black,
    Red,
    Green,
    Yellow,
    Blue,
    Magenta,
    Cyan,
    Gray,
    DarkGray,
    LightRed,
    LightGreen,
    LightYellow,
    LightBlue,
    LightMagenta,
    LightCyan,
    White,
    Rgb(u8, u8, u8),
    Indexed(u8),
}

/// Whether a name is one of the names of gray.
pub open spec fn gray_name(name: Seq<char>) -> bool {
    name == "gray"@ || name == "grey"@ || name == "silver"@
}

/// The color that a name without `light`, `bright` or `dark` stands for.
pub open spec fn base_color(name: Seq<char>) -> Option<TermColor> {
    if name == "reset"@ {
        Some(TermColor::Reset)
    } else if name == "black"@ {
        Some(TermColor::Black)
    } else if name == "red"@ {
        Some(TermColor::Red)
    } else if name == "green"@ {
        Some(TermColor::Green)
    } else if name == "yellow"@ {
        Some(TermColor::Yellow)
    } else if name == "blue"@ {
        Some(TermColor::Blue)
    } else if name == "magenta"@ {
        Some(TermColor::Magenta)
    } else if name == "cyan"@ {
        Some(TermColor::Cyan)
    } else if name == "white"@ {
        Some(TermColor::White)
    } else if gray_name(name) {
        Some(TermColor::Gray)
    } else {
        None
    }
}

/// The light variant of the color that a name stands for: light black is dark gray, and light gray
/// and light white are white.
pub open spec fn light_color(name: Seq<char>) -> Option<TermColor> {
    if name == "red"@ {
        Some(TermColor::LightRed)
    } else if name == "green"@ {
        Some(TermColor::LightGreen)
    } else if name == "yellow"@ {
        Some(TermColor::LightYellow)
    } else if name == "blue"@ {
        Some(TermColor::LightBlue)
    } else if name == "magenta"@ {
        Some(TermColor::LightMagenta)
    } else if name == "cyan"@ {
        Some(TermColor::LightCyan)
    } else if name == "black"@ {
        Some(TermColor::DarkGray)
    } else if name == "white"@ || gray_name(name) {
        Some(TermColor::White)
    } else {
        None
    }
}

/// The color that a name in lower case and without separators stands for. `light` and `bright`
/// both stand for the light variant; of the dark ones there is only gray.
pub open spec fn named_color(name: Seq<char>) -> Option<TermColor> {
    if text::begins_with(name, "light"@) {
        light_color(name.skip("light"@.len() as int))
    } else if text::begins_with(name, "bright"@) {
        light_color(name.skip("bright"@.len() as int))
    } else if text::begins_with(name, "dark"@) {
        if gray_name(name.skip("dark"@.len() as int)) {
            Some(TermColor::DarkGray)
        } else {
            None
        }
    } else {
        base_color(name)
    }
}

/// The predicate of not being a separator in a color name.
pub open spec fn no_separator() -> spec_fn(char) -> bool {
    |c: char| c != ' ' && c != '-' && c != '_'
}

/// A text in lower case and without separators.
pub open spec fn bare(value: Seq<char>) -> Seq<char> {
    text::lowercase(value).filter(no_separator())
}

/// Whether a character is a hexadecimal digit, in lower or upper case.
pub open spec fn hex_digit(c: char) -> bool {
    '0' <= c <= '9' || 'a' <= c <= 'f' || 'A' <= c <= 'F'
}

/// The number that a hexadecimal digit stands for.
pub open spec fn hex_value(c: char) -> int {
    if c <= '9' {
        c as int - '0' as int
    } else if c <= 'F' {
        c as int - 'A' as int + 10
    } else {
        c as int - 'a' as int + 10
    }
}

/// The number that two characters stand for: two hexadecimal digits, or a `+` and one.
pub open spec fn hex_pair(high: char, low: char) -> Option<u8> {
    if hex_digit(high) && hex_digit(low) {
        Some((16 * hex_value(high) + hex_value(low)) as u8)
    } else if high == '+' && hex_digit(low) {
        Some(hex_value(low) as u8)
    } else {
        None
    }
}

/// The color that a text of the form `#rrggbb` stands for.
pub open spec fn hex_color(value: Seq<char>) -> Option<TermColor> {
    if value.len() == 7 && value[0] == '#' {
        match (
            hex_pair(value[1], value[2]),
            hex_pair(value[3], value[4]),
            hex_pair(value[5], value[6]),
        ) {
            (Some(red), Some(green), Some(blue)) => Some(TermColor::Rgb(red, green, blue)),
            _ => None,
        }
    } else {
        None
    }
}

/// The color that ratatui reads from a text: a color name, whatever its letter case and its
/// separators, a number up to 255, or a text of the form `#rrggbb`.
pub open spec fn known_color(value: Seq<char>) -> Option<TermColor> {
    match named_color(bare(value)) {
        Some(color) => Some(color),
        None => match text::unsigned_number(value, u8::MAX as nat) {
            Some(index) => Some(TermColor::Indexed(index as u8)),
            None => hex_color(value),
        },
    }
}

/// Calls `<ratatui::style::Color as FromStr>::from_str` and answers the color it reads, if it
/// reads one. Spaces, `-` and `_` in a color name do not count, nor does letter case: the text is
/// put in lower case with `str::to_lowercase` first. `bright` is `light`, and gray may be called
/// `grey` or `silver`. A text that is no color name may be a number up to 255 or three
/// hexadecimal pairs behind a `#`; any other text is no color.
#[verifier::external_body]
fn read_ratatui_color(value: &str) -> (r: Option<TermColor>)
    ensures
        r == known_color(value@),
{
    Some(match Color::from_str(value).ok()? {
        Color::Reset => TermColor::Reset, Color::Black => TermColor::Black,
        Color::Red => TermColor::Red, Color::Green => TermColor::Green,
        Color::Yellow => TermColor::Yellow, Color::Blue => TermColor::Blue,
        Color::Magenta => TermColor::Magenta, Color::Cyan => TermColor::Cyan,
        Color::Gray => TermColor::Gray, Color::DarkGray => TermColor::DarkGray,
        Color::LightRed => TermColor::LightRed, Color::LightGreen => TermColor::LightGreen,
        Color::LightYellow => TermColor::LightYellow, Color::LightBlue => TermColor::LightBlue,
        Color::LightMagenta => TermColor::LightMagenta, Color::LightCyan => TermColor::LightCyan,
        Color::White => TermColor::White, Color::Rgb(r, g, b) => TermColor::Rgb(r, g, b),
        Color::Indexed(i) => TermColor::Indexed(i)
    })
}

/// The index in tmux's spelling of an indexed color, such as `colour208` or `color208`.
pub open spec fn tmux_index(value: Seq<char>) -> Option<nat> {
    if text::begins_with(value, "colour"@) {
        text::unsigned_number(value.skip("colour"@.len() as int), u8::MAX as nat)
    } else if text::begins_with(value, "color"@) {
        text::unsigned_number(value.skip("color"@.len() as int), u8::MAX as nat)
    } else {
        None
    }
}

/// What a text is answered that is no color.
pub open spec fn invalid_color(value: Seq<char>) -> Seq<char> {
    "invalid color "@ + text::debug_text(value)
        + "; expected a name (e.g. `yellow`), an index (`208` or `colour208`), or a hex value (`#rrggbb`)"@
}

/// The color that a text stands for, where `known` is the color that ratatui reads from it.
pub open spec fn color_of(value: Seq<char>, known: Option<TermColor>) -> Result<
    TermColor,
    Seq<char>,
> {
    match known {
        Some(color) => Ok(color),
        None => match tmux_index(value) {
            Some(index) => Ok(TermColor::Indexed(index as u8)),
            None => Err(invalid_color(value)),
        },
    }
}

/// What the color is, or what the error says.
pub open spec fn color_result(r: Result<TermColor, String>) -> Result<TermColor, Seq<char>> {
    match r {
        Ok(color) => Ok(color),
        Err(message) => Err(message@),
    }
}

/// The color that `value` stands for, where `known` is the color that ratatui reads from it.
/// Beside what ratatui knows, tmux-style indexed colors such as `colour208` / `color208` are
/// accepted.
pub fn choose_color(value: &str, known: Option<TermColor>) -> (r: Result<TermColor, String>)
    ensures
        color_result(r) == color_of(value@, known),
{
    if let Some(color) = known {
        return Ok(color);
    }
    let digits: Option<String> = match text::after_prefix(value, "colour") {
        Some(digits) => Some(digits),
        None => text::after_prefix(value, "color"),
    };
    if let Some(digits) = digits {
        if let Some(index) = text::parse_u8(digits.as_str()) {
            return Ok(TermColor::Indexed(index));
        }
    }
    let mut message = "invalid color ".to_string();
    message.append(text::debug_quoted(value).as_str());
    message.append(
        "; expected a name (e.g. `yellow`), an index (`208` or `colour208`), or a hex value (`#rrggbb`)",
    );
    Err(message)
}

/// Reads a color from the command line.
pub fn parse_color(value: &str) -> (r: Result<TermColor, String>)
    ensures
        color_result(r) == color_of(value@, known_color(value@)),
{
    let known = read_ratatui_color(value);
    choose_color(value, known)
}

/// A text of lower-case letters and digits is bare already.
proof fn lemma_bare(value: Seq<char>)
    requires
        forall|i: int|
            0 <= i < value.len() ==> 'a' <= #[trigger] value[i] <= 'z' || text::digit(value[i]),
    ensures
        bare(value) == value,
{
    assert(vstd::utf8::is_ascii_chars(value)) by {
        assert forall|i: int| 0 <= i < value.len() implies '\0' <= #[trigger] value[i]
            <= '\u{7f}' by {}
    }
    assert(text::lowercase(value) =~= value);
    seqs::lemma_filter_all(value, no_separator());
}

/// A color name begins with a letter, and not with `co`.
proof fn lemma_names_begin(name: Seq<char>)
    requires
        named_color(name) is Some,
    ensures
        name.len() > 1,
        'a' <= name[0] <= 'z',
        name[0] == 'c' ==> name[1] == 'y',
{
    reveal_strlit("black");
    reveal_strlit("blue");
    reveal_strlit("cyan");
    reveal_strlit("gray");
    reveal_strlit("green");
    reveal_strlit("grey");
    reveal_strlit("magenta");
    reveal_strlit("red");
    reveal_strlit("reset");
    reveal_strlit("silver");
    reveal_strlit("white");
    reveal_strlit("yellow");
    reveal_strlit("light");
    reveal_strlit("bright");
    reveal_strlit("dark");
    if text::begins_with(name, "light"@) {
        assert(name.take(5)[0] == 'l');
    } else if text::begins_with(name, "bright"@) {
        assert(name.take(6)[0] == 'b');
    } else if text::begins_with(name, "dark"@) {
        assert(name.take(4)[0] == 'd');
    }
}

/// An index is read the same way in all its spellings: as `208`, as `color208` and as
/// `colour208`.
pub proof fn law_index_spellings_agree(index: u8)
    ensures
        ({
            let digits = text::decimal(index as nat);
            let color = Ok::<TermColor, Seq<char>>(TermColor::Indexed(index));
            &&& color_of(digits, known_color(digits)) == color
            &&& color_of("color"@ + digits, known_color("color"@ + digits)) == color
            &&& color_of("colour"@ + digits, known_color("colour"@ + digits)) == color
        }),
{
    reveal_strlit("color");
    reveal_strlit("colour");
    let digits = text::decimal(index as nat);
    text::law_decimal_reads_back(index as nat);
    let us = "color"@ + digits;
    let uk = "colour"@ + digits;
    assert(text::digit(digits[0]));
    assert(us[0] == 'c' && us[1] == 'o' && !text::digit(us[0]));
    assert(uk[0] == 'c' && uk[1] == 'o' && !text::digit(uk[0]));
    lemma_bare(digits);
    lemma_bare(us);
    lemma_bare(uk);
    if named_color(digits) is Some {
        lemma_names_begin(digits);
    }
    if named_color(us) is Some {
        lemma_names_begin(us);
    }
    if named_color(uk) is Some {
        lemma_names_begin(uk);
    }
    assert(us.take(5) =~= "color"@ && us.skip(5) =~= digits);
    assert(uk.take(6) =~= "colour"@ && uk.skip(6) =~= digits);
    assert(!text::begins_with(us, "colour"@)) by {
        if us.len() >= 6 {
            assert(us.take(6)[4] == 'r' && "colour"@[4] == 'u');
        }
    }
}

/// A color name in lower case and without separators is read as it stands.
pub proof fn law_names_are_read(name: Seq<char>)
    requires
        named_color(name) is Some,
        forall|i: int| 0 <= i < name.len() ==> 'a' <= #[trigger] name[i] <= 'z',
    ensures
        color_of(name, known_color(name)) == Ok::<TermColor, Seq<char>>(named_color(name)->0),
{
    lemma_bare(name);
}

/// Separators in a color name in ASCII do not count, wherever they stand.
pub proof fn law_separators_do_not_count(before: Seq<char>, separator: char, after: Seq<char>)
    requires
        vstd::utf8::is_ascii_chars(before + after),
        !no_separator()(separator),
    ensures
        bare(before.push(separator) + after) == bare(before + after),
{
    let with = before.push(separator) + after;
    let without = before + after;
    assert(vstd::utf8::is_ascii_chars(with)) by {
        assert forall|i: int| 0 <= i < with.len() implies '\0' <= #[trigger] with[i]
            <= '\u{7f}' by {
            if i < before.len() {
                assert(with[i] == without[i]);
            } else if i > before.len() {
                assert(with[i] == without[i - 1]);
            }
        }
    }
    let b = text::ascii_lowercase(before);
    let a = text::ascii_lowercase(after);
    assert(text::lowercase(with) =~= b.push(separator) + a);
    assert(text::lowercase(without) =~= b + a);
    Seq::filter_distributes_over_add(b.push(separator), a, no_separator());
    Seq::filter_distributes_over_add(b, a, no_separator());
    b.lemma_filter_push(separator, no_separator());
}

/// Letter case in a color name in ASCII does not count.
pub proof fn law_case_does_not_count(value: Seq<char>)
    requires
        vstd::utf8::is_ascii_chars(value),
    ensures
        bare(text::lowercase(value)) == bare(value),
{
    let lower = text::ascii_lowercase(value);
    assert(vstd::utf8::is_ascii_chars(lower)) by {
        assert forall|i: int| 0 <= i < lower.len() implies '\0' <= #[trigger] lower[i]
            <= '\u{7f}' by {
            assert('\0' <= value[i] <= '\u{7f}');
        }
    }
    assert(text::lowercase(lower) =~= lower) by {
        assert forall|i: int| 0 <= i < lower.len() implies text::ascii_lower(lower[i])
            == #[trigger] lower[i] by {
            assert('\0' <= value[i] <= '\u{7f}');
        }
    }
}

/// A text of the form `#rrggbb`, in lower or upper case, is read as those three values.
pub proof fn law_hex_values_are_read(value: Seq<char>)
    requires
        hex_color(value) is Some,
    ensures
        color_of(value, known_color(value)) == Ok::<TermColor, Seq<char>>(hex_color(value)->0),
{
    let p = no_separator();
    assert(vstd::utf8::is_ascii_chars(value));
    let lower = text::lowercase(value);
    assert(lower[0] == '#');
    lower.take(1).lemma_filter_monotone(lower, p);
    assert(lower.take(1) =~= seq!['#']);
    seqs::lemma_filter_all(seq!['#'], p);
    assert(bare(value)[0] == lower.take(1).filter(p)[0]);
    if named_color(bare(value)) is Some {
        lemma_names_begin(bare(value));
    }
    assert(!text::digit(value[0]));
}

/// The hexadecimal digit for a number below 16.
pub open spec fn hex_char(n: int) -> char {
    if n < 10 {
        ('0' as int + n) as char
    } else {
        ('a' as int + n - 10) as char
    }
}

/// The text `#rrggbb` for a color.
pub open spec fn hex_text(red: u8, green: u8, blue: u8) -> Seq<char> {
    seq![
        '#',
        hex_char(red as int / 16),
        hex_char(red as int % 16),
        hex_char(green as int / 16),
        hex_char(green as int % 16),
        hex_char(blue as int / 16),
        hex_char(blue as int % 16),
    ]
}

/// A color written as `#rrggbb` is read back.
pub proof fn law_hex_values_read_back(red: u8, green: u8, blue: u8)
    ensures
        ({
            let value = hex_text(red, green, blue);
            color_of(value, known_color(value)) == Ok::<TermColor, Seq<char>>(
                TermColor::Rgb(red, green, blue),
            )
        }),
{
    let value = hex_text(red, green, blue);
    assert(hex_color(value) == Some(TermColor::Rgb(red, green, blue)));
    law_hex_values_are_read(value);
}

} // verus!
