//! Which color a text on the command line stands for.
use vstd::prelude::*;

use crate::color;
use crate::color::TermColor;
use crate::text;

verus! {

/// A color that ratatui reads is taken as it is. Where it reads none, `colour` or `color` and a
/// number up to 255 behind it are that index.
pub proof fn law_colors_are_taken(value: Seq<char>, known: TermColor, digits: Seq<char>)
    ensures
        color::color_of(value, Some(known)) == Ok::<TermColor, Seq<char>>(known),
        text::unsigned_number(digits, 255) matches Some(n) ==> color::color_of(
            "colour"@ + digits,
            None,
        ) == Ok::<TermColor, Seq<char>>(TermColor::Indexed(n as u8)) && color::color_of(
            "color"@ + digits,
            None,
        ) == Ok::<TermColor, Seq<char>>(TermColor::Indexed(n as u8)),
{
    reveal_strlit("color");
    reveal_strlit("colour");
    let us = "color"@ + digits;
    let uk = "colour"@ + digits;
    assert(us.take(5) =~= "color"@ && us.skip(5) =~= digits);
    assert(uk.take(6) =~= "colour"@ && uk.skip(6) =~= digits);
    if text::unsigned_number(digits, 255) is Some && text::begins_with(us, "colour"@) {
        assert(us.take(6)[4] == "colour"@[4]);
        assert(us[4] == 'r');
    }
}

/// Where ratatui reads no color, a text is an index only in one of those two spellings; any other
/// text is refused, with the text quoted and with what was expected.
pub proof fn law_other_texts_are_refused(value: Seq<char>)
    ensures
        match color::color_of(value, None) {
            Ok(color) => exists|digits: Seq<char>|
                text::unsigned_number(digits, 255) is Some && color == TermColor::Indexed(
                    (#[trigger] text::unsigned_number(digits, 255))->0 as u8,
                ) && (value == "colour"@ + digits || value == "color"@ + digits),
            Err(message) => message == "invalid color "@ + text::debug_text(value)
                + "; expected a name (e.g. `yellow`), an index (`208` or `colour208`), or a hex value (`#rrggbb`)"@,
        },
{
    if color::color_of(value, None) is Ok {
        let n = if text::begins_with(value, "colour"@) {
            "colour"@.len() as int
        } else {
            "color"@.len() as int
        };
        let digits = value.skip(n);
        assert(value =~= value.take(n) + digits);
        assert(text::unsigned_number(digits, 255) is Some);
    }
}

/// A color on the command line is seen as it is, and so is what an error says.
pub proof fn law_color_result(known: TermColor, message: String)
    ensures
        color::color_result(Ok(known)) == Ok::<TermColor, Seq<char>>(known),
        color::color_result(Err(message)) == Err::<TermColor, Seq<char>>(message@),
{
}

} // verus!
