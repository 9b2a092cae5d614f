use tmux_expose::color::{choose_color, parse_color, TermColor};

#[test]
fn parses_named_color() {
    assert_eq!(parse_color("cyan"), Ok(TermColor::Cyan));
}

#[test]
fn parses_indexed_color() {
    assert_eq!(parse_color("208"), Ok(TermColor::Indexed(208)));
}

#[test]
fn parses_all_color_options() {
    assert_eq!(parse_color("magenta"), Ok(TermColor::Magenta));
    assert_eq!(parse_color("green"), Ok(TermColor::Green));
    assert_eq!(parse_color("white"), Ok(TermColor::White));
}

#[test]
fn parses_hex_color() {
    assert_eq!(parse_color("#ff8700"), Ok(TermColor::Rgb(255, 135, 0)));
}

#[test]
fn parses_tmux_style_indexed_color() {
    // tmux spells indexed colors as `colour208`; ratatui only accepts `208`.
    assert_eq!(parse_color("colour208"), Ok(TermColor::Indexed(208)));
    assert_eq!(parse_color("color208"), Ok(TermColor::Indexed(208)));
    assert_eq!(parse_color("208"), Ok(TermColor::Indexed(208)));
}

#[test]
fn rejects_invalid_color() {
    assert!(parse_color("not-a-color").is_err());
    // `colour` prefix with a non-numeric / out-of-range suffix is still invalid.
    assert!(parse_color("colourize").is_err());
    assert!(parse_color("colour999").is_err());
}

#[test]
fn parses_agent_status_colors() {
    assert_eq!(parse_color("red"), Ok(TermColor::Red));
    assert_eq!(parse_color("colour208"), Ok(TermColor::Indexed(208)));
    assert_eq!(parse_color("#8be9fd"), Ok(TermColor::Rgb(139, 233, 253)));
}

#[test]
fn every_color_name_is_known() {
    let names = [
        ("reset", TermColor::Reset),
        ("black", TermColor::Black),
        ("red", TermColor::Red),
        ("green", TermColor::Green),
        ("yellow", TermColor::Yellow),
        ("blue", TermColor::Blue),
        ("magenta", TermColor::Magenta),
        ("cyan", TermColor::Cyan),
        ("gray", TermColor::Gray),
        ("darkgray", TermColor::DarkGray),
        ("lightred", TermColor::LightRed),
        ("lightgreen", TermColor::LightGreen),
        ("lightyellow", TermColor::LightYellow),
        ("lightblue", TermColor::LightBlue),
        ("lightmagenta", TermColor::LightMagenta),
        ("lightcyan", TermColor::LightCyan),
        ("white", TermColor::White),
        ("Bright Red", TermColor::LightRed),
        ("light-blue", TermColor::LightBlue),
        ("grey", TermColor::Gray),
    ];
    for (name, color) in names {
        assert_eq!(parse_color(name), Ok(color), "{name}");
    }
}

#[test]
fn every_index_reads_alike_in_every_spelling() {
    for index in 0..=255u8 {
        let color = Ok(TermColor::Indexed(index));
        assert_eq!(parse_color(&format!("{index}")), color);
        assert_eq!(parse_color(&format!("color{index}")), color);
        assert_eq!(parse_color(&format!("colour{index}")), color);
    }
}

#[test]
fn an_invalid_color_is_quoted() {
    assert_eq!(
        parse_color("a \"b\"\n"),
        Err(
            "invalid color \"a \\\"b\\\"\\n\"; expected a name (e.g. `yellow`), an index (`208` or `colour208`), or a hex value (`#rrggbb`)"
                .to_string()
        )
    );
    assert_eq!(
        parse_color(""),
        Err(
            "invalid color \"\"; expected a name (e.g. `yellow`), an index (`208` or `colour208`), or a hex value (`#rrggbb`)"
                .to_string()
        )
    );
}

#[test]
fn edges_of_indexed_colors() {
    assert_eq!(parse_color("+7"), Ok(TermColor::Indexed(7)));
    assert_eq!(parse_color("colour+7"), Ok(TermColor::Indexed(7)));
    assert_eq!(parse_color("007"), Ok(TermColor::Indexed(7)));
    assert!(parse_color("256").is_err());
    assert!(parse_color("-1").is_err());
    assert!(parse_color("colour").is_err());
    assert!(parse_color("color").is_err());
    assert!(parse_color("Colour7").is_err());
    assert!(parse_color("color red").is_err());
    assert!(parse_color("#ff87").is_err());
}

#[test]
fn a_known_color_is_taken_as_it_is() {
    assert_eq!(choose_color("colour5", Some(TermColor::Red)), Ok(TermColor::Red));
    assert_eq!(choose_color("colour5", None), Ok(TermColor::Indexed(5)));
    assert!(choose_color("5", None).is_err());
}

#[test]
fn hex_values_are_read_in_either_case() {
    assert_eq!(parse_color("#FF0000"), Ok(TermColor::Rgb(255, 0, 0)));
    assert_eq!(parse_color("#aBcDeF"), Ok(TermColor::Rgb(171, 205, 239)));
    assert_eq!(parse_color("#090a0F"), Ok(TermColor::Rgb(9, 10, 15)));
    assert!(parse_color("#gg0000").is_err());
    assert!(parse_color("ff0000").is_err());
    for value in 0..=255u8 {
        assert_eq!(
            parse_color(&format!("#{value:02x}00{value:02X}")),
            Ok(TermColor::Rgb(value, 0, value))
        );
    }
}

/// The color of a bare name, put together from the parts of the name.
fn shade(name: &str) -> Option<TermColor> {
    let gray = |word: &str| ["gray", "grey", "silver"].contains(&word);
    let light = name.strip_prefix("light").or_else(|| name.strip_prefix("bright"));
    if let Some(word) = light {
        return match word {
            "red" => Some(TermColor::LightRed),
            "green" => Some(TermColor::LightGreen),
            "yellow" => Some(TermColor::LightYellow),
            "blue" => Some(TermColor::LightBlue),
            "magenta" => Some(TermColor::LightMagenta),
            "cyan" => Some(TermColor::LightCyan),
            "black" => Some(TermColor::DarkGray),
            "white" => Some(TermColor::White),
            word if gray(word) => Some(TermColor::White),
            _ => None,
        };
    }
    if let Some(word) = name.strip_prefix("dark") {
        return if gray(word) { Some(TermColor::DarkGray) } else { None };
    }
    match name {
        "reset" => Some(TermColor::Reset),
        "black" => Some(TermColor::Black),
        "red" => Some(TermColor::Red),
        "green" => Some(TermColor::Green),
        "yellow" => Some(TermColor::Yellow),
        "blue" => Some(TermColor::Blue),
        "magenta" => Some(TermColor::Magenta),
        "cyan" => Some(TermColor::Cyan),
        "white" => Some(TermColor::White),
        name if gray(name) => Some(TermColor::Gray),
        _ => None,
    }
}

#[test]
fn color_names_are_read_part_by_part() {
    let parts = [
        "", "light", "bright", "dark", "gray", "grey", "silver", "black", "white", "red", "green",
        "yellow", "blue", "magenta", "cyan", "reset", "b", "l", "g", "ht", "ray",
    ];
    for a in parts {
        for b in parts {
            for c in parts {
                for d in ["", "gray", "grey", "white", "black", "red", "light"] {
                    let name = format!("{a}{b}{c}{d}");
                    assert_eq!(parse_color(&name).ok(), shade(&name), "{name}");
                }
            }
        }
    }
}

#[test]
fn separators_and_letter_case_do_not_count() {
    for name in ["light-red", "LIGHT_RED", " bright Red ", "l-i-g-h-t_red", "b r i g h t red"] {
        assert_eq!(parse_color(name), Ok(TermColor::LightRed), "{name}");
    }
    assert_eq!(parse_color("Dark--Silver"), Ok(TermColor::DarkGray));
    assert_eq!(parse_color("blac\u{212a}"), Ok(TermColor::Black));
    assert!(parse_color("light.red").is_err());
    assert!(parse_color("dark red").is_err());
    assert!(parse_color("light reset").is_err());
    assert!(parse_color("2 08").is_err());
    assert!(parse_color("- _").is_err());
}

#[test]
fn hex_pairs_may_have_a_plus() {
    assert_eq!(parse_color("#+f+A+0"), Ok(TermColor::Rgb(15, 10, 0)));
    assert!(parse_color("#f+f+f+").is_err());
    assert!(parse_color("#-f-f-f").is_err());
    assert!(parse_color("#++++++").is_err());
    assert!(parse_color("#\u{e9}0000").is_err());
    assert!(parse_color("#\u{e9}00000").is_err());
    assert!(parse_color("#0\u{e9}000").is_err());
    assert!(parse_color("#ff 000").is_err());
}
