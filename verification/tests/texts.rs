use tmux_expose::text::{
    after_prefix, contains_char, is_blank, is_subsequence, is_white_space, parse_i64, parse_u32,
    parse_u8, split_fields, split_lines, to_decimal, trimmed, trimmed_end,
};

const SAMPLES: [&str; 20] = [
    "",
    "\n",
    "\r\n",
    "\r",
    "one",
    "one\n",
    "one\r\n",
    "one\r",
    "one\r\r\n",
    "one\n\ntwo",
    "one\r\n\r\ntwo\n\n",
    "\n\n",
    "  spaced out \t ",
    "\u{2003}wide\u{a0}",
    "a:b:c:d",
    ":::",
    "a:",
    ":a",
    "caf\u{e9}: \u{1f980}",
    "\u{feff}mark \u{200b}",
];

#[test]
fn white_space_is_what_unicode_calls_so() {
    for c in '\0'..=char::MAX {
        assert_eq!(is_white_space(c), c.is_whitespace(), "{c:?}");
    }
}

#[test]
fn lines_end_at_line_feeds() {
    for sample in SAMPLES {
        let expected: Vec<String> = sample.lines().map(str::to_string).collect();
        assert_eq!(split_lines(sample), expected, "{sample:?}");
    }
}

#[test]
fn fields_stop_at_the_limit() {
    for sample in SAMPLES {
        for limit in 1..5 {
            let expected: Vec<String> = sample.splitn(limit, ':').map(str::to_string).collect();
            assert_eq!(split_fields(sample, ':', limit), expected, "{sample:?} {limit}");
        }
    }
}

#[test]
fn trimming_takes_white_space_off() {
    for sample in SAMPLES {
        assert_eq!(trimmed(sample), sample.trim(), "{sample:?}");
        assert_eq!(trimmed_end(sample), sample.trim_end(), "{sample:?}");
        assert_eq!(is_blank(sample), sample.trim().is_empty(), "{sample:?}");
        assert_eq!(contains_char(sample, ':'), sample.contains(':'), "{sample:?}");
    }
}

#[test]
fn numbers_are_read_within_their_range() {
    let samples = [
        "",
        "0",
        "7",
        "+7",
        "-7",
        "-0",
        "+",
        "-",
        "++7",
        "+-7",
        "007",
        "255",
        "256",
        "4294967295",
        "4294967296",
        "9223372036854775807",
        "9223372036854775808",
        "-9223372036854775808",
        "-9223372036854775809",
        "99999999999999999999999999",
        "-99999999999999999999999999",
        "1 ",
        " 1",
        "1a",
        "\u{0663}",
        "1_000",
    ];
    for sample in samples {
        assert_eq!(parse_u8(sample), sample.parse::<u8>().ok(), "{sample:?}");
        assert_eq!(parse_u32(sample), sample.parse::<u32>().ok(), "{sample:?}");
        assert_eq!(parse_i64(sample), sample.parse::<i64>().ok(), "{sample:?}");
    }
}

#[test]
fn numbers_are_written_in_decimal() {
    for n in [0, 1, 9, 10, 99, 100, 1700000000, u64::MAX - 1, u64::MAX] {
        assert_eq!(to_decimal(n), n.to_string());
    }
    assert_eq!(parse_i64(&to_decimal(1700000000)), Some(1700000000));
}

#[test]
fn prefixes_are_taken_off() {
    assert_eq!(after_prefix("colour208", "colour"), Some("208".to_string()));
    assert_eq!(after_prefix("color208", "colour"), None);
    assert_eq!(after_prefix("col", "colour"), None);
    assert_eq!(after_prefix("abc", ""), Some("abc".to_string()));
    assert_eq!(after_prefix("abc", "abc"), Some(String::new()));
}

#[test]
fn subsequences_keep_their_order() {
    assert!(is_subsequence("", ""));
    assert!(is_subsequence("", "abc"));
    assert!(is_subsequence("ac", "abc"));
    assert!(is_subsequence("abc", "abc"));
    assert!(!is_subsequence("ca", "abc"));
    assert!(!is_subsequence("aa", "abc"));
    assert!(!is_subsequence("abcd", "abc"));
}
