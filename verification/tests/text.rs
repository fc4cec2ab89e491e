use rugby_stats::text::{is_white_space_char, join2, join3, join5, parse_minute, trim};

#[test]
fn trim_strips_unicode_white_space() {
    assert_eq!(trim("  Storm  "), "Storm");
    assert_eq!(trim("\t\nA B\r"), "A B");
    assert_eq!(trim("\u{3000}名\u{a0}"), "名");
    assert_eq!(trim("   "), "");
    assert_eq!(trim(""), "");
    assert_eq!(trim("x"), "x");
}

#[test]
fn trim_agrees_with_std() {
    let samples = [
        "", " ", "a", " a", "a ", " a b ", "\u{85}x\u{2028}", "\u{200b}x", "\u{1680}\u{2000}y\u{200a}",
        "\u{feff}z", "é ", "\u{202f}\u{205f}w",
    ];
    for s in samples.iter() {
        assert_eq!(trim(s), s.trim(), "input {:?}", s);
    }
}

#[test]
fn white_space_matches_std() {
    for u in 0u32..0x3100 {
        if let Some(c) = char::from_u32(u) {
            assert_eq!(is_white_space_char(c), c.is_whitespace(), "char {:#x}", u);
        }
    }
}

#[test]
fn parse_minute_reads_decimal_numbers() {
    assert_eq!(parse_minute("12"), Some(12));
    assert_eq!(parse_minute("0"), Some(0));
    assert_eq!(parse_minute("007"), Some(7));
    assert_eq!(parse_minute("+7"), Some(7));
    assert_eq!(parse_minute("4294967295"), Some(4294967295));
    assert_eq!(parse_minute("4294967296"), None);
    assert_eq!(parse_minute("-1"), None);
    assert_eq!(parse_minute("-0"), None);
    assert_eq!(parse_minute(""), None);
    assert_eq!(parse_minute("+"), None);
    assert_eq!(parse_minute("++1"), None);
    assert_eq!(parse_minute("1 2"), None);
    assert_eq!(parse_minute("12a"), None);
    assert_eq!(parse_minute(" 12"), None);
    assert_eq!(parse_minute("١٢"), None);
}

#[test]
fn parse_minute_agrees_with_std() {
    let samples = [
        "", "0", "1", "+1", "-1", "99999999999", "000000000000004294967295", "4294967295",
        "4294967296", "12x", "x12", "+", "-", "+-1", "1_000", "٣",
    ];
    for s in samples.iter() {
        assert_eq!(parse_minute(s), s.parse::<u32>().ok(), "input {:?}", s);
    }
}

#[test]
fn joins_concatenate() {
    assert_eq!(join2("Tackle: ", "Storm"), "Tackle: Storm");
    assert_eq!(join3("Try scored by ", "Smith", "! (+4 pts)"), "Try scored by Smith! (+4 pts)");
    assert_eq!(join5("a", "b", "c", "d", "e"), "abcde");
}
