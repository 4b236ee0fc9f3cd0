use netmon::text::{
    bytes_in, contains_text, control, first_line, nth_word, parse_u16, parse_unsigned,
    rsplit_once, same_text, signed_text, skip_empty_line, split, split_once, trim, unsigned_text,
    white_space,
};

#[test]
fn character_classes_are_those_of_the_standard_library() {
    for n in 0..=0x10_ffffu32 {
        if let Some(c) = char::from_u32(n) {
            assert_eq!(white_space(c), c.is_whitespace(), "{n:x}");
            assert_eq!(control(c), c.is_control(), "{n:x}");
        }
    }
}

const SAMPLES: [&str; 14] = [
    "",
    " ",
    "a",
    " a b ",
    "a,b,,c",
    "=a=b:",
    "host:1:2",
    "first\nsecond",
    "first\r\nsecond\n",
    "tail\r",
    "\u{3000}é\u{2028}x\u{85}",
    "GET / HTTP/1.1",
    "a\r\r\nb",
    "\n",
];

#[test]
fn text_functions_agree_with_the_standard_library() {
    for s in SAMPLES {
        assert_eq!(trim(s), s.trim(), "{s:?}");
        assert_eq!(bytes_in(s), s.len());
        assert_eq!(first_line(s), s.lines().next().unwrap_or_default(), "{s:?}");
        for c in [',', '=', ':', 'x'] {
            assert_eq!(split(s, c), s.split(c).collect::<Vec<_>>(), "{s:?}");
            assert_eq!(split_once(s, c), s.split_once(c), "{s:?}");
            assert_eq!(rsplit_once(s, c), s.rsplit_once(c), "{s:?}");
        }
        for n in 0..4 {
            assert_eq!(nth_word(s, n), s.split_whitespace().nth(n), "{s:?}");
        }
        for t in SAMPLES {
            assert_eq!(same_text(s, t), s == t);
            assert_eq!(contains_text(s, t), s.contains(t), "{s:?} {t:?}");
        }
    }
}

#[test]
fn numbers_agree_with_the_standard_library() {
    let samples = [
        "", "+", "-", "0", "00", "+7", "++7", "-7", " 7", "7 ", "65535", "65536", "1e3", "٣",
        "18446744073709551615", "18446744073709551616", "000000000000000000000000000001",
    ];
    for s in samples {
        assert_eq!(parse_u16(s), s.parse::<u16>().ok(), "{s:?}");
        assert_eq!(parse_unsigned(s, u64::MAX), s.parse::<u64>().ok(), "{s:?}");
    }
    for n in [0, 1, 9, 10, 65_535, 1_000_000, u64::MAX] {
        assert_eq!(unsigned_text(n), n.to_string());
    }
    for n in [0, -1, 7, -10, i64::MIN, i64::MAX] {
        assert_eq!(signed_text(n), n.to_string());
    }
}

#[test]
fn the_first_empty_line_is_skipped() {
    assert_eq!(skip_empty_line("a\r\nb\r\n\r\nc\n\nd"), "c\n\nd");
    assert_eq!(skip_empty_line("\nx"), "x");
    assert_eq!(skip_empty_line("\r\nx"), "x");
    assert_eq!(skip_empty_line("é\n\né"), "é");
    assert_eq!(skip_empty_line("a\n \nb\n"), "");
    assert_eq!(skip_empty_line("a\n\r"), "");
    assert_eq!(skip_empty_line(""), "");
}
