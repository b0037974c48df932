use analyze_screen_sidecar::number::unit_literal;
use analyze_screen_sidecar::scan::{
    clip, cut_at, join, last_lines_first, replace, split_lines, strip_trailing, trim,
};
use analyze_screen_sidecar::text::{chars_of, decimal, parse_port, same_text, string_of};

#[test]
fn numbers_in_decimal() {
    assert_eq!(decimal(0), "0");
    assert_eq!(decimal(10), "10");
    assert_eq!(decimal(8787), "8787");
    assert_eq!(decimal(u64::MAX), "18446744073709551615");
}

#[test]
fn ports_are_read_back() {
    for p in [0u16, 1, 9, 10, 80, 8787, 65535] {
        assert_eq!(parse_port(&decimal(p as u64)), Some(p));
    }
    assert_eq!(parse_port("+0080"), Some(80));
    assert_eq!(parse_port("65536"), None);
    assert_eq!(parse_port("8x"), None);
    assert_eq!(parse_port("++8"), None);
}

#[test]
fn same_as_the_standard_library() {
    let samples = [
        "", " ", "a", " a b ", "\u{a0}x\u{3000}", "a\nb\r\nc", "\n\n", "x\n", "\u{200b}z\u{2003}",
        "path with {in} and {in}{in}", "{{in}}", "?q", "a?b?c", "///", "http://h/v1//",
    ];
    for s in samples {
        assert_eq!(trim(s), s.trim());
        assert_eq!(strip_trailing(s, '/'), s.trim_end_matches('/'));
        assert_eq!(cut_at(s, '?'), s.split('?').next().unwrap());
        assert_eq!(replace(s, "{in}", "OUT"), s.replace("{in}", "OUT"));
        assert_eq!(clip(s, 3), s.chars().take(3).collect::<String>());
        let expected: Vec<String> =
            s.lines().rev().map(str::trim).filter(|l| !l.is_empty()).map(str::to_string).collect();
        assert_eq!(last_lines_first(s), expected);
        let v = chars_of(s);
        assert_eq!(string_of(&v, 0, v.len()), s);
        assert!(same_text(s, s));
    }
    assert!(!same_text("a", "b"));
    assert_eq!(replace("aaa", "aa", "b"), "ba");
    assert_eq!(split_lines("a\n\nb"), vec!["a".to_string(), "".to_string(), "b".to_string()]);
}

#[test]
fn white_space_is_unicode_white_space() {
    for u in 0..0x11_0000u32 {
        if let Some(c) = char::from_u32(u) {
            assert_eq!(analyze_screen_sidecar::scan::space(c), c.is_whitespace());
        }
    }
}

#[test]
fn joining() {
    let v: Vec<String> = ["a", "b", "c"].iter().map(|s| s.to_string()).collect();
    assert_eq!(join(&v, "; "), "a; b; c");
    assert_eq!(join(&Vec::new(), "; "), "");
    assert_eq!(join(&vec!["x".to_string()], "; "), "x");
}

#[test]
fn unit_numbers() {
    for s in ["0", "0.0", "-0", "-0.0", "1", "1.0", "0.95", "1e0", "100e-2", "0.1e1", "5e-324", "0e999",
        "1e-99999999999999999999999999999999", "0.00001", "10E-1", "1000e-0003"] {
        assert!(unit_literal(s), "{s}");
    }
    for s in ["2", "1.1", "-1", "-0.5", "1.0000000000000000000000001", "1e1", "0.11e1", "101e-2",
        "1e99999999999999999999999999999999", "", ".", "1.", ".5", "e5", "1e", "1e+", "abc", "1x", "--1", "0x1"] {
        assert!(!unit_literal(s), "{s}");
    }
}
