use media_master::text::{decimal_string, first_line, push_text, str_eq, trim, white_space};

#[test]
fn decimal_strings() {
    assert_eq!(decimal_string(0), "0");
    assert_eq!(decimal_string(7), "7");
    assert_eq!(decimal_string(23), "23");
    assert_eq!(decimal_string(51), "51");
    assert_eq!(decimal_string(100), "100");
    assert_eq!(decimal_string(u32::MAX), "4294967295");
    for n in [1u32, 9, 10, 64, 999, 1000, 123456] {
        assert_eq!(decimal_string(n), n.to_string());
        assert_eq!(decimal_string(n).parse::<u32>().unwrap(), n);
    }
}

#[test]
fn first_lines() {
    assert_eq!(first_line("h264"), "h264");
    assert_eq!(first_line("h264\naac"), "h264");
    assert_eq!(first_line("h264\r\naac"), "h264");
    assert_eq!(first_line(""), "");
    assert_eq!(first_line("\nx"), "");
    assert_eq!(first_line("a\rb\nc"), "a\rb");
    for s in ["one\ntwo\nthree", "x\r\ny", "plain"] {
        assert_eq!(first_line(s), s.lines().next().unwrap());
    }
}

#[test]
fn string_equality() {
    assert!(str_eq("copy", "copy"));
    assert!(!str_eq("copy", "Copy"));
    assert!(!str_eq("copy", "cop"));
    assert!(str_eq("", ""));
}

#[test]
fn pushing_text() {
    let mut v: Vec<String> = vec!["a".to_string()];
    push_text(&mut v, "b");
    assert_eq!(v, vec!["a".to_string(), "b".to_string()]);
}

#[test]
fn trimming() {
    assert_eq!(trim("  h264 \n"), "h264");
    assert_eq!(trim("\t\r\n"), "");
    assert_eq!(trim(""), "");
    assert_eq!(trim("a b"), "a b");
    assert_eq!(trim("\u{3000}aac\u{a0}\u{2009}"), "aac");
    for s in [" x ", "\u{85}y\u{1680}", "\u{200b}z", "no-space", "  ", "\u{feff}w "] {
        assert_eq!(trim(s), s.trim());
    }
    for c in ['\t', '\n', '\u{b}', '\u{c}', '\r', ' ', '\u{85}', '\u{a0}', '\u{1680}', '\u{2000}', '\u{200a}', '\u{2028}', '\u{2029}', '\u{202f}', '\u{205f}', '\u{3000}', 'a', '\u{200b}', '\u{feff}', '\u{180e}'] {
        assert_eq!(white_space(c), c.is_whitespace(), "{:?}", c);
    }
}
