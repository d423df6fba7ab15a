use playground::text::{
    chars_of, join_strs, is_whitespace, parse_i32, parse_u32, push_decimal, push_signed_decimal,
    split_text, str_eq, trim,
};

fn chars(s: &str) -> Vec<char> {
    chars_of(s)
}

#[test]
fn parse_i32_like_std() {
    for text in [
        "0", "42", "+7", "-7", "-2147483648", "2147483647", "2147483648", "-2147483649", "", "+",
        "-", "12a", " 1", "007", "--1", "+-1",
    ] {
        assert_eq!(parse_i32(&chars(text)), text.parse::<i32>().ok(), "{text:?}");
    }
}

#[test]
fn parse_u32_like_std() {
    for text in ["0", "4294967295", "4294967296", "+5", "-0", "-5", "", "+", "9x", "٣"] {
        assert_eq!(parse_u32(&chars(text)), text.parse::<u32>().ok(), "{text:?}");
    }
}

#[test]
fn trim_like_std() {
    for text in ["  a b  ", "\t\n", "", "x", "\u{3000}y\u{85}", " \r\n"] {
        let trimmed: String = trim(&chars(text)).into_iter().collect();
        assert_eq!(trimmed, text.trim(), "{text:?}");
    }
}

#[test]
fn whitespace_like_std() {
    for c in [' ', '\t', '\u{a0}', '\u{2028}', 'a', '0', '\u{200b}', '\u{1680}'] {
        assert_eq!(is_whitespace(c), c.is_whitespace(), "{c:?}");
    }
}

#[test]
fn decimal_like_display() {
    for n in [0u64, 7, 10, 99, 100, 4294967295, u64::MAX] {
        let mut out = vec!['x'];
        push_decimal(n, &mut out);
        assert_eq!(out.iter().collect::<String>(), format!("x{n}"));
    }
    for n in [0i64, -1, 42, i64::MIN, i64::MAX] {
        let mut out = Vec::new();
        push_signed_decimal(n, &mut out);
        assert_eq!(out.iter().collect::<String>(), n.to_string());
    }
}

#[test]
fn decimal_round_trip() {
    for n in [0u32, 9, 10, 65535, u32::MAX] {
        let mut out = Vec::new();
        push_decimal(n as u64, &mut out);
        assert_eq!(parse_u32(&out), Some(n));
    }
    for n in [i32::MIN, -1, 0, 1, i32::MAX] {
        let mut out = Vec::new();
        push_signed_decimal(n as i64, &mut out);
        assert_eq!(parse_i32(&out), Some(n));
    }
}

#[test]
fn split_like_std() {
    for text in ["a\0b\0c", "", "\0", "abc", "x\0\0y\0"] {
        let expected: Vec<String> = text.split('\0').map(|s| s.to_string()).collect();
        assert_eq!(split_text(text, '\0'), expected, "{text:?}");
    }
}

#[test]
fn split_then_join_gives_text_back() {
    let text = "page=2\0{\"counter\":1}\0{}";
    assert_eq!(split_text(text, '\0').join("\0"), text);
}

#[test]
fn string_helpers() {
    assert_eq!(join_strs("ab", "cd"), "abcd");
    assert!(str_eq("xml", "xml"));
    assert!(!str_eq("xml", "XML"));
    assert!(!str_eq("xm", "xml"));
}

#[test]
fn trimming_twice_is_trimming_once() {
    for text in ["  a b  ", "\u{3000}\n", "x", " y\t"] {
        let once = trim(&chars(text));
        assert_eq!(trim(&once), once);
    }
}
