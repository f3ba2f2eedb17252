use memwatchdog::text::{
    chars_of, eq_ignore_ascii_case_str, eq_str, parse_i32_chars, parse_u64_chars, push_i32,
    push_u64, split_chars, split_lines, split_once_chars, split_words, starts_with_str, trim_chars,
};

fn v(s: &str) -> Vec<char> {
    s.chars().collect()
}

fn strs(parts: Vec<Vec<char>>) -> Vec<String> {
    parts.into_iter().map(|p| p.into_iter().collect()).collect()
}

#[test]
fn trimming_matches_str_trim() {
    for s in ["", "  ", " a b ", "\t\nx\r\n", "\u{a0}y\u{3000}", "z"] {
        let t: String = trim_chars(&v(s)).into_iter().collect();
        assert_eq!(t, s.trim());
    }
}

#[test]
fn words_match_split_whitespace() {
    for s in ["", "   ", "MemTotal:  16384 kB", " a\tb\n c ", "1 2 3 4 5 6 7"] {
        let w = strs(split_words(&v(s)));
        let expected: Vec<String> = s.split_whitespace().map(|x| x.to_string()).collect();
        assert_eq!(w, expected);
    }
}

#[test]
fn lines_match_str_lines() {
    for s in ["", "\n", "a", "a\n", "foo\r\nbar\n\nbaz\r", "x\n\ny\n", "\r\n"] {
        let l = strs(split_lines(&v(s)));
        let expected: Vec<String> = s.lines().map(|x| x.to_string()).collect();
        assert_eq!(l, expected, "lines of {:?}", s);
    }
}

#[test]
fn split_matches_str_split() {
    for s in ["", ",", "a,,b", "firefox,chrome,blender", "x,"] {
        let p = strs(split_chars(&v(s), ','));
        let expected: Vec<String> = s.split(',').map(|x| x.to_string()).collect();
        assert_eq!(p, expected);
    }
}

#[test]
fn split_once_at_first_separator() {
    let (a, b) = split_once_chars(&v("k = v = w"), '=').unwrap();
    assert_eq!(a.into_iter().collect::<String>(), "k ");
    assert_eq!(b.into_iter().collect::<String>(), " v = w");
    assert!(split_once_chars(&v("none"), '=').is_none());
    let (a, b) = split_once_chars(&v("="), '=').unwrap();
    assert!(a.is_empty() && b.is_empty());
}

#[test]
fn unsigned_parsing_matches_std() {
    for s in ["", "+", "-", "0", "+7", "-7", "007", "12a", " 1", "18446744073709551615",
              "18446744073709551616", "99999999999999999999999", "00000000000000000000000042"] {
        assert_eq!(parse_u64_chars(&v(s)), s.parse::<u64>().ok(), "parsing {:?}", s);
    }
}

#[test]
fn signed_parsing_matches_std() {
    for s in ["", "+", "-", "0", "-0", "+7", "-7", "123", "2147483647", "2147483648",
              "-2147483648", "-2147483649", "self", "4294967296", "1.5"] {
        assert_eq!(parse_i32_chars(&v(s)), s.parse::<i32>().ok(), "parsing {:?}", s);
    }
}

#[test]
fn decimal_rendering() {
    let mut out = Vec::new();
    push_u64(&mut out, 0);
    push_u64(&mut out, 1234567890);
    push_i32(&mut out, -42);
    push_i32(&mut out, i32::MIN);
    push_u64(&mut out, u64::MAX);
    let s: String = out.into_iter().collect();
    assert_eq!(s, format!("01234567890-42{}{}", i32::MIN, u64::MAX));
}

#[test]
fn comparisons() {
    assert!(eq_str(&v("abc"), "abc"));
    assert!(!eq_str(&v("abc"), "abd"));
    assert!(!eq_str(&v("ab"), "abc"));
    assert!(starts_with_str(&v("MemTotal: 5"), "MemTotal:"));
    assert!(!starts_with_str(&v("Mem"), "MemTotal:"));
    assert!(eq_ignore_ascii_case_str(&v("TrUe"), "true"));
    assert!(!eq_ignore_ascii_case_str(&v("tru"), "true"));
    assert!(!eq_ignore_ascii_case_str(&v("trüe"), "true"));
    assert_eq!(chars_of("héllo"), v("héllo"));
}

#[test]
fn whitespace_matches_char_is_whitespace() {
    for u in 0u32..0x3100 {
        if let Some(c) = char::from_u32(u) {
            assert_eq!(memwatchdog::text::is_whitespace(c), c.is_whitespace(), "char {:#x}", u);
        }
    }
}

#[test]
fn lines_of_config_text_with_carriage_returns() {
    let l = strs(split_lines(&v("a=1\r\nb=2\r")));
    assert_eq!(l, vec!["a=1".to_string(), "b=2\r".to_string()]);
}
