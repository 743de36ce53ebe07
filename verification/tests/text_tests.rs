use yt_dlp_downloader::text::{
    chars_contain, chars_of, chars_start_with, is_u64_text, join_strings, lines_of,
    push_decimal, push_signed_decimal, text_contains, text_equal, trim_text,
};

#[test]
fn trim_removes_unicode_white_space() {
    assert_eq!(trim_text("  \t hello world \r\n"), "hello world");
    assert_eq!(trim_text("\u{3000}가나\u{A0}"), "가나");
    assert_eq!(trim_text("   "), "");
    assert_eq!(trim_text(""), "");
    assert_eq!(trim_text("x"), "x");
}

#[test]
fn trim_is_idempotent_on_examples() {
    for s in ["  a b  ", "\u{2003}x\u{2029}", "", " \n "] {
        let once = trim_text(s);
        assert_eq!(trim_text(&once), once);
        assert_eq!(once, s.trim());
    }
}

#[test]
fn lines_match_std_lines() {
    for s in [
        "",
        "\n",
        "a",
        "a\n",
        "a\nb",
        "a\r\nb\r\n",
        "a\r",
        "\r\n\r\n",
        "x\n\ny",
        "one\rtwo\nthree",
    ] {
        let expected: Vec<String> = s.lines().map(|l| l.to_string()).collect();
        assert_eq!(lines_of(s), expected, "input {:?}", s);
    }
}

#[test]
fn decimal_formatting() {
    let mut s = String::from("n=");
    push_decimal(&mut s, 0);
    assert_eq!(s, "n=0");
    let mut s = String::new();
    push_decimal(&mut s, 1234567890);
    assert_eq!(s, "1234567890");
    let mut s = String::new();
    push_decimal(&mut s, u64::MAX);
    assert_eq!(s, u64::MAX.to_string());
    let mut s = String::new();
    push_signed_decimal(&mut s, -42);
    assert_eq!(s, "-42");
    let mut s = String::new();
    push_signed_decimal(&mut s, i32::MIN);
    assert_eq!(s, i32::MIN.to_string());
}

#[test]
fn u64_text_matches_std_parse() {
    for s in [
        "0",
        "12",
        "+7",
        "+",
        "",
        "-1",
        "12a",
        " 1",
        "18446744073709551615",
        "18446744073709551616",
        "0000000000000000000000000001",
        "٣",
    ] {
        let cs = chars_of(s);
        assert_eq!(is_u64_text(&cs), s.parse::<u64>().is_ok(), "input {:?}", s);
    }
}

#[test]
fn decimal_round_trip_examples() {
    for n in [0u64, 9, 10, 99, 100, 65535, u64::MAX] {
        let mut s = String::new();
        push_decimal(&mut s, n);
        assert!(is_u64_text(&chars_of(&s)));
        assert_eq!(s.parse::<u64>().unwrap(), n);
    }
}

#[test]
fn searching_and_comparing() {
    assert!(text_contains("hello world", "lo w"));
    assert!(text_contains("abc", ""));
    assert!(!text_contains("abc", "abcd"));
    assert!(!text_contains("abc", "cb"));
    assert!(chars_contain(&chars_of("aaab"), &chars_of("aab")));
    assert!(chars_start_with(&chars_of("ERROR: x"), &chars_of("ERROR:")));
    assert!(!chars_start_with(&chars_of("ERR"), &chars_of("ERROR:")));
    assert!(text_equal("같다", "같다"));
    assert!(!text_equal("a", "b"));
}

#[test]
fn joining() {
    let parts = vec!["a".to_string(), "b".to_string(), "c".to_string()];
    assert_eq!(join_strings(&parts, "\n"), "a\nb\nc");
    assert_eq!(join_strings(&Vec::new(), ", "), "");
    assert_eq!(join_strings(&vec!["x".to_string()], ", "), "x");
}
