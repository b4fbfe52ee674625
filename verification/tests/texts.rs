use qcapture::text::{
    contains, decimal_int_text, decimal_long_text, decimal_text, ends_with, find_part, from_chars,
    lines, parse_i32, parse_u32, parse_u64, split, split_once, to_chars, trim,
};

#[test]
fn decimals_are_written_and_read_back() {
    for n in [0u64, 7, 10, 99, 100, 4_294_967_295, u64::MAX] {
        assert_eq!(decimal_text(n), n.to_string());
        assert_eq!(parse_u64(&to_chars(&n.to_string())), Some(n));
    }
    for i in [0i32, -1, 42, i32::MIN, i32::MAX] {
        assert_eq!(decimal_int_text(i), i.to_string());
        assert_eq!(parse_i32(&to_chars(&i.to_string())), Some(i));
    }
    for i in [0i64, -1, i64::MIN, i64::MAX] {
        assert_eq!(decimal_long_text(i), i.to_string());
    }
    for bad in ["", "+", "-", "1a", " 1", "4294967296", "-1"] {
        assert_eq!(parse_u32(&to_chars(bad)), bad.parse::<u32>().ok());
    }
    assert_eq!(parse_u32(&to_chars("+7")), Some(7));
}

#[test]
fn texts_are_cut_as_std_cuts_them() {
    for t in ["", "  a b ", "\t\n", "x", "\u{2003}é\u{85}", "a\u{a0}"] {
        assert_eq!(from_chars(&trim(&to_chars(t))), t.trim());
        let l: Vec<String> = lines(&to_chars(t)).iter().map(|r| from_chars(r)).collect();
        assert_eq!(l, t.lines().collect::<Vec<_>>());
    }
    for t in ["a\nb\r\nc", "\n", "a\n\n", "\r\n\r"] {
        let l: Vec<String> = lines(&to_chars(t)).iter().map(|r| from_chars(r)).collect();
        assert_eq!(l, t.lines().collect::<Vec<_>>());
    }
    for t in ["a,b,,c", "", ",", "abc"] {
        let p: Vec<String> = split(&to_chars(t), ',').iter().map(|r| from_chars(r)).collect();
        assert_eq!(p, t.split(',').collect::<Vec<_>>());
        let once = split_once(&to_chars(t), ',').map(|(a, b)| (from_chars(&a), from_chars(&b)));
        assert_eq!(
            once,
            t.split_once(',').map(|(a, b)| (a.to_string(), b.to_string()))
        );
    }
    assert!(contains(&to_chars("hello"), &to_chars("ell")));
    assert!(!contains(&to_chars("hello"), &to_chars("elo")));
    assert!(ends_with(&to_chars("a.mp4"), &to_chars(".mp4")));
    assert_eq!(find_part(&to_chars("a — b — c"), &to_chars(" — ")), 1);
    assert_eq!(find_part(&to_chars("abc"), &to_chars("x")), 3);
}
