use baiban::text::{
    char_is_white_space, chars_of, compare_text, join_texts, starts_with, text_eq,
    trim_end_matches_char, trim_text, Order,
};

#[test]
fn chars_of_keeps_every_character() {
    assert_eq!(chars_of("aé中"), vec!['a', 'é', '中']);
    assert!(chars_of("").is_empty());
}

#[test]
fn white_space_matches_std() {
    for c in ['\t', '\n', '\u{b}', '\u{c}', '\r', ' ', '\u{85}', '\u{a0}', '\u{1680}', '\u{2000}',
        '\u{200a}', '\u{2028}', '\u{2029}', '\u{202f}', '\u{205f}', '\u{3000}', 'a', '0', '\u{200b}',
        '\u{feff}', '中']
    {
        assert_eq!(char_is_white_space(c), c.is_whitespace(), "{:?}", c);
    }
}

#[test]
fn trim_removes_surrounding_white_space() {
    assert_eq!(trim_text("  my-app \t\n"), "my-app");
    assert_eq!(trim_text("\u{3000}名称\u{a0}"), "名称");
    assert_eq!(trim_text("a b"), "a b");
    assert_eq!(trim_text("   "), "");
    assert_eq!(trim_text(""), "");
    for s in ["  x  ", "\u{2003}y", "z\u{85}", " \t "] {
        assert_eq!(trim_text(s), s.trim());
    }
}

#[test]
fn starts_with_is_prefix_test() {
    assert!(starts_with("https://github.com/a/b", "https://github.com/"));
    assert!(!starts_with("https://gitlab.com/a/b", "https://github.com/"));
    assert!(!starts_with("https://github.com", "https://github.com/"));
    assert!(starts_with("abc", ""));
}

#[test]
fn trim_end_matches_removes_every_trailing_char() {
    assert_eq!(trim_end_matches_char("https://ghfast.top///", '/'), "https://ghfast.top");
    assert_eq!(trim_end_matches_char("https://ghfast.top", '/'), "https://ghfast.top");
    assert_eq!(trim_end_matches_char("///", '/'), "");
}

#[test]
fn join_texts_separates_neighbours() {
    let tags = vec!["react".to_string(), "admin".to_string(), "typescript".to_string()];
    assert_eq!(join_texts(&tags, ", "), "react, admin, typescript");
    assert_eq!(join_texts(&vec!["one".to_string()], ", "), "one");
    assert_eq!(join_texts(&Vec::new(), ", "), "");
}

#[test]
fn compare_text_orders_like_str() {
    let words = ["", "a", "ab", "b", "react-admin", "react", "vue3-admin", "中", "Z"];
    for a in words {
        for b in words {
            let want = a.cmp(b);
            let got = compare_text(a, b);
            match got {
                Order::Less => assert_eq!(want, std::cmp::Ordering::Less),
                Order::Equal => assert_eq!(want, std::cmp::Ordering::Equal),
                Order::Greater => assert_eq!(want, std::cmp::Ordering::Greater),
            }
            assert_eq!(text_eq(a, b), a == b);
        }
    }
}

