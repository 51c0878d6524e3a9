use prompt::text::{decimal_text, str_contains, str_lt, trim_text, white_space};

#[test]
fn decimal_of_small_and_large_numbers() {
    assert_eq!(decimal_text(0), "0");
    assert_eq!(decimal_text(7), "7");
    assert_eq!(decimal_text(10), "10");
    assert_eq!(decimal_text(120), "120");
    assert_eq!(decimal_text(u64::MAX), "18446744073709551615");
}

#[test]
fn contains_finds_runs_of_characters() {
    assert!(str_contains("hello", "ll"));
    assert!(str_contains("hello", "hello"));
    assert!(str_contains("hello", ""));
    assert!(str_contains("", ""));
    assert!(!str_contains("", "a"));
    assert!(!str_contains("abc", "abd"));
    assert!(!str_contains("ab", "abc"));
    assert!(str_contains("请审查以下代码", "代码"));
    assert!(!str_contains("请审查以下代码", "论文"));
}

#[test]
fn contains_agrees_with_std() {
    let hays = ["", "a", "aaab", "代码审查助手", "abcabc", "xyz"];
    let needles = ["", "a", "ab", "审查", "cab", "z", "助手!"];
    for h in hays.iter() {
        for n in needles.iter() {
            assert_eq!(str_contains(h, n), h.contains(n), "{:?} {:?}", h, n);
        }
    }
}

#[test]
fn lexicographic_order_by_code_point() {
    assert!(str_lt("ab", "b"));
    assert!(str_lt("a", "ab"));
    assert!(!str_lt("ab", "a"));
    assert!(!str_lt("b", "ab"));
    assert!(!str_lt("same", "same"));
    assert!(str_lt("", "a"));
    assert!(!str_lt("", ""));
    assert!(str_lt("Z", "a"));
    assert!(str_lt("学术", "编程"));
}

#[test]
fn lexicographic_order_agrees_with_std() {
    let words = ["", "a", "ab", "b", "Z", "学术", "编程", "编", "é", "e"];
    for x in words.iter() {
        for y in words.iter() {
            assert_eq!(str_lt(x, y), x < y, "{:?} {:?}", x, y);
        }
    }
}

#[test]
fn trim_agrees_with_std() {
    let texts = [
        "", " ", "  a  ", "\t\n x y \r", "\u{3000}标题\u{3000}", "\u{85}\u{a0}z\u{1680}", "\u{2000}\u{200a}\u{2028}\u{2029}\u{202f}\u{205f}",
        "\u{200b}zero width\u{200b}", "no-space", "\u{b}\u{c}v",
    ];
    for t in texts.iter() {
        assert_eq!(trim_text(t), t.trim(), "{:?}", t);
    }
}

#[test]
fn white_space_agrees_with_std() {
    for n in 0u32..0x3100 {
        if let Some(c) = char::from_u32(n) {
            assert_eq!(white_space(c), c.is_whitespace(), "{:#x}", n);
        }
    }
}
