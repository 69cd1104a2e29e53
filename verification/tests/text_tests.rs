use devwizard::text::{
    char_is_space, chars_of, debug_optional_code_text, decimal_text, occurs_at_exec, occurs_in_exec,
    same_chars, text_less_exec, to_lowercase, trimmed, word_bounds,
};

fn cs(s: &str) -> Vec<char> {
    s.chars().collect()
}

#[test]
fn decimal_text_writes_integers_like_to_string() {
    assert_eq!(decimal_text(0), "0");
    assert_eq!(decimal_text(7), "7");
    assert_eq!(decimal_text(42), "42");
    assert_eq!(decimal_text(1000), "1000");
    assert_eq!(decimal_text(-7), "-7");
    assert_eq!(decimal_text(-120), "-120");
    assert_eq!(decimal_text(i64::MAX), i64::MAX.to_string());
    assert_eq!(decimal_text(i64::MIN), "-9223372036854775808");
}

#[test]
fn debug_optional_code_matches_debug_format() {
    for code in [Some(0), Some(1), Some(127), Some(-9), Some(i32::MIN), Some(i32::MAX), None] {
        assert_eq!(debug_optional_code_text(code), format!("{:?}", code));
    }
}

#[test]
fn char_is_space_agrees_with_std() {
    for u in 0u32..0x3100 {
        if let Some(c) = char::from_u32(u) {
            assert_eq!(char_is_space(c), c.is_whitespace(), "code point {:x}", u);
        }
    }
    assert!(!char_is_space('\u{feff}'));
    assert!(!char_is_space('\u{10ffff}'));
}

#[test]
fn trimmed_removes_white_space_at_both_ends() {
    assert_eq!(trimmed("  hello world \t\n"), "hello world");
    assert_eq!(trimmed("hello"), "hello");
    assert_eq!(trimmed("   "), "");
    assert_eq!(trimmed(""), "");
    assert_eq!(trimmed("\u{3000}x y\u{a0}"), "x y");
}

#[test]
fn chars_of_keeps_every_character() {
    assert_eq!(chars_of("añb€"), vec!['a', 'ñ', 'b', '€']);
    assert_eq!(chars_of(""), Vec::<char>::new());
}

#[test]
fn word_bounds_finds_the_words_like_split_whitespace() {
    assert_eq!(word_bounds(&cs("  ab  c ")), vec![(2, 4), (6, 7)]);
    assert_eq!(word_bounds(&cs("one")), vec![(0, 3)]);
    assert_eq!(word_bounds(&cs("   ")), Vec::<(usize, usize)>::new());
    let s = "web\tbrowser  privacy";
    let expected: Vec<&str> = s.split_whitespace().collect();
    let chars = cs(s);
    let found: Vec<String> = word_bounds(&chars).iter().map(|&(i, j)| chars[i..j].iter().collect()).collect();
    assert_eq!(found, expected);
}

#[test]
fn occurrence_tests_agree_with_str() {
    let hay = cs("visual studio code");
    assert!(occurs_in_exec(&hay, &cs("studio")));
    assert!(occurs_in_exec(&hay, &cs("code")));
    assert!(occurs_in_exec(&hay, &cs("")));
    assert!(!occurs_in_exec(&hay, &cs("codes")));
    assert!(occurs_at_exec(&hay, &cs("visual"), 0));
    assert!(!occurs_at_exec(&hay, &cs("studio"), 0));
    assert!(occurs_at_exec(&hay, &cs("studio"), 7));
    assert!(same_chars(&cs("abc"), &cs("abc")));
    assert!(!same_chars(&cs("abc"), &cs("abd")));
    assert!(!same_chars(&cs("abc"), &cs("ab")));
}

#[test]
fn text_less_orders_like_string() {
    let words = ["", "a", "ab", "b", "B", "zed", "é", "e", "ea", "abc", "Ab"];
    for x in words {
        for y in words {
            assert_eq!(text_less_exec(&cs(x), &cs(y)), x < y, "{:?} < {:?}", x, y);
        }
    }
}

#[test]
fn to_lowercase_lowers_every_letter() {
    assert_eq!(to_lowercase("FireFox"), "firefox");
    assert_eq!(to_lowercase("ÀÉÎ"), "àéî");
    assert_eq!(to_lowercase("already"), "already");
}
