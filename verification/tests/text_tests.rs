use terbium::text::{
    chars_of, i32_text, parse_bool, parse_i32, parse_usize, remove_occurrences, split_words,
    text_less, trim,
};

fn chars(s: &str) -> Vec<char> {
    s.chars().collect()
}

#[test]
fn integers_are_read_like_rust() {
    for s in ["0", "+1", "-1", "2147483647", "-2147483648", "2147483648", "", "+", "-", "1 ", "00012", "1_0"] {
        assert_eq!(parse_i32(&chars(s)), s.parse::<i32>().ok(), "{s:?}");
    }
    for s in ["0", "+7", "-0", "18446744073709551615", "18446744073709551616", "x"] {
        assert_eq!(parse_usize(&chars(s)), s.parse::<usize>().ok(), "{s:?}");
    }
    for s in ["true", "false", "True", " true", ""] {
        assert_eq!(parse_bool(&chars(s)), s.parse::<bool>().ok(), "{s:?}");
    }
}

#[test]
fn integers_are_written_like_rust() {
    for x in [0, 7, -7, 1234567, i32::MAX, i32::MIN] {
        let text: String = i32_text(x).into_iter().collect();
        assert_eq!(text, x.to_string());
    }
}

#[test]
fn trimming_and_words_follow_std() {
    for s in ["", "  ", " a b ", "\u{3000}x\u{a0}", "\tline\r\n"] {
        let t: String = trim(&chars(s)).into_iter().collect();
        assert_eq!(t, s.trim());
        let w: Vec<String> = split_words(&chars(s)).into_iter().map(|w| w.into_iter().collect()).collect();
        let expected: Vec<String> = s.split_whitespace().map(String::from).collect();
        assert_eq!(w, expected);
    }
}

#[test]
fn removing_follows_replace() {
    for (a, b) in [("banana", "an"), ("aaaa", "aa"), ("aabb", "ab"), ("abc", ""), ("", "x")] {
        let r: String = remove_occurrences(&chars(a), &chars(b)).into_iter().collect();
        assert_eq!(r, a.replace(b, ""));
    }
}

#[test]
fn order_follows_str() {
    for (a, b) in [("a", "b"), ("ab", "a"), ("", "a"), ("é", "z"), ("abc", "abc")] {
        assert_eq!(text_less(&chars(a), &chars(b)), a < b);
    }
}

#[test]
fn characters_of_a_string() {
    assert_eq!(chars_of("héllo"), vec!['h', 'é', 'l', 'l', 'o']);
}

#[test]
fn whitespace_is_unicode_white_space() {
    for u in 0..=0x10ffffu32 {
        if let Some(c) = char::from_u32(u) {
            assert_eq!(terbium::text::is_whitespace(c), c.is_whitespace(), "{u:#x}");
        }
    }
}

#[test]
fn trimming_twice_is_trimming_once() {
    for s in ["  a b  ", "x", "   ", "\u{2028}y\u{2029}"] {
        let once = trim(&chars(s));
        let twice = trim(&once);
        assert_eq!(once, twice);
    }
}
