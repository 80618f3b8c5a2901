use kafka_repo::text::{
    chars_of, compare, find, is_space, join_strings, same_chars, split, starts_with, str_eq,
    string_of, trimmed, Order,
};

fn chars(s: &str) -> Vec<char> {
    s.chars().collect()
}

fn text(v: &Vec<char>) -> String {
    v.iter().collect()
}

#[test]
fn strings_and_characters_convert_both_ways() {
    assert_eq!(chars_of("héllo"), vec!['h', 'é', 'l', 'l', 'o']);
    assert_eq!(string_of(&vec!['h', 'é', 'l', 'l', 'o']), "héllo");
    assert_eq!(string_of(&chars_of("")), "");
}

#[test]
fn whitespace_is_what_the_standard_library_calls_whitespace() {
    let mut c: u32 = 0;
    while c <= 0x3100 {
        if let Some(ch) = char::from_u32(c) {
            assert_eq!(is_space(ch), ch.is_whitespace());
        }
        c += 1;
    }
}

#[test]
fn trimming_matches_the_standard_library() {
    for s in ["", " ", "  a b  ", "\t\r\nx\u{3000}", "x", "\u{85}y\u{a0} z \u{2003}"] {
        assert_eq!(text(&trimmed(&chars(s))), s.trim());
    }
}

#[test]
fn searching_and_splitting_match_the_standard_library() {
    let cases = [("a,b,,c", ","), ("", ","), (",", ","), ("aaaa", "aa"), ("abcabc", "bc"), ("abc", "x")];
    for (s, p) in cases {
        let expected: Vec<String> = s.split(p).map(String::from).collect();
        let got: Vec<String> = split(&chars(s), &chars(p)).iter().map(text).collect();
        assert_eq!(got, expected);
        assert_eq!(find(&chars(s), &chars(p), 0), s.find(p));
    }
    assert_eq!(find(&chars("abcabc"), &chars("bc"), 2), Some(4));
    assert_eq!(find(&chars("abc"), &chars(""), 3), Some(3));
    assert_eq!(find(&chars("abc"), &chars("c"), 4), None);
}

#[test]
fn comparison_is_by_code_point() {
    let words = ["", "a", "B", "ab", "b", "é", "a\u{10000}", "aa"];
    for a in words {
        for b in words {
            let expected = if a < b {
                Order::Before
            } else if a == b {
                Order::Same
            } else {
                Order::After
            };
            assert_eq!(compare(&chars(a), &chars(b)), expected);
            assert_eq!(same_chars(&chars(a), &chars(b)), a == b);
            assert_eq!(str_eq(a, b), a == b);
            assert_eq!(starts_with(a, b), a.starts_with(b));
        }
    }
}

#[test]
fn joining_puts_the_separator_between() {
    let parts: Vec<String> = vec!["a".into(), "".into(), "c".into()];
    assert_eq!(join_strings(&parts, " and "), "a and  and c");
    assert_eq!(join_strings(&vec!["x".to_string()], ", "), "x");
    assert_eq!(join_strings(&vec![], ", "), "");
}
