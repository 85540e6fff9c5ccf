use onekp::text::{
    decimal_string, digit_char, chars_lt, chars_of, is_space_char, split_chars, starts_with, string_of, strip_trailing_len,
    trim_bounds,
};

fn cs(s: &str) -> Vec<char> {
    s.chars().collect()
}

#[test]
fn chars_of_gives_every_character() {
    assert_eq!(chars_of("a\u{e9}\u{1F600}b"), vec!['a', '\u{e9}', '\u{1F600}', 'b']);
    assert!(chars_of("").is_empty());
}

#[test]
fn string_of_builds_the_range() {
    let v = cs("h\u{e9}llo");
    assert_eq!(string_of(&v, 1, 4), "\u{e9}ll");
    assert_eq!(string_of(&v, 0, 5), "h\u{e9}llo");
    assert_eq!(string_of(&v, 2, 2), "");
}

#[test]
fn starts_with_agrees_with_std() {
    for (s, p) in [("ABCD-x", "ABCD"), ("ABCD", "ABCD"), ("ABC", "ABCD"), ("xABCD", "ABCD"), ("abc", ""), ("", ""), ("", "a"), ("ABxD", "ABCD")] {
        assert_eq!(starts_with(&cs(s), &cs(p)), s.starts_with(p), "{:?} {:?}", s, p);
    }
}

#[test]
fn strip_trailing_len_drops_every_trailing_slash() {
    assert_eq!(strip_trailing_len(&cs("dir/"), '/'), 3);
    assert_eq!(strip_trailing_len(&cs("dir///"), '/'), 3);
    assert_eq!(strip_trailing_len(&cs("a/b"), '/'), 3);
    assert_eq!(strip_trailing_len(&cs("/a"), '/'), 2);
    assert_eq!(strip_trailing_len(&cs("//"), '/'), 0);
    assert_eq!(strip_trailing_len(&cs(""), '/'), 0);
}

#[test]
fn is_space_char_agrees_with_std() {
    let mut n: u32 = 0;
    while n <= 0x3100 {
        if let Some(c) = char::from_u32(n) {
            assert_eq!(is_space_char(c), c.is_whitespace(), "{:x}", n);
        }
        n += 1;
    }
    assert!(!is_space_char('\u{FEFF}'));
    assert!(!is_space_char('\u{10FFFF}'));
}

#[test]
fn trim_bounds_agree_with_std() {
    for s in ["  a b \r\n", "abc", "", "   ", "\ta", "a\t", "\u{3000}x\u{a0}", " \u{e9} "] {
        let v = cs(s);
        let (from, to) = trim_bounds(&v);
        assert_eq!(string_of(&v, from, to), s.trim(), "{:?}", s);
    }
}

#[test]
fn split_chars_agrees_with_std() {
    for s in ["a\tb\tc", "", "\t", "a\t", "\ta", "a\t\tb", "abc", "\t\t"] {
        let got: Vec<String> = split_chars(&cs(s), '\t').iter().map(|p| p.iter().collect()).collect();
        let want: Vec<String> = s.split('\t').map(|p| p.to_string()).collect();
        assert_eq!(got, want, "{:?}", s);
    }
}

#[test]
fn chars_lt_agrees_with_std() {
    let words = ["", "a", "ab", "b", "B", "abc", "abd", "\u{e9}", "z", "\u{1F600}", "a\u{e9}", "No data"];
    for a in words {
        for b in words {
            assert_eq!(chars_lt(&cs(a), &cs(b)), a < b, "{:?} {:?}", a, b);
        }
    }
}

#[test]
fn decimal_string_agrees_with_std() {
    for n in [0usize, 1, 9, 10, 11, 99, 100, 101, 1203, 65535, usize::MAX] {
        assert_eq!(decimal_string(n), n.to_string());
    }
    assert_eq!(digit_char(0), '0');
    assert_eq!(digit_char(9), '9');
}
