use lexi::text::{
    begins_with, chars_of, copy_range, finishes_with, found_at, is_blank, is_space, join_range,
    lines, remove_all, same, same_str, str_ends_with, trimmed,
};

fn text(chars: &[char]) -> String {
    chars.iter().collect()
}

fn trim_of(s: &str) -> String {
    text(&trimmed(&chars_of(s)))
}

fn lines_of(s: &str) -> Vec<String> {
    lines(&chars_of(s)).iter().map(|l| text(l)).collect()
}

fn removed(s: &str, pat: &str) -> String {
    text(&remove_all(&chars_of(s), &chars_of(pat)))
}

const SAMPLES: [&str; 24] = [
    "",
    " ",
    "a",
    " a ",
    "\t\n a b \r\n",
    "\u{a0}x\u{3000}",
    "\u{2003}wide\u{2009}",
    "\u{200b}zero width is no space\u{200b}",
    "x\u{85}",
    "\u{1680}\u{2028}\u{2029}\u{202f}\u{205f}y",
    "a\nb",
    "a\n",
    "a\r\n",
    "a\r",
    "\n",
    "\r\n",
    "\r",
    "a\n\nb",
    "a\r\r\nb",
    "a\nb\r",
    "\n\na",
    "one\r\ntwo\r\nthree",
    "tab\tinside",
    "``````",
];

#[test]
fn chars_of_keeps_every_character() {
    for s in SAMPLES {
        let want: Vec<char> = s.chars().collect();
        assert_eq!(chars_of(s), want);
    }
    assert_eq!(chars_of("häß"), vec!['h', 'ä', 'ß']);
}

#[test]
fn is_space_agrees_with_char_is_whitespace() {
    let mut code: u32 = 0;
    while code <= 0x10FFFF {
        if let Some(c) = char::from_u32(code) {
            assert_eq!(is_space(c), c.is_whitespace(), "U+{:04X}", code);
        }
        code += 1;
    }
}

#[test]
fn trimmed_agrees_with_str_trim() {
    for s in SAMPLES {
        assert_eq!(trim_of(s), s.trim(), "{:?}", s);
    }
}

#[test]
fn trimmed_cuts_both_ends_only() {
    assert_eq!(trim_of("  a  b  "), "a  b");
    assert_eq!(trim_of("\n\n"), "");
    assert_eq!(trim_of("x"), "x");
}

#[test]
fn is_blank_tells_white_space_from_text() {
    assert!(is_blank(""));
    assert!(is_blank(" \t\r\n\u{3000}"));
    assert!(!is_blank("  .  "));
}

#[test]
fn lines_agree_with_str_lines() {
    for s in SAMPLES {
        let want: Vec<String> = s.lines().map(String::from).collect();
        assert_eq!(lines_of(s), want, "{:?}", s);
    }
}

#[test]
fn lines_drop_the_return_before_a_line_feed_only() {
    assert_eq!(lines_of("a\r\nb\r"), vec!["a", "b\r"]);
    assert_eq!(lines_of("a\r\r\n"), vec!["a\r"]);
    assert_eq!(lines_of("a\n\n"), vec!["a", ""]);
    assert_eq!(lines_of(""), Vec::<String>::new());
}

#[test]
fn remove_all_agrees_with_str_replace() {
    let patterns = ["`", "```", "a", "ab", "aa", "\n", "```java", ""];
    let subjects = [
        "",
        "a",
        "aaa",
        "aaaa",
        "ababab",
        "aabaab",
        "```java```javascript",
        "``` ``` ```",
        "`````",
        "x```y``z`",
        "a\nb\n",
    ];
    for s in subjects {
        for p in patterns {
            if p.is_empty() {
                assert_eq!(removed(s, p), s);
            } else {
                assert_eq!(removed(s, p), s.replace(p, ""), "{:?} without {:?}", s, p);
            }
        }
    }
}

#[test]
fn remove_all_goes_left_to_right_without_overlap() {
    assert_eq!(removed("aaa", "aa"), "a");
    assert_eq!(removed("aabab", "ab"), "a");
    assert_eq!(removed("`````", "```"), "``");
}

#[test]
fn join_range_puts_line_feeds_between_lines() {
    let ls = lines(&chars_of("a\nbb\n\nccc"));
    assert_eq!(text(&join_range(&ls, 0, 4)), "a\nbb\n\nccc");
    assert_eq!(text(&join_range(&ls, 1, 3)), "bb\n");
    assert_eq!(text(&join_range(&ls, 1, 2)), "bb");
    assert_eq!(text(&join_range(&ls, 2, 2)), "");
    assert_eq!(text(&join_range(&ls, 0, 0)), "");
}

#[test]
fn join_range_agrees_with_slice_join() {
    for s in SAMPLES {
        let ls = lines(&chars_of(s));
        let want: Vec<&str> = s.lines().collect();
        for from in 0..=ls.len() {
            for to in from..=ls.len() {
                assert_eq!(text(&join_range(&ls, from, to)), want[from..to].join("\n"));
            }
        }
    }
}

#[test]
fn found_at_needs_the_whole_pattern() {
    let s = chars_of("hello");
    assert!(found_at(&s, &chars_of("ell"), 1));
    assert!(!found_at(&s, &chars_of("ell"), 0));
    assert!(found_at(&s, &chars_of("lo"), 3));
    assert!(!found_at(&s, &chars_of("lo!"), 3));
    assert!(!found_at(&s, &chars_of("o"), 5));
    assert!(found_at(&s, &chars_of(""), 5));
    assert!(!found_at(&s, &chars_of(""), 6));
    assert!(!found_at(&s, &chars_of("h"), usize::MAX));
}

#[test]
fn begins_and_finishes_agree_with_std() {
    let cases = [("", ""), ("a", ""), ("", "a"), ("abc", "ab"), ("abc", "bc"), ("abc", "abc"), ("abc", "abcd"), ("def x", "def ")];
    for (s, p) in cases {
        assert_eq!(begins_with(&chars_of(s), &chars_of(p)), s.starts_with(p));
        assert_eq!(finishes_with(&chars_of(s), &chars_of(p)), s.ends_with(p));
        assert_eq!(str_ends_with(s, p), s.ends_with(p));
    }
}

#[test]
fn same_compares_every_character() {
    assert!(same(&chars_of("abc"), &chars_of("abc")));
    assert!(!same(&chars_of("abc"), &chars_of("abd")));
    assert!(!same(&chars_of("abc"), &chars_of("ab")));
    assert!(same(&[], &[]));
    assert!(same_str("sql", "sql"));
    assert!(!same_str("sql", "SQL"));
}

#[test]
fn copy_range_copies_the_part() {
    let s = chars_of("hello");
    assert_eq!(text(&copy_range(&s, 1, 4)), "ell");
    assert_eq!(text(&copy_range(&s, 2, 2)), "");
    assert_eq!(text(&copy_range(&s, 0, 5)), "hello");
}
