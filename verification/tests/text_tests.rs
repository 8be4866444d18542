use irc_engine::codec::parse_message;
use irc_engine::text::{
    chars_equal, chars_equal_ignoring_case, chars_of, find_first, find_first_pair, is_whitespace,
    chop_line_end, push_decimal, split_tokens, starts_with_chars, str_equal, strip_chars,
};

fn chars(s: &str) -> Vec<char> {
    s.chars().collect()
}

fn text(v: &[char]) -> String {
    v.iter().collect()
}

const SAMPLES: [&str; 14] = [
    "",
    " ",
    "a",
    "  a  ",
    "\t a b \r\n",
    "a\u{a0}b",
    "\u{2003}wide\u{3000}",
    "one two  three   four",
    "\u{85}x\u{1680}y\u{2028}z\u{2029}",
    "no-space",
    " \u{200b} ",
    "tab\tsep\nnl\rcr\u{b}vt\u{c}ff",
    "é ü ✓ 𝄞",
    "\u{202f}\u{205f}end",
];

#[test]
fn white_space_is_what_unicode_says() {
    for code in 0..=0x10FFFFu32 {
        if let Some(c) = char::from_u32(code) {
            assert_eq!(is_whitespace(c), c.is_whitespace(), "U+{:04X}", code);
        }
    }
}

#[test]
fn chars_of_lists_every_character() {
    for sample in SAMPLES {
        assert_eq!(chars_of(sample), chars(sample));
    }
}

#[test]
fn line_end_is_taken_off_and_nothing_else() {
    for sample in SAMPLES {
        assert_eq!(
            text(&chop_line_end(&chars(sample))),
            sample.trim_end_matches(|c| c == '\r' || c == '\n'),
            "sample {:?}",
            sample
        );
    }
    assert_eq!(text(&chop_line_end(&chars("a \r\n"))), "a ");
    assert_eq!(text(&chop_line_end(&chars("\r\na\n\r\n"))), "\r\na");
    assert_eq!(text(&chop_line_end(&chars("\n\r"))), "");
    assert_eq!(text(&chop_line_end(&chars(" \t"))), " \t");
}

#[test]
fn tokens_agree_with_std() {
    for sample in SAMPLES {
        let expected: Vec<String> = sample.split_whitespace().map(|w| w.to_string()).collect();
        assert_eq!(split_tokens(&chars(sample)), expected, "sample {:?}", sample);
    }
}

#[test]
fn parse_agrees_with_std_tokenizing() {
    for sample in SAMPLES {
        let parsed = parse_message(sample);
        let mut words = sample.split_whitespace().map(|w| w.to_string());
        assert_eq!(parsed.command, words.next().unwrap_or_default(), "sample {:?}", sample);
        assert_eq!(parsed.params, words.collect::<Vec<String>>(), "sample {:?}", sample);
        assert_eq!(parsed.prefix, None);
        assert_eq!(parsed.trailing, None);
    }
}

#[test]
fn find_first_gives_index_or_length() {
    assert_eq!(find_first(&chars("a b c"), ' '), 1);
    assert_eq!(find_first(&chars("abc"), ' '), 3);
    assert_eq!(find_first(&chars(""), ' '), 0);
    assert_eq!(find_first(&chars("é!x"), '!'), 1);
}

#[test]
fn find_first_pair_gives_index_or_length() {
    assert_eq!(find_first_pair(&chars("a :b :c"), ' ', ':'), 1);
    assert_eq!(find_first_pair(&chars("a: b"), ' ', ':'), 4);
    assert_eq!(find_first_pair(&chars("a b "), ' ', ':'), 4);
    assert_eq!(find_first_pair(&chars(" :"), ' ', ':'), 0);
    assert_eq!(find_first_pair(&chars(""), ' ', ':'), 0);
}

#[test]
fn strip_removes_runs_at_both_ends() {
    assert_eq!(text(&strip_chars(&chars("xxaxbxx"), 'x')), "axb");
    assert_eq!(text(&strip_chars(&chars("xxx"), 'x')), "");
    assert_eq!(text(&strip_chars(&chars("abc"), 'x')), "abc");
    assert_eq!(text(&strip_chars(&chars(""), 'x')), "");
    for sample in SAMPLES {
        assert_eq!(text(&strip_chars(&chars(sample), ' ')), sample.trim_matches(' '));
    }
}

#[test]
fn text_equality() {
    assert!(str_equal("PING", "PING"));
    assert!(!str_equal("PING", "PONG"));
    assert!(!str_equal("PING", "PIN"));
    assert!(!str_equal("ping", "PING"));
    assert!(str_equal("", ""));
    assert!(chars_equal(&chars("é"), &chars("é")));
    assert!(!chars_equal(&chars("a"), &chars("")));
    assert!(chars_equal_ignoring_case(&chars("AbC"), &chars("aBc")));
    assert!(!chars_equal_ignoring_case(&chars("AbC"), &chars("aBd")));
    for (a, b) in [("Hello", "hELLO"), ("x", "y"), ("", ""), ("Straße", "STRASSE"), ("K", "\u{212a}")] {
        assert_eq!(chars_equal_ignoring_case(&chars(a), &chars(b)), a.eq_ignore_ascii_case(b));
    }
}

#[test]
fn prefix_test() {
    assert!(starts_with_chars(&chars("ACTION waves"), &chars("ACTION ")));
    assert!(starts_with_chars(&chars("abc"), &chars("")));
    assert!(starts_with_chars(&chars("abc"), &chars("abc")));
    assert!(!starts_with_chars(&chars("ab"), &chars("abc")));
    assert!(!starts_with_chars(&chars("ACTIONS"), &chars("ACTION ")));
}

#[test]
fn decimal_digits() {
    for n in [0u16, 1, 9, 10, 11, 99, 100, 101, 999, 1000, 6667, 6697, 9999, 10000, 65535] {
        let mut s = "p".to_string();
        push_decimal(&mut s, n);
        assert_eq!(s, format!("p{}", n));
    }
}
