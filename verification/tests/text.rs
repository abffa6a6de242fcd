use kurumi::utils::helpers::{format_duration, format_seconds, mask_token, truncate};
use kurumi::utils::text::{
    char_is_whitespace, decimal_string, push_decimal, signed_decimal_string, starts_with_at,
    string_of, to_chars, trimmed, word_end, word_spans,
};
use std::time::Duration;

#[test]
fn whitespace_agrees_with_std_on_every_char() {
    let mut n: u32 = 0;
    while n <= 0x10FFFF {
        if let Some(c) = char::from_u32(n) {
            assert_eq!(char_is_whitespace(c), c.is_whitespace(), "code point {:#x}", n);
        }
        n += 1;
    }
}

#[test]
fn decimal_matches_std_formatting() {
    assert_eq!(decimal_string(0), "0");
    assert_eq!(decimal_string(7), "7");
    assert_eq!(decimal_string(10), "10");
    assert_eq!(decimal_string(1234567890), "1234567890");
    assert_eq!(decimal_string(u128::MAX), format!("{}", u128::MAX));
    assert_eq!(signed_decimal_string(-1), "-1");
    assert_eq!(signed_decimal_string(0), "0");
    assert_eq!(signed_decimal_string(i64::MIN.into()), format!("{}", i64::MIN));
    assert_eq!(signed_decimal_string(i64::MAX.into()), format!("{}", i64::MAX));
    assert_eq!(signed_decimal_string(i128::MIN), format!("{}", i128::MIN));
    assert_eq!(signed_decimal_string(i128::MAX), format!("{}", i128::MAX));
}

#[test]
fn format_duration_names_units_from_the_largest() {
    assert_eq!(format_duration(Duration::from_secs(0)), "0s");
    assert_eq!(format_duration(Duration::from_secs(59)), "59s");
    assert_eq!(format_duration(Duration::from_secs(60)), "1m 0s");
    assert_eq!(format_duration(Duration::from_secs(8130)), "2h 15m 30s");
    assert_eq!(format_duration(Duration::from_secs(3600)), "1h 0m 0s");
    assert_eq!(format_duration(Duration::from_secs(86400)), "1d 0h 0m 0s");
    assert_eq!(format_duration(Duration::from_secs(90061)), "1d 1h 1m 1s");
    assert_eq!(format_duration(Duration::from_millis(1999)), "1s");
    assert_eq!(format_seconds(u64::MAX), "213503982334601d 7h 0m 15s");
}

#[test]
fn truncate_counts_characters() {
    assert_eq!(truncate("hello", 10), "hello");
    assert_eq!(truncate("hello", 5), "hello");
    assert_eq!(truncate("hello world", 5), "hello...");
    assert_eq!(truncate("héllo wörld", 2), "hé...");
    assert_eq!(truncate("abc", 0), "...");
    assert_eq!(truncate("", 0), "");
}

#[test]
fn mask_token_hides_the_middle() {
    assert_eq!(mask_token("abcdefghijklmnop"), "abcdef...mnop");
    assert_eq!(mask_token("abcdefghijk"), "abcdef...hijk");
    assert_eq!(mask_token("abcdefghij"), "***");
    assert_eq!(mask_token(""), "***");
}

#[test]
fn trimmed_removes_white_space_at_both_ends() {
    assert_eq!(trimmed("  token\n"), "token");
    assert_eq!(trimmed("token"), "token");
    assert_eq!(trimmed(" \t "), "");
    assert_eq!(trimmed(""), "");
    assert_eq!(trimmed(" a b "), "a b");
    assert_eq!(trimmed("\u{3000}x\u{a0}"), "x");
}

#[test]
fn trimmed_agrees_with_std_on_all_short_texts() {
    let alphabet = [' ', 'x', '\n', '\u{a0}', 'é'];
    let mut texts = vec![String::new()];
    let mut last = vec![String::new()];
    let mut len = 0;
    while len < 6 {
        let mut next = Vec::new();
        for s in &last {
            for c in alphabet {
                let mut longer = s.clone();
                longer.push(c);
                next.push(longer);
            }
        }
        texts.extend(next.iter().cloned());
        last = next;
        len += 1;
    }
    for text in texts {
        assert_eq!(trimmed(&text), text.trim(), "text {:?}", text);
    }
}

#[test]
fn format_seconds_follows_the_unit_rule_on_many_values() {
    let mut seconds: u64 = 0;
    while seconds < 200_000 {
        let d = seconds / 86400;
        let h = (seconds % 86400) / 3600;
        let m = (seconds % 3600) / 60;
        let s = seconds % 60;
        let expected = match (d, h, m, s) {
            (0, 0, 0, s) => format!("{}s", s),
            (0, 0, m, s) => format!("{}m {}s", m, s),
            (0, h, m, s) => format!("{}h {}m {}s", h, m, s),
            (d, h, m, s) => format!("{}d {}h {}m {}s", d, h, m, s),
        };
        assert_eq!(format_seconds(seconds), expected);
        seconds += 7;
    }
}

#[test]
fn decimal_agrees_with_std_around_powers_of_ten() {
    let mut power: u128 = 1;
    let mut round = 0;
    while round < 38 {
        for n in [power - 1, power, power + 1] {
            assert_eq!(decimal_string(n), format!("{}", n));
        }
        power *= 10;
        round += 1;
    }
}

#[test]
fn truncate_agrees_with_a_character_count_on_samples() {
    for text in ["", "a", "ab", "héllo", "日本語のテキスト", "a b c d e f g"] {
        let mut max = 0;
        while max < 12 {
            let count = text.chars().count();
            let expected = if count <= max {
                text.to_string()
            } else {
                let mut cut: String = text.chars().take(max).collect();
                cut.push_str("...");
                cut
            };
            assert_eq!(truncate(text, max), expected, "text {:?}, max {}", text, max);
            max += 1;
        }
    }
}

#[test]
fn positions_count_characters_not_bytes() {
    let cs = to_chars("é!! wörd  two");
    assert_eq!(cs.len(), 13);
    assert_eq!(string_of(&cs, 0, 1), "é");
    assert_eq!(string_of(&cs, 4, 8), "wörd");
    assert_eq!(string_of(&cs, 5, 5), "");
    assert_eq!(string_of(&cs, 0, cs.len()), "é!! wörd  two");
}

#[test]
fn starts_with_at_compares_in_place() {
    let cs = to_chars("ab!ab");
    let ab = to_chars("ab");
    assert!(starts_with_at(&cs, 0, &ab));
    assert!(!starts_with_at(&cs, 1, &ab));
    assert!(!starts_with_at(&cs, 2, &ab));
    assert!(starts_with_at(&cs, 3, &ab));
    assert!(!starts_with_at(&cs, 4, &ab));
    assert!(!starts_with_at(&cs, 5, &ab));
    assert!(starts_with_at(&cs, 5, &Vec::new()));
    assert!(starts_with_at(&cs, 0, &to_chars("ab!ab")));
    assert!(!starts_with_at(&cs, 0, &to_chars("ab!abc")));
}

#[test]
fn words_are_found_where_they_lie() {
    let cs = to_chars("  one two\t\tthree ");
    assert_eq!(word_spans(&cs, 0), vec![(2, 5), (6, 9), (11, 16)]);
    assert_eq!(word_spans(&cs, 3), vec![(3, 5), (6, 9), (11, 16)]);
    assert_eq!(word_spans(&cs, 16), vec![]);
    assert_eq!(word_spans(&cs, cs.len()), vec![]);
    assert_eq!(word_end(&cs, 2), 5);
    assert_eq!(word_end(&cs, 5), 5);
    assert_eq!(word_end(&cs, 11), 16);
    assert_eq!(word_end(&cs, cs.len()), cs.len());
    assert_eq!(word_spans(&to_chars("solo"), 0), vec![(0, 4)]);
    assert_eq!(word_spans(&Vec::new(), 0), vec![]);
}

#[test]
fn push_decimal_appends() {
    let mut s = "n=".to_string();
    push_decimal(&mut s, 305);
    push_decimal(&mut s, 0);
    assert_eq!(s, "n=3050");
}
