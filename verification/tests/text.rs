use codex_usage_tray::money::{dollars, Money};
use codex_usage_tray::double::Double;
use codex_usage_tray::text::{
    comma_decimal, comma_int, compact_tokens, double_percents, filled_text, full_tokens, has_part,
    html_escape, i64_text, is_blank, parse_small_integer, split_lines, token_scale,
    truncate_for_log, usize_text, without_nul, TokenScale,
};

#[test]
fn integers_are_grouped() {
    assert_eq!(comma_int(0), "0");
    assert_eq!(comma_int(7), "7");
    assert_eq!(comma_int(999), "999");
    assert_eq!(comma_int(1000), "1,000");
    assert_eq!(comma_int(1234567), "1,234,567");
    assert_eq!(comma_int(-1), "-1");
    assert_eq!(comma_int(-1234), "-1,234");
    assert_eq!(comma_int(i64::MAX), "9,223,372,036,854,775,807");
    assert_eq!(full_tokens(65536), "65,536");
}

#[test]
fn numbers_are_written_like_std_writes_them() {
    for n in [0i64, 1, 9, 10, 11, 99, 100, 12345, -1, -10, i64::MAX, i64::MIN] {
        assert_eq!(i64_text(n), n.to_string());
    }
    for n in [0usize, 5, 10, 63, 64, 1000000, usize::MAX] {
        assert_eq!(usize_text(n), n.to_string());
        assert_eq!(filled_text(n, 4), format!("{n:04}"));
    }
    assert_eq!(filled_text(7, 0), "7");
}

#[test]
fn tokens_are_compact_from_millions_on() {
    assert!(matches!(token_scale(999_999), TokenScale::Plain));
    assert!(matches!(token_scale(1_000_000), TokenScale::Millions));
    assert!(matches!(token_scale(-1_000_000), TokenScale::Millions));
    assert!(matches!(token_scale(999_999_999), TokenScale::Millions));
    assert!(matches!(token_scale(1_000_000_000), TokenScale::Billions));
    assert_eq!(compact_tokens(999_999, "unused"), "999,999");
    assert_eq!(compact_tokens(1_500_000, "1.5"), "1.5M");
    assert_eq!(compact_tokens(2_340_000_000, "2.34"), "2.34B");
}

#[test]
fn decimals_are_grouped() {
    assert_eq!(comma_decimal("1234.5", 1235), "1,234.5");
    assert_eq!(comma_decimal("999.9", 1000), "999.9");
    assert_eq!(comma_decimal("inf", 7), "7");
    assert_eq!(comma_decimal("x.5", 7), "0.5");
    assert_eq!(comma_decimal("-1234.5", 0), "-1,234.5");
}

fn money(x: f64) -> Money {
    Money {
        amount: Double { bits: x.to_bits() },
        rounded: x.round() as i64,
        one_decimal: format!("{x:.1}"),
        two_decimals: format!("{x:.2}"),
    }
}

#[test]
fn dollars_lose_decimals_as_they_grow() {
    assert_eq!(dollars(&None), "n/a");
    assert_eq!(dollars(&Some(money(0.0))), "$0.00");
    assert_eq!(dollars(&Some(money(99.994))), "$99.99");
    assert_eq!(dollars(&Some(money(99.999))), "$100.00");
    assert_eq!(dollars(&Some(money(100.0))), "$100.0");
    assert_eq!(dollars(&Some(money(999.96))), "$1,000.0");
    assert_eq!(dollars(&Some(money(1000.0))), "$1,000");
    assert_eq!(dollars(&Some(money(1234567.8))), "$1,234,568");
    assert_eq!(dollars(&Some(money(-5.5))), "$-5.50");
}

#[test]
fn markup_is_escaped() {
    assert_eq!(
        html_escape("<a href=\"x\">&amp;</a>"),
        "&lt;a href=&quot;x&quot;&gt;&amp;amp;&lt;/a&gt;"
    );
    assert_eq!(html_escape("plain 'text'"), "plain 'text'");
    assert_eq!(html_escape(""), "");
}

#[test]
fn percents_are_doubled_and_nuls_dropped() {
    assert_eq!(double_percents("5h 1% | W 67%"), "5h 1%% | W 67%%");
    assert_eq!(without_nul("a\0b\0"), "ab");
}

#[test]
fn lines_are_split_like_std_splits_them() {
    for text in ["", "a", "a\n", "a\r\nb", "\n\n", "a\rb\r\n\r", "x\n\ny\r\r\n"] {
        let expected: Vec<String> = text.lines().map(|line| line.to_string()).collect();
        assert_eq!(split_lines(text), expected, "{text:?}");
    }
}

#[test]
fn blank_lines_are_found() {
    for text in ["", " ", "\t\r", "\u{a0}\u{2003}\u{3000}", "\u{85}", " x ", "\u{200b}", "\u{feff}"] {
        assert_eq!(is_blank(text), text.trim().is_empty(), "{text:?}");
    }
    for code in 0..0x3100u32 {
        if let Some(c) = char::from_u32(code) {
            assert_eq!(is_blank(&c.to_string()), c.is_whitespace(), "{code:x}");
        }
    }
}

#[test]
fn long_lines_are_cut_for_the_log() {
    assert_eq!(truncate_for_log("short", 180), "short");
    assert_eq!(truncate_for_log("exactly", 7), "exactly");
    assert_eq!(truncate_for_log("too long", 3), "too…");
    assert_eq!(truncate_for_log("äöü", 2), "ä…");
}

#[test]
fn small_integers_are_parsed_like_std_parses_them() {
    for text in [
        "", " ", "0", " 42\n", "+7", "-7", "--7", "7 7", "2147483647", "2147483648",
        "-2147483648", "-2147483649", "99999999999999999999", "+", "-", "1x", "\u{a0}12\u{2003}",
    ] {
        assert_eq!(parse_small_integer(text), text.trim().parse::<i32>().ok(), "{text:?}");
    }
}

#[test]
fn parts_are_found() {
    for (text, part) in [
        ("The 5 hour limit", "5 hour"),
        ("5 hour", "5 hour"),
        ("5 hou", "5 hour"),
        ("", ""),
        ("", "x"),
        ("abc", ""),
        ("aab", "ab"),
        ("aaa", "ab"),
    ] {
        assert_eq!(has_part(text, part), text.contains(part), "{text:?} {part:?}");
    }
}
