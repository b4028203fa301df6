//! Text: numbers, comparing, cutting.

use grid_trader::text::{
    before, eq_ignore_ascii_case, i64_text, join, parse_i64, parse_u64, same_text, strip_prefix, strip_suffix, u64_text,
};

#[test]
fn whole_numbers_read_back() {
    for i in [0, 1, 9, 10, -1, -10, 1234567890123, i64::MAX, i64::MIN] {
        assert_eq!(i64_text(i), i.to_string());
        assert_eq!(parse_i64(&i64_text(i)), Some(i));
    }
    for n in [0, 7, 10, 600, u64::MAX] {
        assert_eq!(u64_text(n), n.to_string());
        assert_eq!(parse_u64(&u64_text(n)), Some(n));
    }
}

#[test]
fn what_is_no_whole_number_is_refused() {
    for text in ["", "-", "+", "1x", " 1", "1.0", "9223372036854775808", "-9223372036854775809", "--1"] {
        assert_eq!(parse_i64(text), text.parse::<i64>().ok(), "{text}");
    }
    for text in ["", "-1", "+", "18446744073709551616", "12a"] {
        assert_eq!(parse_u64(text), text.parse::<u64>().ok(), "{text}");
    }
    assert_eq!(parse_i64("+5"), Some(5));
    assert_eq!(parse_u64("+5"), Some(5));
    assert_eq!(parse_i64("007"), Some(7));
}

#[test]
fn text_is_compared() {
    assert!(same_text("网格", "网格"));
    assert!(!same_text("a", "A"));
    assert!(eq_ignore_ascii_case("btcUSDT", "BTCusdt"));
    assert!(!eq_ignore_ascii_case("btc", "btcx"));
    assert!(!eq_ignore_ascii_case("é", "É"));
    assert!(before("ADAUSDT", "BTCUSDT"));
    assert!(before("BTC", "BTCUSDT"));
    assert!(!before("BTC", "BTC"));
    assert!(before("Z", "a"));
    assert!(before("é", "网"));
}

#[test]
fn text_is_cut() {
    assert_eq!(strip_prefix("Bearer x", "Bearer "), Some("x"));
    assert_eq!(strip_prefix("bearer x", "Bearer "), None);
    assert_eq!(strip_suffix("BTCUSDT", "USDT"), Some("BTC"));
    assert_eq!(strip_suffix("USDT", "USDT"), Some(""));
    assert_eq!(strip_suffix("DT", "USDT"), None);
    assert_eq!(join("a", "b"), "ab");
}
