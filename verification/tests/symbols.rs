//! Symbols and their assets.

use grid_trader::exchange::symbol::split_symbol;

#[test]
fn symbols_are_split_at_the_longest_quote_asset() {
    assert_eq!(split_symbol("USDCUSDT"), Some(("USDC", "USDT")));
    assert_eq!(split_symbol("BTCUSDT"), Some(("BTC", "USDT")));
    assert_eq!(split_symbol("ETHBTC"), Some(("ETH", "BTC")));
}

#[test]
fn every_quote_asset_is_known() {
    for quote in ["USDT", "BUSD", "USDC", "BTC", "ETH", "BNB", "USD"] {
        let symbol = format!("XYZ{quote}");
        assert_eq!(split_symbol(&symbol), Some(("XYZ", quote)));
    }
}

#[test]
fn symbols_without_both_assets_are_not_split() {
    assert_eq!(split_symbol(""), None);
    assert_eq!(split_symbol("BTC"), None);
    assert_eq!(split_symbol("USDT"), None);
    assert_eq!(split_symbol("btcusdt"), None);
    assert_eq!(split_symbol("BTCEUR"), None);
}
