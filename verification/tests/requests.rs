//! Requests to the exchange, and what is taken from the replies.

use grid_trader::decimal::{Decimal, Overflow};
use grid_trader::exchange::client::{BinanceClient, CallStep, Method, SignedCall};
use grid_trader::exchange::error::{BinanceApiError, BinanceError};
use grid_trader::exchange::replies::{
    cancel_all_outcome, closing_prices, free_of, spot_balances, symbol_filters,
};
use grid_trader::exchange::types::{
    ExchangeInfo, FilterInfo, OrderSide, PlaceOrderRequest, SpotBalance, SymbolInfo,
};

fn d(text: &str) -> Decimal {
    Decimal::parse(text).unwrap()
}

fn client() -> BinanceClient {
    BinanceClient::new("key", "Jefe", "https://api.example.com")
}

fn pairs(params: &[(String, String)]) -> Vec<(&str, &str)> {
    params.iter().map(|(k, v)| (k.as_str(), v.as_str())).collect()
}

fn order() -> PlaceOrderRequest {
    PlaceOrderRequest {
        symbol: "BTCUSDT".to_owned(),
        side: OrderSide::Buy,
        quantity: d("0.010"),
        price: d("50000"),
        client_order_id: Some("g1v2".to_owned()),
    }
}

#[test]
fn messages_are_signed_with_the_secret() {
    // A published test vector of HMAC with SHA-256.
    assert_eq!(
        client().sign("what do ya want for nothing?"),
        "5bdcc146bf60754e6a042426089575c75a003f089d2739839dec58b964ec3843"
    );
    let other = BinanceClient::new("key", "jefe", "https://api.example.com");
    assert_ne!(other.sign("x"), client().sign("x"));
}

#[test]
fn orders_are_sent_as_a_form() {
    let mut call = client().place_order(order());
    assert_eq!(
        pairs(&call.params),
        [
            ("symbol", "BTCUSDT"),
            ("side", "BUY"),
            ("type", "LIMIT"),
            ("quantity", "0.010"),
            ("price", "50000"),
            ("timeInForce", "GTC"),
            ("newClientOrderId", "g1v2"),
        ]
    );
    let mut c = client();
    c.time_offset_ms = 5;
    let request = c.signed_req_once(&mut call, 1000).unwrap();
    assert_eq!(request.method, Method::Post);
    assert_eq!(request.url, "https://api.example.com/api/v3/order");
    assert_eq!(request.api_key.as_deref(), Some("key"));
    assert!(request.query.is_empty());
    let line = "symbol=BTCUSDT&side=BUY&type=LIMIT&quantity=0.010&price=50000&timeInForce=GTC\
                &newClientOrderId=g1v2&recvWindow=5000&timestamp=1005";
    assert_eq!(request.form, Some(format!("{line}&signature={}", c.sign(line))));
}

#[test]
fn an_order_without_a_key_has_no_such_parameter() {
    let call = client().place_order(PlaceOrderRequest { client_order_id: None, ..order() });
    assert_eq!(call.params.len(), 6);
    assert_eq!(pairs(&call.params)[5], ("timeInForce", "GTC"));
}

#[test]
fn other_signed_requests_use_the_query() {
    let mut call = client().cancel_order("BTCUSDT", -7);
    let c = client();
    let request = c.signed_req_once(&mut call, 1000).unwrap();
    assert_eq!(request.method, Method::Delete);
    assert_eq!(request.form, None);
    let line = "symbol=BTCUSDT&orderId=-7&recvWindow=5000&timestamp=1000";
    let signature = c.sign(line);
    assert_eq!(
        pairs(&request.query),
        [
            ("symbol", "BTCUSDT"),
            ("orderId", "-7"),
            ("recvWindow", "5000"),
            ("timestamp", "1000"),
            ("signature", signature.as_str()),
        ]
    );
}

#[test]
fn each_request_has_its_path() {
    let signed = |c: SignedCall| (c.method, c.path, c.params.len());
    let of = |m: Method, p: &str, n: usize| (m, p.to_owned(), n);
    assert_eq!(
        signed(client().get_open_orders("A")),
        of(Method::Get, "/api/v3/openOrders", 1)
    );
    assert_eq!(signed(client().query_order("A", 1)), of(Method::Get, "/api/v3/order", 2));
    assert_eq!(
        signed(client().query_order_by_client_id("A", "k")),
        of(Method::Get, "/api/v3/order", 2)
    );
    assert_eq!(
        signed(client().cancel_all_orders("A")),
        of(Method::Delete, "/api/v3/openOrders", 1)
    );
    assert_eq!(signed(client().get_spot_balances()), of(Method::Get, "/api/v3/account", 0));
    let klines = client().get_klines("A", "1h", 24);
    assert_eq!(klines.path, "/api/v3/klines");
    assert_eq!(pairs(&klines.query), [("symbol", "A"), ("interval", "1h"), ("limit", "24")]);
    assert_eq!(client().get_symbol_filters("A").path, "/api/v3/exchangeInfo");
    let ticker = client().unsigned_get(client().get_ticker_price("A"), 1000);
    assert_eq!(ticker.url, "https://api.example.com/api/v3/ticker/price");
    assert_eq!(ticker.api_key, None);
    let time = client().sync_time_request(1000);
    assert_eq!(time.url, "https://api.example.com/api/v3/time");
    assert_eq!((ticker.wait_ms, time.wait_ms), (0, 0));
}

#[test]
fn a_wrong_clock_is_set_and_the_request_repeated_once() {
    let mut call = client().query_order("BTCUSDT", 9);
    let mut c = client();
    c.signed_req_once(&mut call, 1000).unwrap();
    let off = || Err(BinanceError::Api { code: -1021, msg: "time".to_owned() });
    let mut again = match BinanceClient::signed_req(call, off()) {
        CallStep::SyncTime(call) => call,
        CallStep::Done(_) => panic!("not repeated"),
    };
    assert_eq!(pairs(&again.params), [("symbol", "BTCUSDT"), ("orderId", "9")]);
    assert_eq!(c.sync_time_offset(1500, 1100), Some(400));
    let request = c.signed_req_once(&mut again, 1200).unwrap();
    assert_eq!(pairs(&request.query)[3], ("timestamp", "1600"));
    assert!(matches!(BinanceClient::signed_req(again, off()), CallStep::Done(Err(_))));
}

#[test]
fn other_outcomes_are_final() {
    let call = client().query_order("BTCUSDT", 9);
    let done = BinanceClient::signed_req(call, Ok("{}".to_owned()));
    assert!(matches!(done, CallStep::Done(Ok(body)) if body == "{}"));
    let call = client().query_order("BTCUSDT", 9);
    let refused = Err(BinanceError::Api { code: -1003, msg: String::new() });
    assert!(matches!(BinanceClient::signed_req(call, refused), CallStep::Done(Err(_))));
}

#[test]
fn clocks_out_of_range_are_reported() {
    let mut c = client();
    assert_eq!(c.sync_time_offset(i64::MAX, -1), None);
    assert_eq!(c.time_offset_ms, 0);
    c.time_offset_ms = 1;
    let mut call = client().get_spot_balances();
    assert!(matches!(c.signed_req_once(&mut call, i64::MAX), Err(Overflow)));
    assert!(call.params.is_empty());
}

#[test]
fn too_many_requests_hold_back_the_next() {
    let mut c = client();
    assert!(c.rate_limited(200, Some("5"), 1000).unwrap().is_none());
    assert_eq!(c.await_throttle(1000), 0);
    let limited = c.rate_limited(429, Some("5"), 1000).unwrap();
    assert!(matches!(limited, Some(BinanceError::RateLimit { retry_after_ms: 5000 })));
    assert_eq!(c.await_throttle(1000), 5000);
    assert_eq!(c.await_throttle(5999), 1);
    assert_eq!(c.await_throttle(6000), 0);
    // A shorter pause does not replace a longer one.
    let limited = c.rate_limited(418, None, 1000).unwrap();
    assert!(matches!(limited, Some(BinanceError::RateLimit { retry_after_ms: 1000 })));
    assert_eq!(c.await_throttle(1000), 5000);
    let limited = c.rate_limited(418, Some("soon"), 9000).unwrap();
    assert!(matches!(limited, Some(BinanceError::RateLimit { retry_after_ms: 1000 })));
    assert_eq!(c.await_throttle(9000), 1000);
    assert!(c.rate_limited(429, Some("18446744073709551615"), 0).is_err());
}

#[test]
fn every_request_waits_out_a_pause() {
    let mut c = client();
    c.rate_limited(429, Some("5"), 1000).unwrap();
    for (now, wait) in [(1000, 5000), (5999, 1), (6000, 0), (7000, 0)] {
        let mut call = c.query_order("BTCUSDT", 9);
        assert_eq!(c.signed_req_once(&mut call, now).unwrap().wait_ms, wait);
        let mut order = c.place_order(order());
        assert_eq!(c.signed_req_once(&mut order, now).unwrap().wait_ms, wait);
        assert_eq!(c.unsigned_get(c.get_ticker_price("A"), now).wait_ms, wait);
        assert_eq!(c.sync_time_request(now).wait_ms, wait);
    }
}

#[test]
fn replies_are_bodies_or_refusals() {
    let read = |status, refusal| BinanceClient::parse_response(status, "body".to_owned(), refusal);
    assert!(matches!(read(200, None), Ok(b) if b == "body"));
    assert!(matches!(read(299, None), Ok(_)));
    assert!(matches!(read(300, None), Err(BinanceError::Parse(b)) if b == "body"));
    assert!(matches!(read(199, None), Err(BinanceError::Parse(_))));
    let refusal = BinanceApiError { code: -2010, msg: "no".to_owned() };
    assert!(matches!(
        read(400, Some(refusal)),
        Err(BinanceError::Api { code: -2010, msg }) if msg == "no"
    ));
}

#[test]
fn errors_have_words() {
    let api = BinanceError::Api { code: -2010, msg: "no".to_owned() };
    assert_eq!(api.to_text(), "Binance API 错误 -2010: no");
    assert_eq!(BinanceError::Http("x".to_owned()).to_text(), "HTTP 错误: x");
    assert_eq!(
        BinanceError::RateLimit { retry_after_ms: 7 }.to_text(),
        "速率限制 (429)，等待 7ms"
    );
    assert_eq!(BinanceError::Parse("x".to_owned()).to_text(), "响应解析错误: x");
}

#[test]
fn nothing_to_cancel_is_as_good_as_cancelled() {
    assert!(cancel_all_outcome(Ok(())).is_ok());
    let refused = |code| Err(BinanceError::Api { code, msg: String::new() });
    assert!(cancel_all_outcome(refused(-2011)).is_ok());
    assert!(cancel_all_outcome(refused(-2013)).is_err());
    assert!(cancel_all_outcome(Err(BinanceError::Http(String::new()))).is_err());
}

#[test]
fn closing_prices_are_in_the_fifth_cell() {
    let cells = |texts: &[&str]| -> Vec<Option<String>> {
        let mut row = vec![None];
        row.extend(texts.iter().map(|t| Some(t.to_string())));
        row
    };
    let rows = vec![cells(&["1", "2", "3", "4.5", "6"]), cells(&["1", "2", "3", "5"])];
    assert_eq!(closing_prices(&rows).unwrap(), [d("4.5"), d("5")]);
    for bad in [cells(&["1", "2", "3"]), cells(&["1", "2", "3", "x"]), vec![None; 5]] {
        let rows = vec![cells(&["1", "2", "3", "4"]), bad];
        assert!(matches!(
            closing_prices(&rows),
            Err(BinanceError::Parse(reason)) if reason == "K线 close 字段缺失或非法"
        ));
    }
    assert!(closing_prices(&vec![]).unwrap().is_empty());
}

fn rule(fields: &[(&str, Option<&str>)]) -> FilterInfo {
    FilterInfo {
        fields: fields.iter().map(|(k, v)| (k.to_string(), v.map(str::to_string))).collect(),
    }
}

#[test]
fn trading_rules_are_picked_by_type() {
    let info = ExchangeInfo {
        symbols: vec![
            SymbolInfo { symbol: "ETHUSDT".to_owned(), filters: vec![] },
            SymbolInfo {
                symbol: "BTCUSDT".to_owned(),
                filters: vec![
                    rule(&[("filterType", Some("PRICE_FILTER")), ("tickSize", Some("0.01"))]),
                    rule(&[
                        ("filterType", Some("LOT_SIZE")),
                        ("minQty", Some("0.0001")),
                        ("stepSize", Some("0.00001")),
                    ]),
                    rule(&[("filterType", Some("MIN_NOTIONAL")), ("minNotional", Some("10"))]),
                    rule(&[("filterType", Some("NOTIONAL")), ("minNotional", Some("5"))]),
                ],
            },
        ],
    };
    let f = symbol_filters(&info, "btcusdt").unwrap();
    assert_eq!(f.tick_size, d("0.01"));
    assert_eq!(f.step_size, d("0.00001"));
    assert_eq!(f.min_qty, d("0.0001"));
    assert_eq!(f.min_notional, d("5"));
    // Nothing is demanded where a rule is missing.
    let f = symbol_filters(&info, "ETHUSDT").unwrap();
    for value in [f.tick_size, f.step_size, f.min_qty, f.min_notional] {
        assert_eq!(value, Decimal::zero());
    }
    assert!(matches!(
        symbol_filters(&info, "XRPUSDT"),
        Err(BinanceError::Parse(reason)) if reason == "exchangeInfo 未返回 XRPUSDT"
    ));
}

#[test]
fn the_old_name_of_a_rule_is_known() {
    let info = ExchangeInfo {
        symbols: vec![SymbolInfo {
            symbol: "BTCUSDT".to_owned(),
            filters: vec![
                rule(&[("filterType", None)]),
                rule(&[("filterType", Some("MIN_NOTIONAL")), ("minNotional", Some("10"))]),
                rule(&[("filterType", Some("LOT_SIZE")), ("stepSize", Some("x"))]),
            ],
        }],
    };
    let f = symbol_filters(&info, "BTCUSDT").unwrap();
    assert_eq!(f.min_notional, d("10"));
    assert_eq!(f.step_size, Decimal::zero());
}

fn balance(asset: &str, free: &str, locked: &str) -> SpotBalance {
    SpotBalance { asset: asset.to_owned(), free: d(free), locked: d(locked) }
}

#[test]
fn balances_of_which_something_is_free_are_kept() {
    let all = || vec![
        balance("BTC", "1.5", "0"),
        balance("ETH", "0", "0"),
        balance("USDT", "0", "3"),
        balance("BNB", "0.1", "2"),
    ];
    let kept = spot_balances(all());
    let names: Vec<&str> = kept.iter().map(|b| b.asset.as_str()).collect();
    assert_eq!(names, ["BTC", "BNB"]);
    assert_eq!(free_of(&kept, "btc"), d("1.5"));
    assert_eq!(free_of(&kept, "ETH"), Decimal::zero());
    assert_eq!(client().get_asset_free(all(), "BTC"), d("1.5"));
    assert_eq!(client().get_asset_free(all(), "XRP").to_text(), "0");
    assert_eq!(client().get_asset_free(all(), "USDT").to_text(), "0");
    assert_eq!(free_of(&vec![balance("A", "1.500", "0")], "a").to_text(), "1.500");
    assert_eq!(client().get_asset_free_pair(all(), "BTC", "USDT"), (d("1.5"), d("0")));
}
