//! The requests that are made, each with its parameters.

use crate::decimal::decimal_text;
use crate::exchange::client::{
    added_by_signing, pairs, unsigned, with_time, BinanceClient, Method, PublicCall, SignedCall,
};
use crate::exchange::types::{order_side_text, OrderSide, PlaceOrderRequest};
use crate::text::{digits, i64_text, int_text, u64_text};
use vstd::prelude::*;

verus! {

/// Whether a request has this method, path and parameters, and was not sent yet.
pub open spec fn is_call(
    call: SignedCall,
    method: Method,
    path: Seq<char>,
    params: Seq<(Seq<char>, Seq<char>)>,
) -> bool {
    call.method == method && call.path@ == path && pairs(call.params@) == params && !call.retried
}

/// The parameters of an order.
pub open spec fn order_params(req: PlaceOrderRequest) -> Seq<(Seq<char>, Seq<char>)> {
    let order = seq![
        ("symbol"@, req.symbol@),
        ("side"@, order_side_text(req.side)),
        ("type"@, "LIMIT"@),
        ("quantity"@, req.quantity.text()),
        ("price"@, req.price.text()),
        ("timeInForce"@, "GTC"@),
    ];
    match req.client_order_id {
        Some(id) => order.push(("newClientOrderId"@, id@)),
        None => order,
    }
}

/// Parameters, of which there are at most two here.
fn params_of(symbol: &str, more: Option<(&str, String)>) -> (r: Vec<(String, String)>)
    ensures
        pairs(r@) == match more {
            Some((name, value)) => seq![("symbol"@, symbol@), (name@, value@)],
            None => seq![("symbol"@, symbol@)],
        },
{
    let mut r: Vec<(String, String)> = Vec::new();
    r.push(("symbol".to_owned(), symbol.to_owned()));
    assert(pairs(r@) =~= seq![("symbol"@, symbol@)]);
    if let Some((name, value)) = more {
        r.push((name.to_owned(), value));
        assert(pairs(r@) =~= seq![("symbol"@, symbol@), (name@, value@)]);
    }
    r
}

impl BinanceClient {
    /// A limit order that stands until it is cancelled.
    pub fn place_order(&self, req: PlaceOrderRequest) -> (r: SignedCall)
        ensures
            is_call(r, Method::Post, "/api/v3/order"@, order_params(req)),
    {
        let mut params: Vec<(String, String)> = Vec::new();
        params.push(("symbol".to_owned(), req.symbol));
        params.push(("side".to_owned(), req.side.to_text().to_owned()));
        params.push(("type".to_owned(), "LIMIT".to_owned()));
        params.push(("quantity".to_owned(), req.quantity.to_text()));
        params.push(("price".to_owned(), req.price.to_text()));
        params.push(("timeInForce".to_owned(), "GTC".to_owned()));
        if let Some(id) = req.client_order_id {
            params.push(("newClientOrderId".to_owned(), id));
        }
        assert(pairs(params@) =~= order_params(req));
        SignedCall {
            method: Method::Post,
            path: "/api/v3/order".to_owned(),
            params,
            retried: false,
        }
    }

    /// The orders of a symbol that stand.
    pub fn get_open_orders(&self, symbol: &str) -> (r: SignedCall)
        ensures
            is_call(r, Method::Get, "/api/v3/openOrders"@, seq![("symbol"@, symbol@)]),
    {
        SignedCall {
            method: Method::Get,
            path: "/api/v3/openOrders".to_owned(),
            params: params_of(symbol, None),
            retried: false,
        }
    }

    /// One order, by its number.
    pub fn query_order(&self, symbol: &str, order_id: i64) -> (r: SignedCall)
        ensures
            is_call(
                r,
                Method::Get,
                "/api/v3/order"@,
                seq![("symbol"@, symbol@), ("orderId"@, int_text(order_id as int))],
            ),
    {
        SignedCall {
            method: Method::Get,
            path: "/api/v3/order".to_owned(),
            params: params_of(symbol, Some(("orderId", i64_text(order_id)))),
            retried: false,
        }
    }

    /// One order, by the key under which it was placed.
    pub fn query_order_by_client_id(&self, symbol: &str, client_order_id: &str) -> (r: SignedCall)
        ensures
            is_call(
                r,
                Method::Get,
                "/api/v3/order"@,
                seq![("symbol"@, symbol@), ("origClientOrderId"@, client_order_id@)],
            ),
    {
        SignedCall {
            method: Method::Get,
            path: "/api/v3/order".to_owned(),
            params: params_of(symbol, Some(("origClientOrderId", client_order_id.to_owned()))),
            retried: false,
        }
    }

    /// Cancels every order of a symbol.
    pub fn cancel_all_orders(&self, symbol: &str) -> (r: SignedCall)
        ensures
            is_call(r, Method::Delete, "/api/v3/openOrders"@, seq![("symbol"@, symbol@)]),
    {
        SignedCall {
            method: Method::Delete,
            path: "/api/v3/openOrders".to_owned(),
            params: params_of(symbol, None),
            retried: false,
        }
    }

    /// Cancels one order.
    pub fn cancel_order(&self, symbol: &str, order_id: i64) -> (r: SignedCall)
        ensures
            is_call(
                r,
                Method::Delete,
                "/api/v3/order"@,
                seq![("symbol"@, symbol@), ("orderId"@, int_text(order_id as int))],
            ),
    {
        SignedCall {
            method: Method::Delete,
            path: "/api/v3/order".to_owned(),
            params: params_of(symbol, Some(("orderId", i64_text(order_id)))),
            retried: false,
        }
    }

    /// What the account holds.
    pub fn get_spot_balances(&self) -> (r: SignedCall)
        ensures
            is_call(
                r,
                Method::Get,
                "/api/v3/account"@,
                Seq::<(Seq<char>, Seq<char>)>::empty(),
            ),
    {
        let params: Vec<(String, String)> = Vec::new();
        assert(pairs(params@) =~= Seq::<(Seq<char>, Seq<char>)>::empty());
        SignedCall {
            method: Method::Get,
            path: "/api/v3/account".to_owned(),
            params,
            retried: false,
        }
    }

    /// Past prices of a symbol.
    pub fn get_klines(&self, symbol: &str, interval: &str, limit: u32) -> (r: PublicCall)
        ensures
            r.path@ == "/api/v3/klines"@,
            pairs(r.query@) == seq![
                ("symbol"@, symbol@),
                ("interval"@, interval@),
                ("limit"@, digits(limit as nat)),
            ],
    {
        let mut query = params_of(symbol, Some(("interval", interval.to_owned())));
        let ghost before = pairs(query@);
        query.push(("limit".to_owned(), u64_text(limit as u64)));
        assert(pairs(query@) =~= before.push(("limit"@, digits(limit as nat))));
        assert(pairs(query@) =~= seq![
            ("symbol"@, symbol@),
            ("interval"@, interval@),
            ("limit"@, digits(limit as nat)),
        ]);
        PublicCall { path: "/api/v3/klines".to_owned(), query }
    }

    /// The trading rules of a symbol.
    pub fn get_symbol_filters(&self, symbol: &str) -> (r: PublicCall)
        ensures
            r.path@ == "/api/v3/exchangeInfo"@,
            pairs(r.query@) == seq![("symbol"@, symbol@)],
    {
        PublicCall { path: "/api/v3/exchangeInfo".to_owned(), query: params_of(symbol, None) }
    }

    /// The last price of a symbol.
    pub fn get_ticker_price(&self, symbol: &str) -> (r: PublicCall)
        ensures
            r.path@ == "/api/v3/ticker/price"@,
            pairs(r.query@) == seq![("symbol"@, symbol@)],
    {
        PublicCall { path: "/api/v3/ticker/price".to_owned(), query: params_of(symbol, None) }
    }
}

/// Sending a request a second time repeats none of its parameters: what signing added
/// the first time is taken out again, and nothing else.
pub proof fn law_second_attempt_keeps_parameters(
    params: Seq<(Seq<char>, Seq<char>)>,
    timestamp: int,
)
    requires
        forall|i: int| 0 <= i < params.len() ==> !added_by_signing(#[trigger] params[i].0),
    ensures
        unsigned(with_time(params, timestamp)) == params,
{
    reveal(Seq::filter);
    let keep = |p: (Seq<char>, Seq<char>)| !added_by_signing(p.0);
    let window = params.push(("recvWindow"@, digits(5000)));
    let all = with_time(params, timestamp);
    assert(all.drop_last() =~= window);
    assert(window.drop_last() =~= params);
    assert(all.filter(keep) == window.filter(keep));
    assert(window.filter(keep) == params.filter(keep));
    lemma_filter_all(params);
}

proof fn lemma_filter_all(params: Seq<(Seq<char>, Seq<char>)>)
    requires
        forall|i: int| 0 <= i < params.len() ==> !added_by_signing(#[trigger] params[i].0),
    ensures
        unsigned(params) == params,
    decreases params.len(),
{
    reveal(Seq::filter);
    if params.len() > 0 {
        lemma_filter_all(params.drop_last());
        assert(!added_by_signing(params[params.len() - 1].0));
        assert(params =~= params.drop_last().push(params.last()));
    } else {
        assert(unsigned(params) =~= params);
    }
}

/// An order is sent as it is: to buy or to sell, the quantity and the price in the digits in
/// which they are written, to stand until it is cancelled, and under its key if it has one.
pub proof fn law_orders_are_sent_as_they_are(
    client: &BinanceClient,
    req: PlaceOrderRequest,
    r: SignedCall,
)
    requires
        call_ensures(BinanceClient::place_order, (client, req), r),
    ensures
        r.method == Method::Post,
        r.path@ == "/api/v3/order"@,
        !r.retried,
        ({
            let sent = pairs(r.params@);
            &&& sent.len() == (if req.client_order_id is Some {
                7int
            } else {
                6
            })
            &&& sent[0] == ("symbol"@, req.symbol@)
            &&& req.side == OrderSide::Buy ==> sent[1] == ("side"@, "BUY"@)
            &&& req.side == OrderSide::Sell ==> sent[1] == ("side"@, "SELL"@)
            &&& sent[2] == ("type"@, "LIMIT"@)
            &&& sent[3] == (
                "quantity"@,
                decimal_text(req.quantity.coefficient(), req.quantity.places()),
            )
            &&& sent[4] == ("price"@, decimal_text(req.price.coefficient(), req.price.places()))
            &&& sent[5] == ("timeInForce"@, "GTC"@)
            &&& req.client_order_id matches Some(id) ==> sent[6] == ("newClientOrderId"@, id@)
        }),
{
}

/// Orders are looked up and cancelled by their own number or key and for their own symbol, one
/// or all of them.
pub proof fn law_orders_are_named_by_number_and_symbol(
    client: &BinanceClient,
    symbol: &str,
    order_id: i64,
    key: &str,
    query: SignedCall,
    by_key: SignedCall,
    cancel: SignedCall,
    cancel_all: SignedCall,
    open: SignedCall,
)
    requires
        call_ensures(BinanceClient::query_order, (client, symbol, order_id), query),
        call_ensures(BinanceClient::query_order_by_client_id, (client, symbol, key), by_key),
        call_ensures(BinanceClient::cancel_order, (client, symbol, order_id), cancel),
        call_ensures(BinanceClient::cancel_all_orders, (client, symbol), cancel_all),
        call_ensures(BinanceClient::get_open_orders, (client, symbol), open),
    ensures
        ({
            let named = seq![("symbol"@, symbol@), ("orderId"@, int_text(order_id as int))];
            &&& query.method == Method::Get && query.path@ == "/api/v3/order"@ && pairs(
                query.params@,
            ) =~= named
            &&& cancel.method == Method::Delete && cancel.path@ == "/api/v3/order"@ && pairs(
                cancel.params@,
            ) =~= named
            &&& by_key.method == Method::Get && by_key.path@ == "/api/v3/order"@ && pairs(
                by_key.params@,
            ) =~= seq![("symbol"@, symbol@), ("origClientOrderId"@, key@)]
            &&& cancel_all.method == Method::Delete && cancel_all.path@ == "/api/v3/openOrders"@
                && pairs(cancel_all.params@) =~= seq![("symbol"@, symbol@)]
            &&& open.method == Method::Get && open.path@ == "/api/v3/openOrders"@ && pairs(
                open.params@,
            ) =~= seq![("symbol"@, symbol@)]
            &&& !query.retried && !by_key.retried && !cancel.retried && !cancel_all.retried
                && !open.retried
        }),
{
}

} // verus!
