//! The turn of a grid, from one answer to the next.

use grid_trader::decimal::{Decimal, MAX_MANTISSA};
use grid_trader::engine::error::EngineError;
use grid_trader::engine::turn::{
    client_order_id, effective_buy_amount, process_single_grid, GridStep, Order,
};
use grid_trader::exchange::error::BinanceError;
use grid_trader::exchange::types::{OpenOrder, OrderResponse, OrderSide, SymbolFilters};
use grid_trader::models::user_grid::UserGrid;

fn d(text: &str) -> Decimal {
    Decimal::parse(text).unwrap()
}

fn grid(status: &str, side: &str) -> UserGrid {
    UserGrid {
        id: 3,
        user_id: 1,
        order_id: None,
        amount: if side == "buy" { d("200") } else { d("2") },
        buy_price: d("100"),
        sell_price: d("110"),
        side: side.to_owned(),
        symbol: "BTCUSDT".to_owned(),
        status: status.to_owned(),
        source: "auto".to_owned(),
        is_paused: false,
        version: 8,
        created_at: 0,
        updated_at: 0,
    }
}

fn filters() -> SymbolFilters {
    SymbolFilters {
        step_size: d("0.01"),
        min_qty: d("0.01"),
        tick_size: d("0.1"),
        min_notional: d("10"),
    }
}

fn api(code: i32) -> BinanceError {
    BinanceError::Api { code, msg: String::new() }
}

fn open_order(order_id: i64, status: &str, executed: &str, paid: &str) -> OpenOrder {
    OpenOrder {
        order_id,
        status: status.to_owned(),
        executed_qty: d(executed),
        cummulative_quote_qty: d(paid),
    }
}

fn plan(g: UserGrid, budget: Option<Decimal>, f: SymbolFilters) -> GridStep {
    match process_single_grid(g, &vec![], budget) {
        GridStep::PlaceRules(plan) => plan.resume(Ok(f)),
        _ => panic!("no order is planned"),
    }
}

fn submitted(g: UserGrid, budget: Option<Decimal>) -> Order {
    match plan(g, budget, filters()) {
        GridStep::Submit(order) => order,
        GridStep::Failed(e) => panic!("{e:?}"),
        _ => panic!("no order"),
    }
}

#[test]
fn a_new_buy_spends_its_amount() {
    let order = submitted(grid("new", "buy"), None);
    let request = order.request();
    assert_eq!(request.symbol, "BTCUSDT");
    assert_eq!(request.side, OrderSide::Buy);
    assert_eq!(request.quantity, d("2"));
    assert_eq!(request.price, d("100"));
    assert_eq!(request.client_order_id.as_deref(), Some("g3v8"));
    let placed = match order.resume(Ok(OrderResponse { order_id: 77 })) {
        GridStep::RecordOpen(placed) => placed,
        _ => panic!("not recorded"),
    };
    assert_eq!(placed.order_id_text(), "77");
    match placed.resume(Ok(true)) {
        GridStep::Done(spent) => assert_eq!(spent, Some(d("200"))),
        _ => panic!("not done"),
    }
}

#[test]
fn a_new_sell_sells_its_amount_and_spends_nothing() {
    let order = submitted(grid("new", "sell"), Some(d("0")));
    assert_eq!(order.side, OrderSide::Sell);
    assert_eq!((order.quantity, order.price), (d("2"), d("110")));
    match order.resume(Ok(OrderResponse { order_id: 77 })) {
        GridStep::RecordOpen(placed) => {
            assert!(matches!(placed.resume(Ok(true)), GridStep::Done(None)))
        }
        _ => panic!("not recorded"),
    }
}

#[test]
fn buys_stay_within_the_budget() {
    assert_eq!(effective_buy_amount(d("200"), None), d("200"));
    assert_eq!(effective_buy_amount(d("200"), Some(d("200"))), d("200"));
    assert_eq!(effective_buy_amount(d("200"), Some(d("150"))), d("149"));
    assert_eq!(effective_buy_amount(d("200"), Some(d("0.5"))), d("0"));
    let most = Decimal::new(MAX_MANTISSA - 1, 0).unwrap();
    let more = Decimal::new(MAX_MANTISSA, 0).unwrap();
    assert!(effective_buy_amount(more, Some(most)) <= most);
    let order = submitted(grid("new", "buy"), Some(d("150")));
    assert_eq!(order.quantity, d("1.49"));
}

#[test]
fn a_buy_costs_at_most_its_amount() {
    for (amount, price) in [("200", "99.9"), ("100", "70000"), ("33.33", "0.7")] {
        let mut g = grid("new", "buy");
        g.amount = d(amount);
        g.buy_price = d(price);
        let f = SymbolFilters { step_size: d("0.00001"), min_qty: d("0.00001"), ..filters() };
        match plan(g, None, f) {
            GridStep::Submit(order) => {
                let cost = order.quantity.checked_mul(order.price).unwrap();
                assert!(cost <= d(amount) && cost > d(amount).checked_sub(d("0.8")).unwrap());
            }
            _ => panic!("the order is not placed"),
        }
    }
}

#[test]
fn a_buy_spends_at_most_what_is_free() {
    for free in ["0.01", "1", "99.99", "150", "199.99999999", "200", "1000"] {
        let free = d(free);
        match plan(grid("new", "buy"), Some(free), filters()) {
            GridStep::Submit(order) => match order.resume(Ok(OrderResponse { order_id: 77 })) {
                GridStep::RecordOpen(placed) => match placed.resume(Ok(true)) {
                    GridStep::Done(Some(spent)) => assert!(spent <= free && spent <= d("200")),
                    _ => panic!("not done"),
                },
                _ => panic!("not recorded"),
            },
            GridStep::Failed(_) => assert!(free < d("150")),
            _ => panic!("no order"),
        }
    }
}

#[test]
fn prices_and_quantities_are_brought_down_before_an_order() {
    let mut g = grid("new", "buy");
    g.buy_price = d("99.99");
    let order = submitted(g, None);
    assert_eq!(order.price, d("99.9"));
    // 200 / 99.9, brought down to two digits.
    assert_eq!(order.quantity, d("2"));
}

#[test]
fn orders_are_written_like_the_step_and_the_tick() {
    let f = SymbolFilters {
        step_size: d("0.00001000"),
        tick_size: d("0.010"),
        ..filters()
    };
    let mut g = grid("new", "buy");
    g.buy_price = d("99.999");
    match plan(g, None, f) {
        GridStep::Submit(order) => {
            assert_eq!(order.price.to_text(), "99.990");
            assert_eq!(order.quantity.to_text(), "2.00020000");
        }
        _ => panic!("the order is not placed"),
    }
}

#[test]
fn orders_that_make_no_sense_are_not_placed() {
    let mut g = grid("new", "buy");
    g.buy_price = d("0.05");
    assert!(matches!(
        plan(g, None, filters()),
        GridStep::Failed(EngineError::PriceIsZero { grid_id: 3 })
    ));
    let mut g = grid("new", "sell");
    g.amount = d("0.001");
    assert!(matches!(
        plan(g, None, filters()),
        GridStep::Failed(EngineError::QuantityIsZero { grid_id: 3, .. })
    ));
    let mut g = grid("new", "sell");
    g.amount = d("0.05");
    match plan(g, None, filters()) {
        GridStep::Failed(EngineError::Refused { grid_id, reason }) => {
            assert_eq!(grid_id, 3);
            assert_eq!(reason, "名义价值 5.500 低于 minNotional 10");
        }
        _ => panic!("not refused"),
    }
    let mut g = grid("new", "buy");
    g.amount = Decimal::new(MAX_MANTISSA, 0).unwrap();
    g.buy_price = d("0.1");
    assert!(matches!(
        plan(g, None, filters()),
        GridStep::Failed(EngineError::NoQuantity { grid_id: 3 })
    ));
    let mut g = grid("new", "sell");
    g.amount = Decimal::new(MAX_MANTISSA, 0).unwrap();
    assert!(matches!(plan(g, None, filters()), GridStep::Failed(EngineError::Overflow)));
}

#[test]
fn missing_rules_end_the_turn() {
    let missing = EngineError::Context("x".to_owned(), api(-1));
    match process_single_grid(grid("new", "buy"), &vec![], None) {
        GridStep::PlaceRules(plan) => assert!(matches!(
            plan.resume(Err(missing)),
            GridStep::Failed(EngineError::Context(..))
        )),
        _ => panic!("no order is planned"),
    }
}

#[test]
fn a_lost_answer_is_looked_up() {
    let lost = || match submitted(grid("new", "buy"), None).resume(Err(api(-1))) {
        GridStep::Recover(recovery) => recovery,
        _ => panic!("not looked up"),
    };
    match lost().resume(Ok(open_order(55, "NEW", "0", "0"))) {
        GridStep::RecordOpen(placed) => assert_eq!(placed.order_id, 55),
        _ => panic!("not recorded"),
    }
    assert!(matches!(
        lost().resume(Err(api(-2013))),
        GridStep::Failed(EngineError::Exchange(BinanceError::Api { code: -1, .. }))
    ));
    assert!(matches!(
        lost().resume(Err(api(-1003))),
        GridStep::Failed(EngineError::RecoveryFailed {
            place: BinanceError::Api { code: -1, .. },
            recovery: BinanceError::Api { code: -1003, .. },
        })
    ));
}

#[test]
fn an_order_that_is_not_recorded_is_cancelled() {
    let placed = || match submitted(grid("new", "buy"), None).resume(Ok(OrderResponse { order_id: 77 })) {
        GridStep::RecordOpen(placed) => placed,
        _ => panic!("not recorded"),
    };
    match placed().resume(Ok(false)) {
        GridStep::CancelUntracked(u) => {
            assert_eq!((u.symbol.as_str(), u.order_id, u.grid_id), ("BTCUSDT", 77, 3));
            assert!(matches!(u.resume(Ok(())), GridStep::Done(None)));
        }
        _ => panic!("not cancelled"),
    }
    match placed().resume(Err("down".to_owned())) {
        GridStep::CancelUntracked(u) => {
            assert_eq!(u.order_id, 77);
            assert!(matches!(
                u.resume(Err(api(-1))),
                GridStep::Failed(EngineError::Database(reason)) if reason == "down"
            ));
        }
        _ => panic!("not cancelled"),
    }
}

fn open(side: &str, order_id: Option<&str>) -> UserGrid {
    UserGrid { order_id: order_id.map(str::to_owned), ..grid("open", side) }
}

#[test]
fn an_open_grid_without_an_order_is_made_new() {
    match process_single_grid(open("buy", None), &vec![], None) {
        GridStep::ResetToNew(reset) => {
            assert_eq!((reset.grid_id, reset.version), (3, 8));
            assert!(matches!(reset.resume(Ok(false)), GridStep::Done(None)));
        }
        _ => panic!("not made new"),
    }
    assert!(matches!(
        process_single_grid(open("buy", Some("x7")), &vec![], None),
        GridStep::Failed(EngineError::BadOrderId { grid_id: 3, order_id }) if order_id == "x7"
    ));
}

#[test]
fn an_order_that_stands_is_left_alone() {
    let orders = vec![open_order(1, "NEW", "0", "0"), open_order(77, "NEW", "0", "0")];
    assert!(matches!(
        process_single_grid(open("buy", Some("77")), &orders, None),
        GridStep::Done(None)
    ));
}

fn looked_up(g: UserGrid, order: OpenOrder) -> GridStep {
    match process_single_grid(g, &vec![open_order(1, "NEW", "0", "0")], None) {
        GridStep::QueryOrder(query) => {
            assert_eq!(query.order_id, 77);
            query.resume(Ok(order))
        }
        _ => panic!("not looked up"),
    }
}

#[test]
fn orders_at_work_are_waited_for() {
    for status in ["NEW", "PARTIALLY_FILLED", "PENDING_CANCEL"] {
        let step = looked_up(open("buy", Some("77")), open_order(77, status, "1", "100"));
        assert!(matches!(step, GridStep::Done(None)), "{status}");
    }
}

#[test]
fn orders_that_ended_without_a_fill_make_the_grid_new() {
    for status in ["CANCELED", "REJECTED", "EXPIRED", "EXPIRED_IN_MATCH"] {
        let step = looked_up(open("sell", Some("77")), open_order(77, status, "0", "0"));
        assert!(matches!(step, GridStep::ResetToNew(_)), "{status}");
    }
    let step = looked_up(open("sell", Some("77")), open_order(77, "odd", "0", "0"));
    assert!(matches!(step, GridStep::Failed(EngineError::Unknown(_))));
}

#[test]
fn a_filled_buy_is_closed_without_a_trade() {
    match looked_up(open("buy", Some("77")), open_order(77, "FILLED", "2", "199")) {
        GridStep::Close(filled) => {
            assert_eq!(filled.grid.amount, d("199"));
            assert!(filled.trade.is_none());
        }
        _ => panic!("not closed"),
    }
    // A buy that was filled in part and then cancelled.
    match looked_up(open("buy", Some("77")), open_order(77, "CANCELED", "0.5", "0")) {
        GridStep::Close(filled) => assert_eq!(filled.grid.amount, d("50")),
        _ => panic!("not closed"),
    }
    match looked_up(open("buy", Some("77")), open_order(77, "FILLED", "0", "0")) {
        GridStep::Close(filled) => assert_eq!(filled.grid.amount, d("200")),
        _ => panic!("not closed"),
    }
}

#[test]
fn a_filled_sale_is_closed_with_a_trade() {
    match looked_up(open("sell", Some("77")), open_order(77, "CANCELED", "1.5", "0")) {
        GridStep::Close(filled) => {
            let trade = filled.trade.unwrap();
            assert_eq!(filled.grid.amount, d("1.5"));
            assert_eq!(trade.amount, d("1.5"));
            assert_eq!((trade.buy_price, trade.sell_price), (d("100"), d("110")));
            assert_eq!((trade.order_id.as_str(), trade.source.as_str()), ("77", "user_grid"));
            assert_eq!((trade.user_id, trade.source_id), (1, 3));
        }
        _ => panic!("not closed"),
    }
}

#[test]
fn a_filled_buy_is_turned_into_a_sale() {
    let filled = match looked_up(open("buy", Some("77")), open_order(77, "FILLED", "2", "199")) {
        GridStep::Close(filled) => filled,
        _ => panic!("not closed"),
    };
    let flip = match filled.resume(Ok(true)) {
        GridStep::FlipRules(plan) => {
            assert_eq!(plan.version, 9);
            plan.resume(Ok(filters()))
        }
        _ => panic!("not turned round"),
    };
    let flipping = match flip {
        GridStep::Flip(flipping) => flipping,
        _ => panic!("not turned round"),
    };
    assert_eq!(flipping.amount, d("1.99"));
    match flipping.resume(Ok(true)) {
        GridStep::PlaceRules(plan) => {
            assert_eq!((plan.grid.side.as_str(), plan.grid.status.as_str()), ("sell", "new"));
            assert_eq!((plan.grid.version, plan.grid.order_id.clone()), (10, None));
            assert_eq!(plan.price, d("110"));
            match plan.resume(Ok(filters())) {
                GridStep::Submit(order) => {
                    assert_eq!(order.client_order_id, "g3v10");
                    assert_eq!(order.quantity, d("1.99"));
                }
                _ => panic!("no order"),
            }
        }
        _ => panic!("no order is planned"),
    }
}

#[test]
fn a_closed_sale_is_turned_into_a_buy() {
    let flipping = match process_single_grid(grid("closed", "sell"), &vec![], None) {
        GridStep::FlipRules(plan) => {
            assert_eq!(plan.version, 8);
            match plan.resume(Ok(filters())) {
                GridStep::Flip(flipping) => flipping,
                _ => panic!("not turned round"),
            }
        }
        _ => panic!("not turned round"),
    };
    assert_eq!(flipping.amount, d("220"));
    match flipping.resume(Ok(true)) {
        GridStep::PlaceRules(plan) => match plan.resume(Ok(filters())) {
            GridStep::Submit(order) => {
                assert_eq!((order.quantity, order.price), (d("2.2"), d("100")));
                // What a turned grid spends is not counted.
                match order.resume(Ok(OrderResponse { order_id: 1 })) {
                    GridStep::RecordOpen(p) => {
                        assert!(matches!(p.resume(Ok(true)), GridStep::Done(None)))
                    }
                    _ => panic!("not recorded"),
                }
            }
            _ => panic!("no order"),
        },
        _ => panic!("no order is planned"),
    }
}

#[test]
fn a_grid_that_changed_meanwhile_is_left_alone() {
    match looked_up(open("buy", Some("77")), open_order(77, "FILLED", "2", "199")) {
        GridStep::Close(filled) => assert!(matches!(filled.resume(Ok(false)), GridStep::Done(None))),
        _ => panic!("not closed"),
    }
    match process_single_grid(grid("closed", "buy"), &vec![], None) {
        GridStep::FlipRules(plan) => match plan.resume(Ok(filters())) {
            GridStep::Flip(f) => assert!(matches!(f.resume(Ok(false)), GridStep::Done(None))),
            _ => panic!("not turned round"),
        },
        _ => panic!("not turned round"),
    }
}

#[test]
fn a_buy_for_nothing_cannot_be_turned_round() {
    let mut g = grid("closed", "buy");
    g.buy_price = d("0");
    match process_single_grid(g, &vec![], None) {
        GridStep::FlipRules(plan) => assert!(matches!(
            plan.resume(Ok(filters())),
            GridStep::Failed(EngineError::NoBuyPrice { grid_id: 3 })
        )),
        _ => panic!("not turned round"),
    }
}

#[test]
fn names_without_meaning_end_the_turn() {
    assert!(matches!(
        process_single_grid(grid("odd", "buy"), &vec![], None),
        GridStep::Failed(EngineError::Unknown(reason)) if reason == "未知网格状态: odd"
    ));
    assert!(matches!(
        process_single_grid(grid("new", "odd"), &vec![], None),
        GridStep::Failed(EngineError::Unknown(reason)) if reason == "未知网格方向: odd"
    ));
    assert!(matches!(
        process_single_grid(grid("deleted", "buy"), &vec![], None),
        GridStep::Done(None)
    ));
}

#[test]
fn keys_of_orders_differ() {
    assert_eq!(client_order_id(1, 23), "g1v23");
    assert_ne!(client_order_id(12, 3), client_order_id(1, 23));
    assert_eq!(client_order_id(-1, -2), "g-1v-2");
}

#[test]
fn errors_of_the_engine_have_words() {
    let text = |e: EngineError| e.to_text();
    assert_eq!(text(EngineError::Overflow), "数值溢出");
    assert_eq!(text(EngineError::Unknown("x".to_owned())), "x");
    assert_eq!(text(EngineError::PriceIsZero { grid_id: 3 }), "grid_id=3 价格取整后为零，跳过");
    assert_eq!(
        text(EngineError::NoQuantity { grid_id: 3 }),
        "grid_id=3 价格为零，无法换算数量，跳过"
    );
    assert_eq!(
        text(EngineError::QuantityIsZero {
            grid_id: 3,
            side: OrderSide::Sell,
            amount: d("0.1"),
            price: d("2"),
            step: d("1"),
        }),
        "计算得到挂单数量为零，跳过 grid_id=3 side=Sell amount=0.1 price=2 step=1"
    );
    assert_eq!(
        text(EngineError::Refused { grid_id: 3, reason: "x".to_owned() }),
        "grid_id=3 不满足交易所下单约束：x"
    );
    assert_eq!(text(EngineError::Exchange(api(-1))), "Binance API 错误 -1: ");
    assert_eq!(text(EngineError::Context("x".to_owned(), api(-1))), "x");
    assert_eq!(
        text(EngineError::RecoveryFailed { place: api(-1), recovery: api(-2) }),
        "下单失败且按 client_order_id 恢复失败；place=Binance API 错误 -1: ; recovery=Binance API 错误 -2: "
    );
    assert_eq!(
        text(EngineError::BadOrderId { grid_id: 3, order_id: "x".to_owned() }),
        "grid 3 存储了无法解析的 order_id: x"
    );
    assert_eq!(
        text(EngineError::NoBuyPrice { grid_id: 3 }),
        "grid_id=3 buy_price 为零，无法换算翻转数量"
    );
    let symbol = || "S".to_owned();
    assert_eq!(
        text(EngineError::UnknownAssets { symbol: symbol() }),
        "无法解析 symbol 的 base/quote: S"
    );
    assert_eq!(text(EngineError::NoActiveGrids { symbol: symbol() }), "没有活跃的网格: S");
    assert_eq!(
        text(EngineError::NoLayout { symbol: symbol() }),
        "S 当前 spacing、余额与锚点会生成非正价格或零金额网格"
    );
    assert_eq!(text(EngineError::Database("x".to_owned())), "x");
    assert!(EngineError::Exchange(api(-2010)).is_short_of_funds());
    assert!(EngineError::Context(symbol(), api(-2010)).is_short_of_funds());
    assert!(!EngineError::Exchange(api(-2011)).is_short_of_funds());
}
