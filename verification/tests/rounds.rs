//! Rounds over the grids of a symbol, following the price, laying out anew, supervising.

use grid_trader::decimal::{Decimal, MAX_MANTISSA};
use grid_trader::engine::error::EngineError;
use grid_trader::engine::range::{
    cancel_or_abort, check_and_recenter_if_needed, RangeCheck, RangeStep, Slide,
};
use grid_trader::engine::recenter::{
    recenter_grids, resolve_anchor, RecenterStep, ReplaceActive, TriggerStep,
};
use grid_trader::engine::round::{Round, RoundStep};
use grid_trader::engine::state::{GridEngine, ReCenterStatus};
use grid_trader::engine::supervise::Task;
use grid_trader::engine::turn::GridStep;
use grid_trader::exchange::error::BinanceError;
use grid_trader::exchange::types::{OpenOrder, SymbolFilters};
use grid_trader::models::user_grid::UserGrid;

const SECOND: u64 = 1_000_000_000;

fn d(text: &str) -> Decimal {
    Decimal::parse(text).unwrap()
}

fn grid(id: i32, status: &str, side: &str, buy: &str, sell: &str) -> UserGrid {
    UserGrid {
        id,
        user_id: 1,
        order_id: None,
        amount: if side == "buy" { d("50") } else { d("0.5") },
        buy_price: d(buy),
        sell_price: d(sell),
        side: side.to_owned(),
        symbol: "BTCUSDT".to_owned(),
        status: status.to_owned(),
        source: "auto".to_owned(),
        is_paused: false,
        version: 1,
        created_at: 0,
        updated_at: 0,
    }
}

fn filters() -> SymbolFilters {
    SymbolFilters {
        step_size: d("0.01"),
        min_qty: d("0.01"),
        tick_size: d("0.1"),
        min_notional: d("5"),
    }
}

fn api(code: i32) -> BinanceError {
    BinanceError::Api { code, msg: String::new() }
}

fn turn(step: RoundStep) -> (Round, GridStep) {
    match step {
        RoundStep::Turn(round, step) => (round, step),
        _ => panic!("nobody's turn"),
    }
}

#[test]
fn orders_and_budget_are_looked_up_only_if_needed() {
    let sells = vec![grid(1, "new", "sell", "100", "110")];
    let (round, _) = turn(GridEngine::process_symbol("BTCUSDT", Ok(sells)));
    assert!(round.budget.is_none() && round.open_orders.is_empty());

    let buys = vec![grid(1, "new", "buy", "100", "110")];
    match GridEngine::process_symbol("BTCUSDT", Ok(buys)) {
        RoundStep::QuoteFree(wanted) => {
            assert_eq!(wanted.asset, "USDT");
            let (round, _) = turn(wanted.resume(Err(api(-1))));
            assert!(round.budget.is_none());
        }
        _ => panic!("no budget"),
    }

    let open = vec![grid(1, "open", "buy", "100", "110")];
    match GridEngine::process_symbol("BTCUSDT", Ok(open)) {
        RoundStep::OpenOrders(wanted) => {
            assert!(matches!(
                wanted.resume(Err(api(-1))),
                RoundStep::Failed(EngineError::Exchange(_))
            ));
        }
        _ => panic!("no orders"),
    }

    // Without known assets the buys go without a budget.
    let buys = vec![grid(1, "new", "buy", "100", "110")];
    let (round, _) = turn(GridEngine::process_symbol("BTCEUR", Ok(buys)));
    assert!(round.budget.is_none());
    assert!(matches!(
        GridEngine::process_symbol("BTCUSDT", Err("down".to_owned())),
        RoundStep::Failed(EngineError::Database(_))
    ));
    assert!(matches!(GridEngine::process_symbol("BTCUSDT", Ok(vec![])), RoundStep::CheckRange(_)));
}

#[test]
fn the_budget_is_shared_by_all_buys() {
    let grids = vec![
        grid(1, "new", "buy", "100", "110"),
        grid(2, "new", "buy", "90", "100"),
        grid(3, "new", "buy", "80", "90"),
    ];
    let wanted = match GridEngine::process_symbol("BTCUSDT", Ok(grids)) {
        RoundStep::QuoteFree(wanted) => wanted,
        _ => panic!("no budget"),
    };
    let (round, _) = turn(wanted.resume(Ok(d("120"))));
    assert_eq!(round.next, 0);
    let (round, step) = turn(round.turn_taken(GridStep::Done(Some(d("50")))));
    assert_eq!((round.next, round.budget), (1, Some(d("70"))));
    // A turn under way stays under way.
    let (round, step) = turn(round.turn_taken(step));
    assert_eq!(round.next, 1);
    assert!(matches!(step, GridStep::PlaceRules(_)));
    // A turn that failed leaves the budget.
    let failed = GridStep::Failed(EngineError::NoQuantity { grid_id: 2 });
    let (round, step) = turn(round.turn_taken(failed));
    assert_eq!((round.next, round.budget), (2, Some(d("70"))));
    match step {
        GridStep::PlaceRules(plan) => assert_eq!(plan.effective, d("50")),
        _ => panic!("no order is planned"),
    }
    // The budget is never overdrawn.
    match round.turn_taken(GridStep::Done(Some(d("80")))) {
        RoundStep::CheckRange(round) => assert_eq!(round.budget, Some(d("0"))),
        _ => panic!("not over"),
    }
}

#[test]
fn numbers_that_are_too_large_end_the_round() {
    let grids = vec![grid(1, "new", "sell", "100", "110")];
    let (round, _) = turn(GridEngine::process_symbol("BTCUSDT", Ok(grids)));
    assert!(matches!(
        round.turn_taken(GridStep::Failed(EngineError::Overflow)),
        RoundStep::Failed(EngineError::Overflow)
    ));
}

fn ladder() -> Vec<UserGrid> {
    vec![
        grid(1, "open", "buy", "80", "90"),
        grid(2, "new", "buy", "90", "100"),
        grid(3, "open", "sell", "100", "110"),
        grid(4, "closed", "sell", "110", "120"),
    ]
}

fn check() -> RangeCheck {
    match check_and_recenter_if_needed("BTCUSDT", ladder()) {
        RangeStep::Ticker(check) => check,
        _ => panic!("no price is wanted"),
    }
}

#[test]
fn the_range_spans_all_grids() {
    let c = check();
    assert_eq!((c.min_buy, c.max_sell), (d("80"), d("120")));
    assert!(matches!(check_and_recenter_if_needed("BTCUSDT", vec![]), RangeStep::Done));
}

#[test]
fn a_price_out_of_range_is_followed_after_five_minutes() {
    let mut engine = GridEngine::new();
    let inside = ReCenterStatus { out_of_range: false, minutes_out: 0 };
    assert_eq!(engine.get_recenter_status("BTCUSDT", 0), inside);
    assert!(matches!(check().resume(&mut engine, Ok(d("121")), 10 * SECOND), RangeStep::Done));
    let status = engine.get_recenter_status("BTCUSDT", 130 * SECOND);
    assert_eq!(status, ReCenterStatus { out_of_range: true, minutes_out: 2 });
    let step = check().resume(&mut engine, Ok(d("121")), 310 * SECOND - 1);
    assert!(matches!(step, RangeStep::Done));
    let step = check().resume(&mut engine, Ok(d("121")), 310 * SECOND);
    assert!(matches!(step, RangeStep::FindGrid(_)));
    // Back in range it is forgotten.
    assert!(matches!(check().resume(&mut engine, Ok(d("120")), 320 * SECOND), RangeStep::Done));
    assert_eq!(engine.get_recenter_status("BTCUSDT", 400 * SECOND), inside);
    let step = check().resume(&mut engine, Err(api(-1)), 400 * SECOND);
    assert!(matches!(step, RangeStep::Failed(EngineError::Context(what, _)) if what == "BTCUSDT 获取当前价格失败"));
}

#[test]
fn upwards_the_lowest_buy_becomes_the_highest_sell() {
    match check().slide_window(&mut GridEngine::new(), d("130")) {
        RangeStep::FindGrid(slide) => {
            assert_eq!(slide.remove_id, 1);
            let new = &slide.replacement;
            assert_eq!((new.buy_price, new.sell_price), (d("120"), d("130")));
            assert_eq!((new.side.as_str(), new.source.as_str()), ("sell", "auto"));
            assert_eq!(new.amount, d("0.5"));
            assert_eq!((new.user_id, new.symbol.as_str()), (1, "BTCUSDT"));
        }
        _ => panic!("no grid is moved"),
    }
}

#[test]
fn downwards_the_highest_sell_becomes_the_lowest_buy() {
    match check().slide_window(&mut GridEngine::new(), d("70")) {
        RangeStep::FindGrid(slide) => {
            assert_eq!(slide.remove_id, 3);
            let new = &slide.replacement;
            assert_eq!((new.buy_price, new.sell_price), (d("70"), d("80")));
            assert_eq!((new.side.as_str(), new.amount), ("buy", d("50")));
        }
        _ => panic!("no grid is moved"),
    }
}

#[test]
fn of_equal_grids_the_first_buy_and_the_last_sell_are_moved() {
    let grids = vec![
        grid(1, "new", "buy", "80", "90"),
        grid(2, "new", "buy", "80", "90"),
        grid(3, "new", "sell", "100", "110"),
        grid(4, "new", "sell", "100", "110"),
    ];
    let check = |grids| match check_and_recenter_if_needed("BTCUSDT", grids) {
        RangeStep::Ticker(check) => check,
        _ => panic!("no price is wanted"),
    };
    match check(grids.clone()).slide_window(&mut GridEngine::new(), d("130")) {
        RangeStep::FindGrid(slide) => assert_eq!(slide.remove_id, 1),
        _ => panic!("no grid is moved"),
    }
    match check(grids).slide_window(&mut GridEngine::new(), d("70")) {
        RangeStep::FindGrid(slide) => assert_eq!(slide.remove_id, 4),
        _ => panic!("no grid is moved"),
    }
}

#[test]
fn without_a_grid_to_move_all_are_laid_out_anew() {
    let grids = vec![grid(1, "new", "sell", "100", "110")];
    match check_and_recenter_if_needed("BTCUSDT", grids) {
        RangeStep::Ticker(check) => assert!(matches!(
            check.slide_window(&mut GridEngine::new(), d("130")),
            RangeStep::Recenter(RecenterStep::CancelAll(_))
        )),
        _ => panic!("no price is wanted"),
    }
}

#[test]
fn a_price_in_range_is_not_followed() {
    let mut engine = GridEngine::new();
    engine.note_range("BTCUSDT", true, 0);
    assert!(matches!(check().slide_window(&mut engine, d("100")), RangeStep::Done));
    assert!(!engine.get_recenter_status("BTCUSDT", 0).out_of_range);
}

fn slide() -> Slide {
    match check().slide_window(&mut GridEngine::new(), d("130")) {
        RangeStep::FindGrid(slide) => slide,
        _ => panic!("no grid is moved"),
    }
}

#[test]
fn a_moved_grid_is_read_again_and_its_order_cancelled() {
    assert!(matches!(slide().resume(Ok(None)), RangeStep::Done));
    let gone = grid(1, "deleted", "buy", "80", "90");
    assert!(matches!(slide().resume(Ok(Some(gone))), RangeStep::Done));
    let fresh = grid(1, "new", "buy", "80", "90");
    assert!(matches!(slide().resume(Ok(Some(fresh))), RangeStep::ReplaceOne(_)));
    let open = |order: Option<&str>| UserGrid {
        order_id: order.map(str::to_owned),
        ..grid(1, "open", "buy", "80", "90")
    };
    assert!(matches!(slide().resume(Ok(Some(open(None)))), RangeStep::ReplaceOne(_)));
    assert!(matches!(slide().resume(Ok(Some(open(Some("x"))))), RangeStep::ReplaceOne(_)));
    let cancel = || match slide().resume(Ok(Some(open(Some("77"))))) {
        RangeStep::CancelOrder(cancel) => cancel,
        _ => panic!("not cancelled"),
    };
    assert_eq!(cancel().order_id, 77);
    assert!(matches!(cancel().resume(Ok(())), RangeStep::ReplaceOne(_)));
    assert!(matches!(cancel().resume(Err(api(-2011))), RangeStep::ReplaceOne(_)));
    assert!(matches!(cancel().resume(Err(api(-2013))), RangeStep::ReplaceOne(_)));
    assert!(matches!(
        cancel().resume(Err(api(-1021))),
        RangeStep::Failed(EngineError::Exchange(_))
    ));
    assert!(cancel_or_abort(Err(BinanceError::Http(String::new()))).is_err());
}

#[test]
fn a_moved_grid_counts_as_in_range() {
    let mut engine = GridEngine::new();
    check().resume(&mut engine, Ok(d("121")), 0);
    assert!(matches!(Slide::replaced("BTCUSDT", &mut engine, Ok(None)), RangeStep::Done));
    assert!(engine.get_recenter_status("BTCUSDT", 0).out_of_range);
    let failed = Slide::replaced("BTCUSDT", &mut engine, Err("down".to_owned()));
    assert!(matches!(failed, RangeStep::Failed(EngineError::Database(_))));
    assert!(matches!(Slide::replaced("BTCUSDT", &mut engine, Ok(Some(9))), RangeStep::Done));
    assert!(!engine.get_recenter_status("BTCUSDT", 0).out_of_range);
}

#[test]
fn trading_rules_are_remembered() {
    let mut engine = GridEngine::new();
    assert!(engine.symbol_filters("BTCUSDT").is_none());
    let failed = engine.store_filters("BTCUSDT", Err(api(-1)));
    assert!(matches!(failed, Err(EngineError::Context(what, _)) if what == "BTCUSDT 获取交易规则失败"));
    assert!(engine.symbol_filters("BTCUSDT").is_none());
    engine.store_filters("BTCUSDT", Ok(filters())).unwrap();
    assert_eq!(engine.symbol_filters("BTCUSDT").unwrap().step_size, d("0.01"));
    assert!(engine.symbol_filters("ETHUSDT").is_none());
}

#[test]
fn all_grids_are_laid_out_anew() {
    let mut engine = GridEngine::new();
    let cancel = match recenter_grids("BTCUSDT", &ladder(), d("101")) {
        RecenterStep::CancelAll(cancel) => cancel,
        _ => panic!("not cancelled"),
    };
    assert_eq!(cancel.plan.base_asset, "BTC");
    assert_eq!(cancel.plan.quote_asset, "USDT");
    assert_eq!((cancel.plan.spacing, cancel.plan.grid_count), (d("10"), 4));
    let settle = match cancel.resume(Ok(())) {
        RecenterStep::Settle(settle) => settle,
        _ => panic!("no pause"),
    };
    let balances = match settle.resume() {
        RecenterStep::Balances(balances) => balances,
        _ => panic!("no balances"),
    };
    let rules = match balances.resume(Ok((d("1"), d("101")))) {
        RecenterStep::Rules(rules) => rules,
        _ => panic!("no rules"),
    };
    let klines = match rules.resume(&mut engine, Ok(filters())) {
        RecenterStep::Klines(klines) => klines,
        _ => panic!("no prices"),
    };
    assert_eq!((klines.counts.sell_count, klines.counts.buy_count), (2, 2));
    let wanted = klines.request();
    assert_eq!((wanted.symbol.as_str(), wanted.interval.as_str()), ("BTCUSDT", "1h"));
    assert_eq!(wanted.limit, 24);
    let replace = match klines.resume(Ok(vec![d("94"), d("96"), d("93")])) {
        RecenterStep::ReplaceActive(replace) => replace,
        _ => panic!("not replaced"),
    };
    let prices: Vec<String> = replace.grids.iter().map(|g| g.buy_price.to_text()).collect();
    assert_eq!(prices, ["100", "110", "90", "80"]);
    assert_eq!((replace.user_id, replace.symbol.as_str()), (1, "BTCUSDT"));
    engine.note_range("BTCUSDT", true, 0);
    let done = ReplaceActive::resume("BTCUSDT", &mut engine, Ok(()));
    assert!(matches!(done, RecenterStep::Done));
    assert!(!engine.get_recenter_status("BTCUSDT", 0).out_of_range);
}

#[test]
fn laying_out_anew_stops_where_it_must() {
    let mut engine = GridEngine::new();
    assert!(matches!(recenter_grids("BTCUSDT", &vec![], d("1")), RecenterStep::Done));
    assert!(matches!(
        recenter_grids("BTCEUR", &ladder(), d("1")),
        RecenterStep::Failed(EngineError::UnknownAssets { .. })
    ));
    let cancel = |price: &str| match recenter_grids("BTCUSDT", &ladder(), d(price)) {
        RecenterStep::CancelAll(cancel) => cancel,
        _ => panic!("not cancelled"),
    };
    // Orders that may still stand keep everything as it is.
    match cancel("101").resume(Err(api(-1))) {
        RecenterStep::Failed(EngineError::Context(what, _)) => {
            assert_eq!(what, "BTCUSDT 撤单失败，中止重建以免丢失挂单线索")
        }
        _ => panic!("not stopped"),
    }
    let balances = |price: &str| match cancel(price).resume(Ok(())) {
        RecenterStep::Settle(settle) => match settle.resume() {
            RecenterStep::Balances(balances) => balances,
            _ => panic!("no balances"),
        },
        _ => panic!("no pause"),
    };
    match balances("101").resume(Err(api(-1))) {
        RecenterStep::Failed(EngineError::Context(what, _)) => {
            assert_eq!(what, "查询余额失败 (BTC/USDT)")
        }
        _ => panic!("not stopped"),
    }
    // Nothing to trade with.
    engine.note_range("BTCUSDT", true, 0);
    match balances("101").resume(Ok((d("0"), d("0")))) {
        RecenterStep::Rules(rules) => {
            assert!(matches!(rules.resume(&mut engine, Ok(filters())), RecenterStep::Done));
            assert!(!engine.get_recenter_status("BTCUSDT", 0).out_of_range);
        }
        _ => panic!("no rules"),
    }
    // The lowest grid would buy for nothing.
    match balances("1").resume(Ok((d("0"), d("100")))) {
        RecenterStep::Rules(rules) => match rules.resume(&mut engine, Ok(filters())) {
            RecenterStep::Klines(klines) => assert!(matches!(
                klines.resume(Err(api(-1))),
                RecenterStep::Failed(EngineError::NoLayout { .. })
            )),
            _ => panic!("no prices"),
        },
        _ => panic!("no rules"),
    }
}

#[test]
fn the_anchor_falls_back_on_the_price() {
    assert_eq!(resolve_anchor(d("7"), Err(api(-1))), Ok(d("7")));
    assert_eq!(resolve_anchor(d("7"), Ok(vec![])), Ok(d("7")));
    assert_eq!(resolve_anchor(d("7"), Ok(vec![d("1"), d("3")])), Ok(d("2")));
    let most = Decimal::new(MAX_MANTISSA, 0).unwrap();
    assert!(resolve_anchor(d("7"), Ok(vec![most, most])).is_err());
}

#[test]
fn a_user_lays_out_only_own_grids() {
    let mut grids = ladder();
    grids[0].user_id = 2;
    match GridEngine::trigger_recenter_now(1, "BTCUSDT", Ok(grids.clone())) {
        TriggerStep::Ticker(next) => {
            assert_eq!(next.grids.len(), 3);
            match next.resume(Ok(d("101"))) {
                RecenterStep::CancelAll(cancel) => {
                    assert_eq!((cancel.plan.user_id, cancel.plan.grid_count), (1, 3))
                }
                _ => panic!("not cancelled"),
            }
        }
        TriggerStep::Failed(e) => panic!("{e:?}"),
    }
    assert!(matches!(
        GridEngine::trigger_recenter_now(3, "BTCUSDT", Ok(grids)),
        TriggerStep::Failed(EngineError::NoActiveGrids { symbol }) if symbol == "BTCUSDT"
    ));
    assert!(matches!(
        GridEngine::trigger_recenter_now(3, "BTCUSDT", Err("down".to_owned())),
        TriggerStep::Failed(EngineError::Database(_))
    ));
}

#[test]
fn every_active_symbol_gets_one_task() {
    let names = |texts: &[&str]| -> Vec<String> { texts.iter().map(|t| t.to_string()).collect() };
    let task = |symbol: &str, finished| Task { symbol: symbol.to_owned(), finished };
    let tasks = vec![task("A", false), task("B", true), task("C", false)];
    let p = GridEngine::run(Ok(names(&["A", "B", "D", "D"])), &tasks);
    assert_eq!(p.stop, ["C"]);
    assert_eq!(p.spawn, ["B", "D"]);
    let p = GridEngine::run(Ok(vec![]), &vec![]);
    assert!(p.stop.is_empty() && p.spawn.is_empty());
    // A table that cannot be read changes nothing.
    let p = GridEngine::run(Err("down".to_owned()), &tasks);
    assert!(p.stop.is_empty() && p.spawn.is_empty());
}

#[test]
fn standing_orders_are_handed_to_the_turns() {
    let mut open = grid(1, "open", "buy", "100", "110");
    open.order_id = Some("5".to_owned());
    let wanted = match GridEngine::process_symbol("BTCUSDT", Ok(vec![open])) {
        RoundStep::OpenOrders(wanted) => wanted,
        _ => panic!("no orders"),
    };
    let order = OpenOrder {
        order_id: 5,
        status: "NEW".to_owned(),
        executed_qty: d("0"),
        cummulative_quote_qty: d("0"),
    };
    let (round, step) = turn(wanted.resume(Ok(vec![order])));
    assert!(matches!(step, GridStep::Done(None)));
    assert!(matches!(round.turn_taken(step), RoundStep::CheckRange(_)));
}
