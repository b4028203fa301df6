//! The grid table: what is found in it, and how rows change.

use grid_trader::decimal::{Decimal, MAX_MANTISSA};
use grid_trader::models::trade_history::{
    close_grid_with_trade, close_grid_with_trade_amount, CloseError, Closing, NewTradeHistory,
    ProfitStats,
};
use grid_trader::models::user_grid::{
    create, create_batch, distinct_owner_count, find_by_id, find_by_symbol, find_by_user, flip_to_reverse,
    get_active_symbols, mark_paused_flag_by_user_symbol, pause_by_user_symbol, pause_single,
    replace_active_by_user_and_symbol, replace_auto_by_user_and_symbol, replace_one, reset_to_new,
    resume_by_user_symbol, resume_single, set_order_open, soft_delete, update_full, GridSide,
    GridStatus, NewUserGrid, ReplacementTarget, TableError, UpdateUserGrid, UserGrid,
};

fn d(text: &str) -> Decimal {
    Decimal::parse(text).unwrap()
}

fn row(id: i32, symbol: &str, status: &str) -> UserGrid {
    UserGrid {
        id,
        user_id: 1,
        order_id: None,
        amount: d("20"),
        buy_price: d("90"),
        sell_price: d("100"),
        side: "buy".to_owned(),
        symbol: symbol.to_owned(),
        status: status.to_owned(),
        source: "auto".to_owned(),
        is_paused: false,
        version: 5,
        created_at: 11,
        updated_at: 12,
    }
}

fn new_grid() -> NewUserGrid {
    NewUserGrid {
        user_id: 1,
        amount: d("1"),
        buy_price: d("1"),
        sell_price: d("2"),
        side: "sell".to_owned(),
        symbol: "BTCUSDT".to_owned(),
        source: "auto".to_owned(),
    }
}

fn same(a: &UserGrid, b: &UserGrid) -> bool {
    format!("{a:?}") == format!("{b:?}")
}

fn ids(table: &[UserGrid]) -> Vec<i32> {
    table.iter().map(|g| g.id).collect()
}

#[test]
fn only_active_rows_are_traded() {
    let mut table = vec![
        row(1, "BTCUSDT", "new"),
        row(2, "BTCUSDT", "deleted"),
        row(3, "BTCUSDT", "open"),
        row(4, "ETHUSDT", "new"),
        row(5, "BTCUSDT", "closed"),
    ];
    table[2].is_paused = true;
    assert_eq!(ids(&find_by_symbol(&table, "BTCUSDT")), [1, 5]);
    assert_eq!(ids(&find_by_symbol(&table, "BNBUSDT")), [0; 0]);
    assert_eq!(ids(&find_by_user(&table, 1)), [1, 3, 4, 5]);
    assert_eq!(ids(&find_by_user(&table, 2)), [0; 0]);
    assert!(same(&find_by_id(&table, 2).unwrap(), &table[1]));
    assert!(find_by_id(&table, 9).is_none());
}

#[test]
fn active_symbols_are_those_with_rows_to_trade() {
    let mut table = vec![
        row(1, "BTCUSDT", "new"),
        row(2, "ETHUSDT", "deleted"),
        row(3, "BNBUSDT", "open"),
        row(4, "BTCUSDT", "open"),
    ];
    table[2].is_paused = true;
    assert_eq!(get_active_symbols(&table), ["BTCUSDT"]);
    for symbol in ["BTCUSDT", "ETHUSDT", "BNBUSDT"] {
        let active = get_active_symbols(&table).iter().any(|s| s == symbol);
        assert_eq!(active, !find_by_symbol(&table, symbol).is_empty());
    }
}

#[test]
fn owners_are_counted_once() {
    let mut table = vec![row(1, "A", "new"), row(2, "A", "open"), row(3, "A", "deleted")];
    assert_eq!(distinct_owner_count(&table), 1);
    table[2].user_id = 2;
    assert_eq!(distinct_owner_count(&table), 1);
    table[1].user_id = 3;
    assert_eq!(distinct_owner_count(&table), 2);
    assert_eq!(distinct_owner_count(&vec![]), 0);
}

#[test]
fn a_grid_goes_round() {
    let mut table = vec![row(1, "BTCUSDT", "new")];
    assert_eq!(set_order_open(&mut table, 1, "77", 5, 100), Ok(true));
    assert_eq!(table[0].status, "open");
    assert_eq!(table[0].order_id.as_deref(), Some("77"));
    assert_eq!((table[0].version, table[0].updated_at), (6, 100));

    let closed = close_grid_with_trade_amount(&mut table, 1, 6, None, Some(d("19")), 200).unwrap();
    assert!(matches!(closed, Closing::Closed(None)));
    assert_eq!(table[0].status, "closed");
    assert_eq!(table[0].order_id.as_deref(), Some("77"));
    assert_eq!(table[0].amount, d("19"));
    assert_eq!(table[0].version, 7);

    assert_eq!(flip_to_reverse(&mut table, 1, "sell", d("0.2"), 7, 300), Ok(true));
    assert_eq!(table[0].status, "new");
    assert_eq!(table[0].side, "sell");
    assert_eq!(table[0].amount, d("0.2"));
    assert_eq!(table[0].order_id, None);
    assert_eq!((table[0].version, table[0].created_at), (8, 11));
    assert_eq!((table[0].buy_price, table[0].sell_price), (d("90"), d("100")));
}

#[test]
fn an_order_that_is_gone_makes_the_grid_new() {
    let mut table = vec![row(1, "BTCUSDT", "open")];
    table[0].order_id = Some("77".to_owned());
    assert_eq!(reset_to_new(&mut table, 1, 5, 100), Ok(true));
    assert_eq!(table[0].status, "new");
    assert_eq!(table[0].order_id, None);
    assert_eq!(table[0].version, 6);
}

#[test]
fn a_lost_race_changes_nothing() {
    let table = vec![row(1, "BTCUSDT", "new"), row(2, "BTCUSDT", "deleted")];
    let mut after = table.clone();
    assert_eq!(set_order_open(&mut after, 1, "77", 4, 100), Ok(false));
    assert_eq!(set_order_open(&mut after, 2, "77", 5, 100), Ok(false));
    assert_eq!(reset_to_new(&mut after, 1, 5, 100), Ok(false));
    assert_eq!(flip_to_reverse(&mut after, 1, "sell", d("1"), 5, 100), Ok(false));
    let lost = close_grid_with_trade(&mut after, 1, 5, None, 100);
    assert!(matches!(lost, Ok(Closing::Lost)));
    assert_eq!(soft_delete(&mut after, 2, 100), Ok(false));
    assert_eq!(soft_delete(&mut after, 9, 100), Ok(false));
    for (a, b) in table.iter().zip(&after) {
        assert!(same(a, b));
    }
}

#[test]
fn the_last_version_is_not_raised() {
    let mut table = vec![row(1, "BTCUSDT", "new"), row(2, "BTCUSDT", "new")];
    table[1].version = i64::MAX;
    let before = table.clone();
    let refused = Err(TableError::VersionOutOfRange);
    assert_eq!(pause_by_user_symbol(&mut table, 1, "BTCUSDT", 100), refused);
    assert_eq!(set_order_open(&mut table, 2, "77", i64::MAX, 100), Err(TableError::VersionOutOfRange));
    let replaced = replace_one(&mut table, 2, new_grid(), 100);
    assert!(matches!(replaced, Err(TableError::VersionOutOfRange)));
    for (a, b) in before.iter().zip(&table) {
        assert!(same(a, b));
    }
}

#[test]
fn an_edit_gives_up_the_order() {
    let mut table = vec![row(1, "BTCUSDT", "open")];
    table[0].order_id = Some("77".to_owned());
    let update = UpdateUserGrid {
        amount: d("3"),
        buy_price: d("4"),
        sell_price: d("5"),
        side: "sell".to_owned(),
    };
    assert_eq!(update_full(&mut table, 1, 2, &update, 100), Ok(false));
    assert_eq!(update_full(&mut table, 1, 1, &update, 100), Ok(true));
    let g = &table[0];
    assert_eq!((g.amount, g.buy_price, g.sell_price), (d("3"), d("4"), d("5")));
    assert_eq!((g.side.as_str(), g.status.as_str()), ("sell", "new"));
    assert_eq!(g.order_id, None);
    assert_eq!(g.version, 6);
}

#[test]
fn pausing_gives_up_orders_and_marking_does_not() {
    let mut table = vec![row(1, "BTCUSDT", "open"), row(2, "BTCUSDT", "closed")];
    table[0].order_id = Some("77".to_owned());
    table[1].order_id = Some("78".to_owned());

    let mut marked = table.clone();
    assert_eq!(mark_paused_flag_by_user_symbol(&mut marked, 1, "BTCUSDT", 100), Ok(2));
    assert!(marked.iter().all(|g| g.is_paused));
    assert_eq!(marked[0].status, "open");
    assert_eq!(marked[0].order_id.as_deref(), Some("77"));

    assert_eq!(pause_by_user_symbol(&mut table, 1, "BTCUSDT", 100), Ok(2));
    assert!(table.iter().all(|g| g.is_paused));
    assert_eq!((table[0].status.as_str(), &table[0].order_id), ("new", &None));
    assert_eq!((table[1].status.as_str(), table[1].order_id.as_deref()), ("closed", Some("78")));

    assert_eq!(resume_by_user_symbol(&mut table, 1, "BTCUSDT", 200), Ok(2));
    assert_eq!(resume_by_user_symbol(&mut table, 1, "BTCUSDT", 200), Ok(0));
    assert!(table.iter().all(|g| !g.is_paused));
    assert_eq!(table[0].version, 7);
}

#[test]
fn one_grid_is_paused_and_resumed() {
    let mut table = vec![row(1, "BTCUSDT", "open"), row(2, "BTCUSDT", "open")];
    assert_eq!(pause_single(&mut table, 1, 100), Ok(1));
    assert!(table[0].is_paused && !table[1].is_paused);
    assert_eq!(table[0].status, "new");
    assert_eq!(resume_single(&mut table, 1, 100), Ok(1));
    assert!(!table[0].is_paused);
    assert_eq!(resume_single(&mut table, 3, 100), Ok(0));
}

#[test]
fn replacing_spares_what_it_is_not_meant_for() {
    let mut table = vec![
        row(1, "BTCUSDT", "new"),
        row(2, "BTCUSDT", "open"),
        row(3, "BTCUSDT", "new"),
        row(4, "ETHUSDT", "new"),
    ];
    table[1].is_paused = true;
    table[2].source = "manual".to_owned();
    let mut auto = table.clone();
    let done =
        replace_auto_by_user_and_symbol(&mut auto, 1, "BTCUSDT", vec![new_grid()], 100).unwrap();
    assert_eq!((done.deleted, done.kept, done.insert.len()), (2, true, 1));
    assert_eq!(ids(&find_by_user(&auto, 1)), [3, 4]);

    let mut active = table.clone();
    let done =
        replace_active_by_user_and_symbol(&mut active, 1, "BTCUSDT", vec![new_grid()], 100).unwrap();
    assert_eq!((done.deleted, done.kept), (2, true));
    assert_eq!(ids(&find_by_user(&active, 1)), [2, 4]);
    assert!(active[0].status == "deleted" && active[0].order_id.is_none());
    assert_eq!(active[0].version, 6);
}

#[test]
fn one_grid_is_replaced_only_if_it_is_there() {
    let mut table = vec![row(1, "BTCUSDT", "open"), row(2, "BTCUSDT", "deleted")];
    assert!(replace_one(&mut table, 2, new_grid(), 100).unwrap().is_none());
    assert!(replace_one(&mut table, 3, new_grid(), 100).unwrap().is_none());
    assert_eq!(table[0].status, "open");
    let insert = replace_one(&mut table, 1, new_grid(), 100).unwrap().unwrap();
    assert_eq!(insert.side, "sell");
    assert_eq!(table[0].status, "deleted");
    assert!(ReplacementTarget::One { id: 1 }.requires_single_match());
    let many = ReplacementTarget::AutoByUserAndSymbol { user_id: 1, symbol: "BTCUSDT" };
    assert!(!many.requires_single_match());
}

#[test]
fn grids_are_stored_as_new() {
    let stored = create(new_grid());
    assert_eq!((stored.status.as_str(), stored.side.as_str()), ("new", "sell"));
    assert_eq!((stored.buy_price, stored.sell_price), (d("1"), d("2")));
    let mut second = new_grid();
    second.amount = d("9");
    let stored = create_batch(vec![new_grid(), second]);
    assert_eq!((stored[0].amount, stored[1].amount), (d("1"), d("9")));
    assert!(stored.iter().all(|g| g.status == "new" && g.source == "auto"));
}

fn trade() -> NewTradeHistory {
    NewTradeHistory {
        user_id: 1,
        symbol: "BTCUSDT".to_owned(),
        order_id: "77".to_owned(),
        amount: d("0.5"),
        buy_price: d("90"),
        sell_price: d("100"),
        source: "user_grid".to_owned(),
        source_id: 1,
    }
}

#[test]
fn a_sale_is_recorded_with_its_profit() {
    let mut table = vec![row(1, "BTCUSDT", "open")];
    let closed = close_grid_with_trade(&mut table, 1, 5, Some(trade()), 100).unwrap();
    match closed {
        Closing::Closed(Some(record)) => {
            assert_eq!(record.profit, d("5"));
            assert_eq!(record.trade.order_id, "77");
        }
        other => panic!("{other:?}"),
    }
    assert_eq!(table[0].status, "closed");
    assert_eq!(table[0].amount, d("20"));
}

#[test]
fn nothing_was_earned_at_first() {
    let stats = ProfitStats::default();
    assert_eq!((stats.total_profit, stats.trade_count), (Decimal::zero(), 0));
}

#[test]
fn a_profit_that_is_too_large_closes_nothing() {
    let mut table = vec![row(1, "BTCUSDT", "open")];
    let huge = NewTradeHistory {
        sell_price: Decimal::new(MAX_MANTISSA, 0).unwrap(),
        amount: d("2"),
        ..trade()
    };
    let closed = close_grid_with_trade(&mut table, 1, 5, Some(huge), 100);
    assert!(matches!(closed, Err(CloseError::Overflow)));
    assert_eq!(table[0].status, "open");
    table[0].version = i64::MAX;
    let closed = close_grid_with_trade(&mut table, 1, i64::MAX, Some(trade()), 100);
    assert!(matches!(closed, Err(CloseError::VersionOutOfRange)));
}

#[test]
fn sides_and_statuses_have_names() {
    assert_eq!(GridSide::Buy.as_str(), "buy");
    assert_eq!(GridSide::Sell.as_str(), "sell");
    assert_eq!(GridSide::try_from("buy"), Ok(GridSide::Buy));
    assert_eq!(GridSide::try_from("BUY"), Err("未知网格方向: BUY".to_owned()));
    assert_eq!(GridSide::Buy.reverse(), GridSide::Sell);
    for status in [GridStatus::New, GridStatus::Open, GridStatus::Closed, GridStatus::Deleted] {
        assert_eq!(GridStatus::try_from(status.as_str()), Ok(status));
    }
    assert_eq!(GridStatus::try_from("gone"), Err("未知网格状态: gone".to_owned()));
}
