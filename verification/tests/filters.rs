//! What the exchange demands of orders.

use grid_trader::decimal::{Decimal, MAX_MANTISSA};
use grid_trader::exchange::types::{OrderSide, OrderStatus, SymbolFilters};

fn d(text: &str) -> Decimal {
    Decimal::parse(text).unwrap()
}

fn filters() -> SymbolFilters {
    SymbolFilters {
        step_size: d("0.001"),
        min_qty: d("0.01"),
        tick_size: d("0.05"),
        min_notional: d("10"),
    }
}

#[test]
fn quantities_and_prices_are_brought_down() {
    let f = filters();
    assert_eq!(f.round_quantity(d("1.23456")), d("1.234"));
    assert_eq!(f.round_quantity(d("1.234")), d("1.234"));
    assert_eq!(f.round_quantity(d("0.0009")), d("0"));
    assert_eq!(f.round_price(d("99.99")), d("99.95"));
    assert_eq!(f.round_price(d("-0.01")), d("-0.05"));
}

#[test]
fn without_a_step_nothing_is_brought_down() {
    let f = SymbolFilters { step_size: d("0"), tick_size: d("-1"), ..filters() };
    assert_eq!(f.round_quantity(d("1.23456")), d("1.23456"));
    assert_eq!(f.round_price(d("99.999")), d("99.999"));
}

#[test]
fn small_steps_keep_small_quantities() {
    let f = SymbolFilters { step_size: d("0.00001"), ..filters() };
    assert_eq!(f.round_quantity(d("0.123456")), d("0.12345"));
}

#[test]
fn a_quotient_with_too_many_digits_reaches_the_next_multiple() {
    // One third less than a whole, by less than the last digit can show.
    let f = SymbolFilters { step_size: d("3"), ..filters() };
    let quantity = d("2.9999999999999999999999999999");
    assert_eq!(f.round_quantity(quantity), d("3"));
}

#[test]
fn numbers_with_few_digits_are_never_rounded_up() {
    let f = SymbolFilters { step_size: d("3"), ..filters() };
    assert_eq!(f.round_quantity(d("2.99999999999999999999999999")), d("0"));
    let f = SymbolFilters { step_size: d("0.00001"), ..filters() };
    assert_eq!(f.round_quantity(d("1.2345699999")), d("1.23456"));
}

#[test]
fn results_that_are_too_large_are_reported() {
    let most = Decimal::new(MAX_MANTISSA, 0).unwrap();
    let f = SymbolFilters { step_size: d("0.1"), tick_size: d("0.1"), ..filters() };
    assert!(f.try_round_quantity(most).is_none());
    assert!(f.try_round_price(most).is_none());
    assert!(f.try_validate(most, d("2")).is_none());
    assert!(f.try_round_quantity(d("1.25")).is_some());
}

#[test]
fn orders_are_held_against_the_smallest_quantity_and_value() {
    let f = filters();
    assert_eq!(f.validate(d("0.5"), d("20")), Ok(()));
    assert_eq!(
        f.validate(d("0.009"), d("100000")),
        Err("数量 0.009 低于 minQty 0.01".to_owned())
    );
    assert_eq!(
        f.validate(d("0.5"), d("19.5")),
        Err("名义价值 9.75 低于 minNotional 10".to_owned())
    );
}

#[test]
fn orders_are_held_against_the_step_and_the_tick() {
    let f = SymbolFilters {
        step_size: d("0.1"),
        min_qty: d("0.1"),
        tick_size: d("0.01"),
        min_notional: d("1"),
    };
    assert_eq!(f.validate(d("0.2"), d("100")), Ok(()));
    assert_eq!(f.validate(d("0.20"), d("100.010")), Ok(()));
    assert_eq!(
        f.validate(d("0.15"), d("100")),
        Err("数量 0.15 不是 stepSize 0.1 的整数倍".to_owned())
    );
    assert_eq!(
        f.validate(d("0.2"), d("100.005")),
        Err("价格 100.005 不是 tickSize 0.01 的整数倍".to_owned())
    );
    // The other rules are looked at first.
    assert_eq!(
        f.validate(d("0.05"), d("100")),
        Err("数量 0.05 低于 minQty 0.1".to_owned())
    );
    assert_eq!(
        f.validate(d("0.15"), d("1.005")),
        Err("名义价值 0.15075 低于 minNotional 1".to_owned())
    );
    let free = SymbolFilters { step_size: d("0"), tick_size: d("-1"), ..f };
    assert_eq!(free.validate(d("0.15"), d("100.005")), Ok(()));
    assert_ne!(free, f);
    assert_eq!(f, SymbolFilters { step_size: d("0.10"), ..f });
}

#[test]
fn what_was_brought_down_is_on_the_step_and_the_tick() {
    let f = SymbolFilters { step_size: d("0.003"), tick_size: d("0.07"), ..filters() };
    for (qty, price) in [("1.2345", "99.99"), ("0.6666666666666666", "20"), ("700", "0.5")] {
        let (qty, price) = (f.round_quantity(d(qty)), f.round_price(d(price)));
        assert!(qty.is_multiple_of(f.step_size) && price.is_multiple_of(f.tick_size));
        assert_eq!(f.validate(qty, price), Ok(()));
    }
}

#[test]
fn order_statuses_are_known_by_name() {
    let known = [
        ("NEW", OrderStatus::New),
        ("PARTIALLY_FILLED", OrderStatus::PartiallyFilled),
        ("FILLED", OrderStatus::Filled),
        ("CANCELED", OrderStatus::Canceled),
        ("PENDING_CANCEL", OrderStatus::PendingCancel),
        ("REJECTED", OrderStatus::Rejected),
        ("EXPIRED", OrderStatus::Expired),
        ("EXPIRED_IN_MATCH", OrderStatus::ExpiredInMatch),
    ];
    for (name, status) in known {
        assert_eq!(OrderStatus::try_from(name), Ok(status));
    }
    assert_eq!(
        OrderStatus::try_from("filled"),
        Err("未知 Binance 订单状态: filled".to_owned())
    );
    assert_eq!(OrderSide::Buy.to_text(), "BUY");
    assert_eq!(OrderSide::Sell.to_text(), "SELL");
}
