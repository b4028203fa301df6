//! Sharing balances out, laying grids out, medians.

use grid_trader::decimal::{Decimal, Overflow, MAX_MANTISSA};
use grid_trader::engine::median::{compute_median, try_compute_median};
use grid_trader::engine::strategy::{
    allocate_grids, build_auto_grids, try_allocate_grids, try_build_auto_grids, try_price_floor,
    Allocation, AutoGridLayout,
};
use grid_trader::web::grids::validate_grid_input;

fn d(text: &str) -> Decimal {
    Decimal::parse(text).unwrap()
}

fn allocation(base: &str, quote: &str, price: &str, grid_count: u32) -> Allocation {
    Allocation {
        base: d(base),
        quote: d(quote),
        price: d(price),
        grid_count,
        min_qty: d("0.00001"),
        min_notional: d("5"),
    }
}

#[test]
fn balances_are_shared_out_by_value() {
    let (sells, buys, sell_amount, buy_amount) =
        allocate_grids(allocation("1", "100", "100", 10)).unwrap();
    assert_eq!((sells, buys), (5, 5));
    assert_eq!(sell_amount, d("0.2"));
    assert_eq!(buy_amount, d("20"));
}

#[test]
fn uneven_balances_are_used_up() {
    let (sells, buys, sell_amount, buy_amount) =
        allocate_grids(allocation("4500", "500", "1", 10)).unwrap();
    assert_eq!((sells, buys), (9, 1));
    assert_eq!(sell_amount, d("500"));
    assert_eq!(buy_amount, d("500"));
}

fn texts(r: Option<(u32, u32, Decimal, Decimal)>) -> Option<(u32, u32, String, String)> {
    r.map(|(sells, buys, sold, spent)| (sells, buys, sold.to_text(), spent.to_text()))
}

#[test]
fn amounts_are_written_as_they_are_computed() {
    let shared = |base, quote, price, n| texts(allocate_grids(allocation(base, quote, price, n)));
    let of = |s, b, sold: &str, spent: &str| Some((s, b, sold.to_owned(), spent.to_owned()));
    assert_eq!(shared("1", "100", "100", 10), of(5, 5, "0.20", "20"));
    assert_eq!(shared("1.000", "100.00", "100", 10), of(5, 5, "0.200", "20.00"));
    assert_eq!(shared("0.00", "100", "100", 10), of(0, 10, "0", "10"));
    assert_eq!(
        shared("0", "100", "100", 3),
        of(0, 3, "0", "33.333333333333333333333333333")
    );
}

#[test]
fn dust_counts_as_nothing() {
    for (base, quote) in [("1", "4.99"), ("1", "0.00"), ("0.0499", "100"), ("0.04", "4")] {
        let a = allocation(base, quote, "100", 10);
        let mut b = allocation(base, quote, "100", 10);
        if a.quote < d("5") {
            b.quote = Decimal::zero();
        }
        if a.base < d("0.05") {
            b.base = Decimal::zero();
        }
        assert_eq!(texts(allocate_grids(a)), texts(allocate_grids(b)));
    }
}

#[test]
fn the_base_counts_by_its_worth() {
    for (base, quote, price) in [("1", "100", "100"), ("8", "100", "50"), ("16", "0", "20")] {
        let a = allocation(base, quote, price, 8);
        let b = Allocation {
            base: a.base.checked_mul(d("10")).unwrap(),
            price: a.price.checked_div(d("10")).unwrap(),
            min_qty: a.min_qty.checked_mul(d("10")).unwrap(),
            ..allocation(base, quote, price, 8)
        };
        let (sells, buys, sold, spent) = allocate_grids(a).unwrap();
        let ten = sold.checked_mul(d("10")).unwrap();
        assert_eq!(allocate_grids(b), Some((sells, buys, ten, spent)));
    }
}

#[test]
fn a_price_far_from_one_counts() {
    // One unit of the base asset is worth as much as the whole quote balance.
    let (sells, buys, ..) = allocate_grids(allocation("1", "50000", "50000", 4)).unwrap();
    assert_eq!((sells, buys), (2, 2));
}

#[test]
fn both_sides_keep_a_grid() {
    let (sells, buys, ..) = allocate_grids(allocation("10000", "10", "1", 10)).unwrap();
    assert_eq!((sells, buys), (9, 1));
    let (sells, buys, ..) = allocate_grids(allocation("10", "10000", "1", 10)).unwrap();
    assert_eq!((sells, buys), (1, 9));
}

#[test]
fn one_grid_goes_to_the_buys_if_both_could_have_it() {
    let (sells, buys, _, buy_amount) = allocate_grids(allocation("100", "100", "1", 1)).unwrap();
    assert_eq!((sells, buys), (0, 1));
    assert_eq!(buy_amount, d("100"));
}

#[test]
fn dust_is_not_used() {
    let (sells, buys, sell_amount, buy_amount) =
        allocate_grids(allocation("4.99", "100", "1", 10)).unwrap();
    assert_eq!((sells, buys), (0, 10));
    assert_eq!(sell_amount, Decimal::zero());
    assert_eq!(buy_amount, d("10"));
    let (sells, buys, ..) = allocate_grids(allocation("100", "4.99", "1", 10)).unwrap();
    assert_eq!((sells, buys), (10, 0));
}

#[test]
fn sides_shrink_until_orders_are_taken() {
    // Thirty units in ten grids are three each; the exchange wants five.
    let (sells, buys, sell_amount, _) = allocate_grids(allocation("30", "0", "1", 10)).unwrap();
    assert_eq!((sells, buys), (6, 0));
    assert_eq!(sell_amount, d("5"));
    let (sells, buys, _, buy_amount) = allocate_grids(allocation("0", "30", "1", 10)).unwrap();
    assert_eq!((sells, buys), (0, 6));
    assert_eq!(buy_amount, d("5"));
}

#[test]
fn the_smallest_quantity_limits_both_sides() {
    let mut a = allocation("10", "10", "1", 10);
    a.min_notional = Decimal::zero();
    a.min_qty = d("4");
    let (sells, buys, sell_amount, buy_amount) = allocate_grids(a).unwrap();
    assert_eq!((sells, buys), (2, 2));
    assert_eq!(sell_amount, d("5"));
    assert_eq!(buy_amount, d("5"));
}

#[test]
fn nothing_to_trade_with_is_nothing() {
    assert!(allocate_grids(allocation("0", "0", "1", 10)).is_none());
    assert!(allocate_grids(allocation("1", "1", "1", 10)).is_none());
    assert!(allocate_grids(allocation("100", "100", "1", 0)).is_none());
    assert!(allocate_grids(allocation("100", "100", "0", 10)).is_none());
    assert!(allocate_grids(allocation("100", "100", "-1", 10)).is_none());
    let mut a = allocation("10", "10", "1", 10);
    a.min_qty = d("100");
    assert!(allocate_grids(a).is_none());
}

#[test]
fn values_that_are_too_large_are_reported() {
    let most = Decimal::new(MAX_MANTISSA, 0).unwrap();
    let mut a = allocation("1", "1", "2", 10);
    a.base = most;
    assert_eq!(try_allocate_grids(a).err(), Some(Overflow));
    let mut a = allocation("1", "1", "1", 10);
    a.base = most;
    a.quote = most;
    assert_eq!(try_allocate_grids(a).err(), Some(Overflow));
    assert!(try_allocate_grids(allocation("1", "100", "100", 10)).is_ok());
}

fn layout() -> AutoGridLayout {
    AutoGridLayout {
        user_id: 7,
        p_floor: d("100"),
        spacing: d("10"),
        sell_count: 2,
        buy_count: 3,
        sell_amount: d("0.5"),
        buy_amount: d("20"),
    }
}

#[test]
fn grids_stand_next_to_one_another() {
    let grids = build_auto_grids(layout(), "BTCUSDT");
    let prices: Vec<(String, String, String)> = grids
        .iter()
        .map(|g| (g.side.clone(), g.buy_price.to_text(), g.sell_price.to_text()))
        .collect();
    let want = [
        ("sell", "100", "110"),
        ("sell", "110", "120"),
        ("buy", "90", "100"),
        ("buy", "80", "90"),
        ("buy", "70", "80"),
    ];
    assert_eq!(prices.len(), want.len());
    for (got, want) in prices.iter().zip(want) {
        assert_eq!((got.0.as_str(), got.1.as_str(), got.2.as_str()), want);
    }
    for g in &grids {
        assert_eq!(g.user_id, 7);
        assert_eq!(g.symbol, "BTCUSDT");
        assert_eq!(g.source, "auto");
        assert_eq!(g.amount, if g.side == "sell" { d("0.5") } else { d("20") });
    }
}

#[test]
fn laid_out_grids_pass_the_rule_for_grids_by_hand() {
    let third = Decimal::parse("0.3333333333333333333333333333").unwrap();
    for l in [
        layout(),
        AutoGridLayout { buy_count: 9, ..layout() },
        AutoGridLayout { spacing: third, buy_count: 200, sell_count: 200, ..layout() },
    ] {
        let grids = build_auto_grids(l, "BTCUSDT");
        assert_eq!(grids.len(), (l.sell_count + l.buy_count) as usize);
        for g in &grids {
            let r = validate_grid_input(g.amount, g.buy_price, g.sell_price, &g.side);
            assert!(r.is_ok());
        }
    }
    // A spacing that is lost beside the price.
    let lost = AutoGridLayout {
        p_floor: Decimal::new(MAX_MANTISSA / 10, 0).unwrap(),
        spacing: d("0.01"),
        buy_count: 0,
        ..layout()
    };
    let grids = build_auto_grids(lost, "BTCUSDT");
    assert_eq!(grids.len(), 2);
    let g = &grids[0];
    assert!(validate_grid_input(g.amount, g.buy_price, g.sell_price, &g.side).is_err());
}

#[test]
fn layouts_that_are_not_positive_have_no_grids() {
    let empty = |l: AutoGridLayout| build_auto_grids(l, "BTCUSDT").is_empty();
    assert!(empty(AutoGridLayout { p_floor: d("0"), ..layout() }));
    assert!(empty(AutoGridLayout { spacing: d("0"), ..layout() }));
    assert!(empty(AutoGridLayout { spacing: d("-1"), ..layout() }));
    // The lowest grid would buy for nothing.
    assert!(empty(AutoGridLayout { buy_count: 10, ..layout() }));
    assert!(!empty(AutoGridLayout { buy_count: 9, ..layout() }));
    assert!(empty(AutoGridLayout { buy_amount: d("0"), ..layout() }));
    assert!(empty(AutoGridLayout { sell_amount: d("0"), ..layout() }));
    assert!(!empty(AutoGridLayout { sell_amount: d("0"), sell_count: 0, ..layout() }));
    assert!(!empty(AutoGridLayout { buy_amount: d("0"), buy_count: 0, ..layout() }));
}

#[test]
fn prices_that_are_too_large_are_reported() {
    let most = Decimal::new(MAX_MANTISSA, 0).unwrap();
    let l = AutoGridLayout { p_floor: most, ..layout() };
    assert_eq!(try_build_auto_grids(l, "BTCUSDT").err(), Some(Overflow));
}

#[test]
fn grids_are_anchored_at_a_multiple_above_the_price() {
    assert_eq!(try_price_floor(d("95"), d("10")), Some(d("100")));
    assert_eq!(try_price_floor(d("100"), d("10")), Some(d("100")));
    assert_eq!(try_price_floor(d("1.00015"), d("0.0001")), Some(d("1.0002")));
    assert_eq!(try_price_floor(d("1"), d("0")), None);
}

#[test]
fn the_median_is_in_the_middle() {
    assert_eq!(compute_median(&vec![]), None);
    assert_eq!(compute_median(&vec![d("3")]), Some(d("3")));
    assert_eq!(compute_median(&vec![d("3"), d("1"), d("2")]), Some(d("2")));
    assert_eq!(compute_median(&vec![d("4"), d("1"), d("3"), d("2")]), Some(d("2.5")));
    assert_eq!(compute_median(&vec![d("2"), d("4"), d("1"), d("3")]), Some(d("2.5")));
    assert_eq!(compute_median(&vec![d("5"), d("5.0"), d("1")]), Some(d("5")));
    let most = Decimal::new(MAX_MANTISSA, 0).unwrap();
    assert_eq!(try_compute_median(&vec![most, most]), Err(Overflow));
}

#[test]
fn the_median_is_written_like_its_price() {
    let text = |prices: &[&str]| {
        let prices: Vec<Decimal> = prices.iter().map(|p| d(p)).collect();
        compute_median(&prices).unwrap().to_text()
    };
    assert_eq!(text(&["3.00", "1", "2.0"]), "2.0");
    // Equal prices keep the order in which they come.
    assert_eq!(text(&["5.0", "1", "5.00"]), "5.0");
    assert_eq!(text(&["5.00", "9", "1", "5.0", "5"]), "5.0");
    assert_eq!(text(&["4.00", "2"]), "3.00");
    assert_eq!(text(&["1", "2"]), "1.50");
}

#[test]
fn prices_of_grids_keep_the_digits_of_the_spacing() {
    let l = AutoGridLayout { p_floor: d("100.0"), spacing: d("10.00"), ..layout() };
    let prices: Vec<(String, String)> = build_auto_grids(l, "BTCUSDT")
        .iter()
        .map(|g| (g.buy_price.to_text(), g.sell_price.to_text()))
        .collect();
    assert_eq!(prices[0], ("100.0".to_owned(), "110.00".to_owned()));
    assert_eq!(prices[1], ("110.00".to_owned(), "120.00".to_owned()));
    assert_eq!(prices[2], ("90.00".to_owned(), "100.00".to_owned()));
    assert_eq!(try_price_floor(d("95"), d("10.00")).unwrap().to_text(), "100.00");
}
