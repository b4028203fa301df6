//! The turn of one grid.
//!
//! A turn asks the exchange and the table for things and goes on with the answers. Each
//! point at which it waits is a type of its own: what it waits for can be read off its
//! fields, and `resume` takes the answer and says what comes next.
//!
//! A new grid places its order. An order that the exchange took but the table did not
//! record is cancelled at once, since nobody would follow it. An open grid whose order was
//! filled is closed and turned round, and the order of the other leg is placed in the same
//! turn.

use crate::decimal::{
    floor_of, law_product_exact, law_quotient_exact, lemma_form, lemma_nearest_sign,
    lemma_nearest_within, lemma_pow10_positive, lemma_pow10_sum, lemma_same_form,
    lemma_short_purchase, one, over, pow10, product_of, quotient_of, representable, short,
    short_purchase, tie, times, Decimal,
};
use crate::engine::error::EngineError;
use crate::exchange::error::BinanceError;
use crate::exchange::types::{
    form_down, law_rounded_down_keeps_multiples, law_short_numbers_are_rounded_down,
    lemma_order_status_names, order_status_of, rounded_down, unknown_order_status,
    written_like_step, OpenOrder, OrderResponse, OrderSide, OrderStatus, PlaceOrderRequest,
    SymbolFilters,
};
use crate::models::trade_history::NewTradeHistory;
use crate::models::user_grid::{
    law_side_reads_back, lemma_status_names, reverse_of, side_of, side_text, status_of,
    unknown_side, unknown_status, GridRow, GridSide, GridStatus, UserGrid,
};
use crate::text::{
    digits, i64_text, int_text, is_digit, law_int_text_reads_back, lemma_digits_value,
    lemma_int_text_injective, parse_i64, parsed_i64,
};
use vstd::prelude::*;

verus! {

/// Where the turn of a grid stands.
pub enum GridStep {
    /// An order is planned: its symbol's trading rules are wanted.
    PlaceRules(PlacePlan),
    /// The order is to be placed.
    Submit(Order),
    /// Placing the order failed: it is to be looked up whether it was taken nevertheless.
    Recover(Recovery),
    /// The order was taken: it is to be recorded.
    RecordOpen(Placed),
    /// The order was not recorded: it is to be cancelled.
    CancelUntracked(Untracked),
    /// The order is gone: the grid is to be made new.
    ResetToNew(Reset),
    /// The order does not stand any more: it is to be looked up.
    QueryOrder(Query),
    /// The order was filled: the grid is to be closed.
    Close(Filled),
    /// The grid is to be turned round: its symbol's trading rules are wanted.
    FlipRules(FlipPlan),
    /// The grid is to be turned round.
    Flip(Flipping),
    /// The turn is over. So much of the shared budget was spent, if any.
    Done(Option<Decimal>),
    /// The turn failed.
    Failed(EngineError),
}

/// An order that is planned.
pub struct PlacePlan {
    pub grid: UserGrid,
    pub side: OrderSide,
    pub price: Decimal,
    /// The amount of the grid.
    pub amount: Decimal,
    /// The amount that is used.
    pub effective: Decimal,
    /// Whether it is paid from the shared budget.
    pub budgeted: bool,
}

/// An order that is to be placed.
pub struct Order {
    pub grid: UserGrid,
    pub side: OrderSide,
    pub price: Decimal,
    pub quantity: Decimal,
    /// The key under which it is placed.
    pub client_order_id: String,
    pub budgeted: bool,
}

/// An order of which it is not known whether it was taken.
pub struct Recovery {
    pub order: Order,
    /// Why placing it failed.
    pub error: BinanceError,
}

/// An order that was taken.
pub struct Placed {
    pub order: Order,
    pub order_id: i64,
}

/// An order that was taken and not recorded.
pub struct Untracked {
    pub symbol: String,
    pub order_id: i64,
    pub grid_id: i32,
    /// Why it was not recorded, if it was not because the row had changed.
    pub failure: Option<EngineError>,
}

/// A grid whose order is gone.
pub struct Reset {
    pub grid_id: i32,
    pub version: i64,
}

/// A grid whose order is to be looked up.
pub struct Query {
    pub grid: UserGrid,
    pub order_id: i64,
    /// The number of the order, as it was recorded.
    pub order_text: String,
}

/// A grid whose order was filled, with the amount that was settled.
pub struct Filled {
    pub grid: UserGrid,
    /// What was earned: only a sale earns.
    pub trade: Option<NewTradeHistory>,
}

/// A grid that is to be turned round.
pub struct FlipPlan {
    pub grid: UserGrid,
    /// The version of its row.
    pub version: i64,
    /// The side that is next.
    pub reverse: GridSide,
}

/// A grid that is to be turned round, with the amount of its other leg.
pub struct Flipping {
    pub grid: UserGrid,
    pub version: i64,
    pub reverse: GridSide,
    pub amount: Decimal,
}

/// What is left of a balance that is too small, when something is kept back so that it
/// suffices even if it changes a little: 99.95 percent, without the fraction.
pub open spec fn kept_within(free: int) -> int {
    floor_of(product_of(free, 9995 * pow10(24))->0)
}

/// The amount that a buy uses: what the grid has, if the budget suffices or is not known,
/// else what the budget allows.
pub open spec fn buy_amount(requested: int, free: Option<Decimal>) -> int {
    match free {
        None => requested,
        Some(budget) => if budget@ >= requested {
            requested
        } else {
            kept_within(budget@)
        },
    }
}

/// The amount that a buy uses, as it is written: what the budget allows is a whole number.
pub open spec fn buy_form(requested: Decimal, free: Option<Decimal>) -> (i128, u32) {
    match free {
        None => requested.form(),
        Some(budget) => if budget@ >= requested@ {
            requested.form()
        } else {
            ((kept_within(budget@) / one()) as i128, 0)
        },
    }
}

/// The amount that a buy uses.
pub fn effective_buy_amount(requested: Decimal, cached_quote_free: Option<Decimal>) -> (r: Decimal)
    ensures
        r@ == buy_amount(requested@, cached_quote_free),
        r.form() == buy_form(requested, cached_quote_free),
        (cached_quote_free is None || cached_quote_free->0@ >= requested@) ==> r == requested,
        cached_quote_free is Some && cached_quote_free->0@ >= 0 ==> r@ <= cached_quote_free->0@,
{
    let free = match cached_quote_free {
        Some(free) => free,
        None => {
            return requested;
        },
    };
    if free >= requested {
        return requested;
    }
    let factor = Decimal::new(9995, 4).unwrap();
    proof {
        lemma_factor();
    }
    let kept = free.checked_mul(factor).unwrap();
    proof {
        lemma_floor(kept@);
        lemma_form(kept);
        let (n, e) = (kept@ / one(), one());
        lemma_pow10_positive(28);
        assert((n * e) / e == n) by (nonlinear_arith)
            requires
                e > 0,
        ;
    }
    kept.floor()
}

/// 0.9995 is at most one.
proof fn lemma_factor()
    ensures
        0 < 9995 * pow10(24) <= pow10(28),
{
    lemma_pow10_positive(24);
    lemma_pow10_sum(24, 4);
    assert(pow10(4) == 10000) by {
        reveal_with_fuel(pow10, 5);
    }
}

/// A number without its fraction is not larger.
proof fn lemma_floor(value: int)
    ensures
        floor_of(value) <= value,
{
    lemma_pow10_positive(28);
    let e = one();
    assert((value / e) * e <= value) by (nonlinear_arith)
        requires
            e > 0,
    ;
}

/// The key under which the order of a grid is placed, by its id and its version. The
/// exchange takes no second order under the same key.
pub open spec fn client_id(grid_id: i32, version: i64) -> Seq<char> {
    "g"@ + int_text(grid_id as int) + "v"@ + int_text(version as int)
}

/// The key under which the order of a grid is placed.
pub fn client_order_id(grid_id: i32, version: i64) -> (r: String)
    ensures
        r@ == client_id(grid_id, version),
{
    let mut r = "g".to_owned();
    r.append(i64_text(grid_id as i64).as_str());
    r.append("v");
    r.append(i64_text(version).as_str());
    r
}

/// The text of a whole number holds nothing but digits and a minus sign.
proof fn lemma_no_letter(i: int)
    ensures
        forall|k: int| 0 <= k < int_text(i).len() ==> #[trigger] int_text(i)[k] != 'v',
{
    let magnitude = if i < 0 {
        (-i) as nat
    } else {
        i as nat
    };
    lemma_digits_value(magnitude);
    assert forall|k: int| 0 <= k < int_text(i).len() implies #[trigger] int_text(i)[k] != 'v' by {
        if i < 0 {
            if k > 0 {
                assert(int_text(i)[k] == digits(magnitude)[k - 1]);
                assert(is_digit(digits(magnitude)[k - 1]));
            }
        } else {
            assert(is_digit(digits(magnitude)[k]));
        }
    }
}

/// Two orders have the same key only if they are for the same grid at the same version, so
/// that an order which is placed again after its answer was lost cannot become two.
pub proof fn law_client_order_ids_differ(a: i32, v: i64, b: i32, w: i64)
    requires
        client_id(a, v) == client_id(b, w),
    ensures
        a == b,
        v == w,
{
    reveal_strlit("g");
    reveal_strlit("v");
    let s = client_id(a, v);
    let t = client_id(b, w);
    let n = int_text(a as int).len() as int;
    let m = int_text(b as int).len() as int;
    lemma_no_letter(a as int);
    lemma_no_letter(b as int);
    assert(s[1 + n] == 'v');
    assert(t[1 + m] == 'v');
    if n < m {
        assert(t[1 + n] == int_text(b as int)[n]);
    } else if m < n {
        assert(s[1 + m] == int_text(a as int)[m]);
    }
    assert(n == m);
    assert(int_text(a as int) =~= s.subrange(1, 1 + n));
    assert(int_text(b as int) =~= t.subrange(1, 1 + n));
    assert(int_text(v as int) =~= s.skip(2 + n));
    assert(int_text(w as int) =~= t.skip(2 + n));
    lemma_int_text_injective(a as i64, b as i64);
    lemma_int_text_injective(v, w);
}

/// Whether an order is planned.
pub open spec fn plans_order(
    step: GridStep,
    grid: GridRow,
    side: OrderSide,
    price: Decimal,
    amount: Decimal,
    free: Option<Decimal>,
    budgeted: bool,
) -> bool {
    step matches GridStep::PlaceRules(plan) && plan.grid@ == grid && plan.side == side && plan.price
        == price && plan.amount == amount && plan.budgeted == budgeted && plan.effective@ == if side
        == OrderSide::Buy {
        buy_amount(amount@, free)
    } else {
        amount@
    } && plan.effective.form() == if side == OrderSide::Buy {
        buy_form(amount, free)
    } else {
        amount.form()
    }
}

/// Plans the order of a grid.
pub fn place_and_open(
    grid: UserGrid,
    side: OrderSide,
    price: Decimal,
    amount: Decimal,
    cached_quote_free: Option<Decimal>,
    budgeted: bool,
) -> (r: GridStep)
    ensures
        plans_order(r, grid@, side, price, amount, cached_quote_free, budgeted),
{
    let effective = if side == OrderSide::Buy {
        effective_buy_amount(amount, cached_quote_free)
    } else {
        amount
    };
    GridStep::PlaceRules(PlacePlan { grid, side, price, amount, effective, budgeted })
}

/// The quantity of an order before it is brought down to a multiple of the step: a buy
/// spends its amount, a sell sells it. Where the quotient lies halfway between two numbers,
/// `odd` says which it is rounded off to.
pub open spec fn raw_quantity(side: OrderSide, effective: int, price: int, odd: bool) -> Option<
    int,
> {
    match side {
        OrderSide::Buy => quotient_of(effective, price, odd),
        OrderSide::Sell => Some(effective),
    }
}

/// How the quotients by the tick, by the price and by the step are rounded off where they
/// lie halfway between two numbers.
pub struct OrderTies {
    pub tick: bool,
    pub price: bool,
    pub step: bool,
}

/// Whether this is why an order does not comply.
pub open spec fn refusal(
    rules: SymbolFilters,
    quantity: (i128, u32),
    price: (i128, u32),
    reason: String,
) -> bool {
    exists|q: Decimal, p: Decimal|
        q.form() == quantity && p.form() == price && #[trigger] rules.verdict(q, p, Err(reason))
}

/// The price of a planned order, as it is written.
pub open spec fn price_form(plan: PlacePlan, rules: SymbolFilters) -> (i128, u32) {
    form_down(plan.price.form(), rules.tick_size.form())->0
}

/// The quantity of a planned order before it is brought down, as it is written.
pub open spec fn raw_form(plan: PlacePlan, rules: SymbolFilters) -> (i128, u32) {
    match plan.side {
        OrderSide::Buy => over(plan.effective.form(), price_form(plan, rules))->0,
        OrderSide::Sell => plan.effective.form(),
    }
}

/// The quantity of a planned order, as it is written.
pub open spec fn quantity_form(plan: PlacePlan, rules: SymbolFilters) -> (i128, u32) {
    form_down(raw_form(plan, rules), rules.step_size.form())->0
}

/// How the quotients of a planned order are rounded off.
pub open spec fn order_ties(plan: PlacePlan, rules: SymbolFilters) -> OrderTies {
    OrderTies {
        tick: tie(plan.price.form(), rules.tick_size.form()),
        price: tie(plan.effective.form(), price_form(plan, rules)),
        step: tie(raw_form(plan, rules), rules.step_size.form()),
    }
}

/// What comes of a planned order under the trading rules.
pub open spec fn ordered(plan: PlacePlan, rules: SymbolFilters, r: GridStep) -> bool {
    ordered_by(plan, rules, order_ties(plan, rules), r)
}

/// What comes of a planned order under the trading rules, if quotients are rounded off like
/// this.
pub open spec fn ordered_by(
    plan: PlacePlan,
    rules: SymbolFilters,
    ties: OrderTies,
    r: GridStep,
) -> bool {
    let id = plan.grid.id;
    match rounded_down(plan.price@, rules.tick_size@, ties.tick) {
        None => r == GridStep::Failed(EngineError::Overflow),
        Some(price) => if price <= 0 {
            r == GridStep::Failed(EngineError::PriceIsZero { grid_id: id })
        } else {
            match raw_quantity(plan.side, plan.effective@, price, ties.price) {
                None => r == GridStep::Failed(EngineError::NoQuantity { grid_id: id }),
                Some(raw) => match rounded_down(raw, rules.step_size@, ties.step) {
                    None => r == GridStep::Failed(EngineError::Overflow),
                    Some(quantity) => if quantity <= 0 {
                        r matches GridStep::Failed(EngineError::QuantityIsZero {
                            grid_id,
                            side,
                            amount,
                            price: p,
                            step,
                        }) && grid_id == id && side == plan.side && amount == plan.amount && p@
                            == price && p.form() == price_form(plan, rules) && step
                            == rules.step_size
                    } else if !rules.can_validate(quantity, price) {
                        r == GridStep::Failed(EngineError::Overflow)
                    } else if !rules.complies(quantity, price) {
                        r matches GridStep::Failed(EngineError::Refused { grid_id, reason })
                            && grid_id == id && refusal(
                            rules,
                            quantity_form(plan, rules),
                            price_form(plan, rules),
                            reason,
                        )
                    } else {
                        r matches GridStep::Submit(order) && order.grid == plan.grid && order.side
                            == plan.side && order.price@ == price && order.quantity@ == quantity
                            && order.price.form() == price_form(plan, rules)
                            && order.quantity.form() == quantity_form(plan, rules)
                            && (rules.tick_size@ > 0 ==> rules.tick_size.ties(ties.tick)) && (
                        rules.step_size@ > 0 ==> rules.step_size.ties(ties.step)) && (plan.side
                            == OrderSide::Buy ==> order.price.ties(ties.price))
                            && written_like_step(
                            plan.price@,
                            rules.tick_size,
                            ties.tick,
                            order.price,
                        ) && written_like_step(raw, rules.step_size, ties.step, order.quantity)
                            && order.client_order_id@ == client_id(id, plan.grid.version)
                            && order.budgeted == plan.budgeted
                    },
                },
            }
        },
    }
}

/// An order that is placed has a positive price and quantity, brought down to what the
/// exchange takes, and complies with all of its rules.
pub proof fn law_placed_orders_comply(plan: PlacePlan, rules: SymbolFilters, order: Order)
    requires
        ordered(plan, rules, GridStep::Submit(order)),
    ensures
        order.price@ > 0,
        order.quantity@ > 0,
        exists|odd: bool|
            #[trigger] rounded_down(plan.price@, rules.tick_size@, odd) == Some(order.price@),
        order.quantity@ >= rules.min_qty@,
        product_of(order.quantity@, order.price@) matches Some(value) && value
            >= rules.min_notional@,
        rules.step_size@ > 0 ==> order.quantity@ % rules.step_size@ == 0,
        rules.tick_size@ > 0 ==> order.price@ % rules.tick_size@ == 0,
{
    let ties = order_ties(plan, rules);
    assert(rounded_down(plan.price@, rules.tick_size@, ties.tick) == Some(order.price@));
}

/// When an order that was placed is recorded, its turn succeeds.
pub proof fn law_recorded_orders_end_their_turn(
    plan: PlacePlan,
    rules: SymbolFilters,
    order: Order,
    r: GridStep,
)
    requires
        ordered(plan, rules, GridStep::Submit(order)),
        recorded(order, r),
    ensures
        r is Done,
{
    law_placed_orders_comply(plan, rules, order);
}

/// How many whole steps an amount buys at a price, as it is computed.
pub open spec fn steps_bought(
    amount: int,
    price: int,
    step: int,
    first: bool,
    second: bool,
) -> int {
    quotient_of(quotient_of(amount, price, first)->0, step, second)->0 / one()
}

/// Whether a quantity is no larger than a number that the amount buys.
spec fn affordable(quantity: int, price: int, amount: int) -> bool {
    exists|v: int|
        representable(v) && quantity <= v && #[trigger] (v * price) <= amount * one()
}

/// Whether what is computed for an amount is not more than the amount buys.
spec fn bought_from_below(amount: int, price: int, step: int) -> bool {
    if step > 0 {
        forall|first: bool, second: bool|
            affordable(
                #[trigger] steps_bought(amount, price, step, first, second) * step,
                price,
                amount,
            )
    } else {
        forall|first: bool| (#[trigger] quotient_of(amount, price, first))->0 * price <= amount
            * one()
    }
}

/// Whether a plan is one to buy, with what is free if that is known.
pub open spec fn pays(plan: PlacePlan, free: Option<Decimal>) -> bool {
    &&& plan.side == OrderSide::Buy
    &&& representable(plan.effective@)
    &&& plan.effective@ >= 0
    &&& plan.effective@ == buy_amount(plan.amount@, free)
    &&& free matches Some(budget) ==> representable(budget@) && budget@ >= 0
}

/// Whether an order spends at most its amount, and at most what is free if that is known.
pub open spec fn spends_within(plan: PlacePlan, order: Order, free: Option<Decimal>) -> bool {
    product_of(order.quantity@, order.price@) matches Some(spent) && 0 <= spent
        <= plan.effective@ && (free matches Some(budget) ==> spent <= budget@)
}

/// What a buy uses is not above the budget, if that is not negative.
proof fn lemma_buy_amount_within(requested: int, free: Decimal)
    requires
        representable(free@),
        free@ >= 0,
    ensures
        buy_amount(requested, Some(free)) <= free@,
{
    let e = one();
    let factor = 9995 * pow10(24);
    lemma_factor();
    lemma_pow10_positive(28);
    let value = free@;
    assert(-value * e <= value * factor <= value * e) by (nonlinear_arith)
        requires
            value >= 0,
            0 < factor <= e,
    ;
    lemma_nearest_within(value * factor, e, value, false);
    lemma_floor(product_of(value, factor)->0);
}

/// What an order spends where no more is bought than the amount buys.
proof fn lemma_buy_cost(
    plan: PlacePlan,
    rules: SymbolFilters,
    order: Order,
    free: Option<Decimal>,
)
    requires
        ordered(plan, rules, GridStep::Submit(order)),
        pays(plan, free),
        bought_from_below(plan.effective@, order.price@, rules.step_size@),
    ensures
        spends_within(plan, order, free),
{
    let ties = order_ties(plan, rules);
    let e = one();
    let amount = plan.effective@;
    let price = order.price@;
    let step = rules.step_size@;
    let quantity = order.quantity@;
    lemma_pow10_positive(28);
    let raw = quotient_of(amount, price, ties.price)->0;
    if step > 0 {
        let count = steps_bought(amount, price, step, ties.price, ties.step);
        let exact = count * step;
        let v = choose|v: int|
            representable(v) && exact <= v && #[trigger] (v * price) <= amount * e;
        assert(affordable(exact, price, amount));
        assert((count * e) * step == exact * e) by (nonlinear_arith)
            requires
                exact == count * step,
        ;
        if exact <= 0 {
            assert(exact * e <= 0) by (nonlinear_arith)
                requires
                    exact <= 0,
                    e > 0,
            ;
            lemma_nearest_sign(exact * e, e, false);
        }
        assert(0 <= exact * e <= v * e && -v * e <= 0) by (nonlinear_arith)
            requires
                0 < exact <= v,
                e > 0,
        ;
        lemma_nearest_within(exact * e, e, v, false);
        assert(quantity * price <= v * price) by (nonlinear_arith)
            requires
                quantity <= v,
                price > 0,
        ;
    } else {
        assert(raw * price <= amount * e);
        assert(quantity == raw);
    }
    assert(0 <= quantity * price && -amount * e <= 0) by (nonlinear_arith)
        requires
            quantity > 0,
            price > 0,
            amount >= 0,
            e > 0,
    ;
    lemma_nearest_within(quantity * price, e, amount, false);
    if let Some(budget) = free {
        lemma_buy_amount_within(plan.amount@, budget);
    }
}

/// Where an amount can be divided by the price without a rest, and the quantity by the step
/// if there is one, a buy costs at most its amount, and at most what is free if that is known.
pub proof fn law_exact_buy_costs_at_most_its_amount(
    plan: PlacePlan,
    rules: SymbolFilters,
    order: Order,
    free: Option<Decimal>,
    raw: int,
    count: int,
)
    requires
        ordered(plan, rules, GridStep::Submit(order)),
        pays(plan, free),
        representable(raw),
        plan.effective@ * one() == raw * order.price@,
        rules.step_size@ > 0 ==> representable(count) && raw * one() == count * rules.step_size@,
    ensures
        spends_within(plan, order, free),
{
    let e = one();
    let amount = plan.effective@;
    let price = order.price@;
    let step = rules.step_size@;
    lemma_pow10_positive(28);
    law_placed_orders_comply(plan, rules, order);
    law_quotient_exact(amount, price, raw, false);
    law_quotient_exact(amount, price, raw, true);
    if step > 0 {
        law_quotient_exact(raw, step, count, false);
        law_quotient_exact(raw, step, count, true);
        let whole_part = count / e;
        assert(whole_part * step <= raw) by (nonlinear_arith)
            requires
                raw * e == count * step,
                whole_part == count / e,
                e > 0,
                step > 0,
        ;
        assert(raw * price <= amount * e);
        assert(affordable(whole_part * step, price, amount));
        assert forall|first: bool, second: bool|
            affordable(
                #[trigger] steps_bought(amount, price, step, first, second) * step,
                price,
                amount,
            ) by {
            assert(quotient_of(amount, price, first) == Some(raw));
            assert(quotient_of(raw, step, second) == Some(count));
        }
    } else {
        assert forall|first: bool| (#[trigger] quotient_of(amount, price, first))->0 * price
            <= amount * one() by {
            assert(quotient_of(amount, price, first) == Some(raw));
        }
    }
    lemma_buy_cost(plan, rules, order, free);
}

/// Where the amount, the price and the step have few enough digits, a buy costs at most its
/// amount, and at most what is free if that is known, however the quotients are rounded off.
pub proof fn law_buy_costs_at_most_its_amount(
    plan: PlacePlan,
    rules: SymbolFilters,
    order: Order,
    free: Option<Decimal>,
    a: int,
    p: int,
    s: int,
    k: nat,
    j: nat,
    i: nat,
)
    requires
        ordered(plan, rules, GridStep::Submit(order)),
        pays(plan, free),
        short_purchase(a, p, s, k, j, i),
        plan.effective@ == a * pow10(k),
        order.price@ == p * pow10(k),
        rules.step_size@ == s * pow10(k),
    ensures
        spends_within(plan, order, free),
{
    let amount = plan.effective@;
    let price = order.price@;
    let step = rules.step_size@;
    let unit = pow10(k);
    lemma_pow10_positive(k);
    assert(step > 0) by (nonlinear_arith)
        requires
            step == s * unit,
            s > 0,
            unit > 0,
    ;
    assert forall|first: bool, second: bool|
        affordable(
            #[trigger] steps_bought(amount, price, step, first, second) * step,
            price,
            amount,
        ) by {
        lemma_short_purchase(a, p, s, k, j, i, first, second);
        let v = steps_bought(amount, price, step, first, second) * step;
        assert(representable(v) && v * price <= amount * one());
    }
    lemma_buy_cost(plan, rules, order, free);
}

impl PlacePlan {
    /// Works out the order: the price and the quantity are brought down to what the
    /// exchange takes, and an order that it would refuse is not placed.
    pub fn resume(self, rules: Result<SymbolFilters, EngineError>) -> (r: GridStep)
        ensures
            match rules {
                Err(e) => r == GridStep::Failed(e),
                Ok(f) => ordered(self, f, r),
            },
    {
        let filters = match rules {
            Ok(f) => f,
            Err(e) => {
                return GridStep::Failed(e);
            },
        };
        let grid_id = self.grid.id;
        let zero = Decimal::zero();
        let price = match filters.try_round_price(self.price) {
            Some(price) => price,
            None => {
                return GridStep::Failed(EngineError::Overflow);
            },
        };
        if price <= zero {
            return GridStep::Failed(EngineError::PriceIsZero { grid_id });
        }
        let raw = match self.side {
            OrderSide::Buy => match self.effective.checked_div(price) {
                Some(raw) => raw,
                None => {
                    return GridStep::Failed(EngineError::NoQuantity { grid_id });
                },
            },
            OrderSide::Sell => self.effective,
        };
        let quantity = match filters.try_round_quantity(raw) {
            Some(quantity) => quantity,
            None => {
                return GridStep::Failed(EngineError::Overflow);
            },
        };
        if quantity <= zero {
            return GridStep::Failed(
                EngineError::QuantityIsZero {
                    grid_id,
                    side: self.side,
                    amount: self.amount,
                    price,
                    step: filters.step_size,
                },
            );
        }
        match filters.try_validate(quantity, price) {
            None => {
                return GridStep::Failed(EngineError::Overflow);
            },
            Some(Err(reason)) => {
                assert(filters.verdict(quantity, price, Err(reason)));
                assert(refusal(filters, quantity.form(), price.form(), reason));
                return GridStep::Failed(EngineError::Refused { grid_id, reason });
            },
            Some(Ok(())) => {},
        }
        let client_order_id = client_order_id(grid_id, self.grid.version);
        GridStep::Submit(
            Order {
                grid: self.grid,
                side: self.side,
                price,
                quantity,
                client_order_id,
                budgeted: self.budgeted,
            },
        )
    }
}

impl Order {
    /// The request that places the order.
    pub fn request(&self) -> (r: PlaceOrderRequest)
        ensures
            r.symbol == self.grid.symbol,
            r.side == self.side,
            r.quantity == self.quantity,
            r.price == self.price,
            r.client_order_id == Some(self.client_order_id),
    {
        PlaceOrderRequest {
            symbol: self.grid.symbol.clone(),
            side: self.side,
            quantity: self.quantity,
            price: self.price,
            client_order_id: Some(self.client_order_id.clone()),
        }
    }

    /// Goes on with what became of the request. A request that failed may have been taken
    /// all the same.
    pub fn resume(self, reply: Result<OrderResponse, BinanceError>) -> (r: GridStep)
        ensures
            r == match reply {
                Ok(response) => GridStep::RecordOpen(
                    Placed { order: self, order_id: response.order_id },
                ),
                Err(error) => GridStep::Recover(Recovery { order: self, error }),
            },
    {
        match reply {
            Ok(response) => GridStep::RecordOpen(
                Placed { order: self, order_id: response.order_id },
            ),
            Err(error) => GridStep::Recover(Recovery { order: self, error }),
        }
    }
}

impl Recovery {
    /// Goes on with the order that stands under the key. Where there is none (-2013)
    /// the request did fail.
    pub fn resume(self, reply: Result<OpenOrder, BinanceError>) -> (r: GridStep)
        ensures
            match reply {
                Ok(existing) => r == GridStep::RecordOpen(
                    Placed { order: self.order, order_id: existing.order_id },
                ),
                Err(e) => if e matches BinanceError::Api { code, .. } && code == -2013 {
                    r == GridStep::Failed(EngineError::Exchange(self.error))
                } else {
                    r == GridStep::Failed(
                        EngineError::RecoveryFailed { place: self.error, recovery: e },
                    )
                },
            },
    {
        match reply {
            Ok(existing) => GridStep::RecordOpen(
                Placed { order: self.order, order_id: existing.order_id },
            ),
            Err(e) => if e.has_code(-2013) {
                GridStep::Failed(EngineError::Exchange(self.error))
            } else {
                GridStep::Failed(EngineError::RecoveryFailed { place: self.error, recovery: e })
            },
        }
    }
}

/// How the turn of an order that was recorded ends: a buy says what it has spent of the
/// budget.
pub open spec fn recorded(order: Order, r: GridStep) -> bool {
    match order.side {
        OrderSide::Sell => r == GridStep::Done(None),
        OrderSide::Buy => match product_of(order.quantity@, order.price@) {
            None => r == GridStep::Failed(EngineError::Overflow),
            Some(spent) => r matches GridStep::Done(s) && if order.budgeted {
                s matches Some(d) && d@ == spent && times(
                    order.quantity.form(),
                    order.price.form(),
                ) == Some(d.form())
            } else {
                s is None
            },
        },
    }
}

impl Placed {
    /// The number of the order, as it is recorded.
    pub fn order_id_text(&self) -> (r: String)
        ensures
            r@ == int_text(self.order_id as int),
    {
        i64_text(self.order_id)
    }

    /// Goes on with whether the order was recorded. Where it was not, whatever the
    /// reason, that very order is cancelled.
    pub fn resume(self, reply: Result<bool, String>) -> (r: GridStep)
        ensures
            match reply {
                Ok(true) => recorded(self.order, r),
                Ok(false) => r matches GridStep::CancelUntracked(u) && u.symbol
                    == self.order.grid.symbol && u.order_id == self.order_id && u.grid_id
                    == self.order.grid.id && u.failure is None,
                Err(reason) => r matches GridStep::CancelUntracked(u) && u.symbol
                    == self.order.grid.symbol && u.order_id == self.order_id && u.grid_id
                    == self.order.grid.id && u.failure == Some(EngineError::Database(reason)),
            },
    {
        let order = self.order;
        let failure = match reply {
            Ok(true) => {
                return match order.side {
                    OrderSide::Sell => GridStep::Done(None),
                    OrderSide::Buy => match order.quantity.checked_mul(order.price) {
                        Some(spent) => if order.budgeted {
                            GridStep::Done(Some(spent))
                        } else {
                            GridStep::Done(None)
                        },
                        None => GridStep::Failed(EngineError::Overflow),
                    },
                };
            },
            Ok(false) => None,
            Err(reason) => Some(EngineError::Database(reason)),
        };
        GridStep::CancelUntracked(
            Untracked {
                symbol: order.grid.symbol,
                order_id: self.order_id,
                grid_id: order.grid.id,
                failure,
            },
        )
    }
}

impl Untracked {
    /// Ends the turn, whether or not the order could be cancelled. Nothing was spent.
    pub fn resume(self, _reply: Result<(), BinanceError>) -> (r: GridStep)
        ensures
            r == match self.failure {
                Some(e) => GridStep::Failed(e),
                None => GridStep::Done(None),
            },
    {
        match self.failure {
            Some(e) => GridStep::Failed(e),
            None => GridStep::Done(None),
        }
    }
}

impl Reset {
    /// Ends the turn. If the row had changed, the next turn sees to it.
    pub fn resume(self, reply: Result<bool, String>) -> (r: GridStep)
        ensures
            r == match reply {
                Ok(_) => GridStep::Done(None),
                Err(reason) => GridStep::Failed(EngineError::Database(reason)),
            },
    {
        match reply {
            Ok(_) => GridStep::Done(None),
            Err(reason) => GridStep::Failed(EngineError::Database(reason)),
        }
    }
}

/// Whether an order is still at work.
pub open spec fn at_work(status: OrderStatus) -> bool {
    status == OrderStatus::New || status == OrderStatus::PartiallyFilled || status
        == OrderStatus::PendingCancel
}

/// What was settled: for a buy what was paid, or else what was bought, at the price of the
/// grid; for a sale what was sold. Where the exchange does not say, the amount of the grid.
pub open spec fn settled_amount(side: GridSide, status: OrderStatus, order: OpenOrder, row: GridRow)
    -> Option<int> {
    if side == GridSide::Buy && order.cummulative_quote_qty@ > 0 {
        Some(order.cummulative_quote_qty@)
    } else if side == GridSide::Buy && status != OrderStatus::Filled {
        product_of(order.executed_qty@, row.buy_price@)
    } else if side == GridSide::Sell && order.executed_qty@ > 0 {
        Some(order.executed_qty@)
    } else {
        Some(row.amount@)
    }
}

/// What was settled, as it is written.
pub open spec fn settled_form(side: GridSide, status: OrderStatus, order: OpenOrder, row: GridRow)
    -> (i128, u32) {
    if side == GridSide::Buy && order.cummulative_quote_qty@ > 0 {
        order.cummulative_quote_qty.form()
    } else if side == GridSide::Buy && status != OrderStatus::Filled {
        times(order.executed_qty.form(), row.buy_price.form())->0
    } else if side == GridSide::Sell && order.executed_qty@ > 0 {
        order.executed_qty.form()
    } else {
        row.amount.form()
    }
}

/// Whether a trade is that of a filled grid.
pub open spec fn trade_of(
    row: GridRow,
    order_id: Seq<char>,
    settled: Decimal,
    trade: NewTradeHistory,
) -> bool {
    &&& trade.user_id == row.user_id
    &&& trade.symbol@ == row.symbol
    &&& trade.order_id@ == order_id
    &&& trade.amount == settled
    &&& trade.buy_price == row.buy_price
    &&& trade.sell_price == row.sell_price
    &&& trade.source@ == "user_grid"@
    &&& trade.source_id == row.id
}

/// What comes of the order that was looked up.
pub open spec fn looked_up(query: Query, order: OpenOrder, r: GridStep) -> bool {
    let row = query.grid@;
    match order_status_of(order.status@) {
        None => r matches GridStep::Failed(EngineError::Unknown(reason)) && reason@
            == unknown_order_status(order.status@),
        Some(status) => if at_work(status) {
            r == GridStep::Done(None)
        } else if status != OrderStatus::Filled && order.executed_qty@ <= 0 {
            r == GridStep::ResetToNew(Reset { grid_id: row.id, version: row.version })
        } else {
            match side_of(row.side) {
                None => r matches GridStep::Failed(EngineError::Unknown(reason)) && reason@
                    == unknown_side(row.side),
                Some(side) => match settled_amount(side, status, order, row) {
                    None => r == GridStep::Failed(EngineError::Overflow),
                    Some(settled) => r matches GridStep::Close(filled) && filled.grid.amount@
                        == settled && filled.grid.amount.form() == settled_form(
                        side,
                        status,
                        order,
                        row,
                    ) && filled.grid@ == (GridRow {
                        amount: filled.grid.amount,
                        ..row
                    }) && match filled.trade {
                        Some(trade) => side == GridSide::Sell && trade_of(
                            row,
                            query.order_text@,
                            filled.grid.amount,
                            trade,
                        ),
                        None => side == GridSide::Buy,
                    },
                },
            }
        },
    }
}

impl Query {
    /// Goes on with the order. One that is still at work is waited for; one that ended
    /// without a fill makes the grid new; any other was filled, at least in part, and
    /// closes the grid. Only a sale is recorded as a trade: a buy has earned nothing yet.
    pub fn resume(self, reply: Result<OpenOrder, BinanceError>) -> (r: GridStep)
        ensures
            match reply {
                Err(e) => r == GridStep::Failed(EngineError::Exchange(e)),
                Ok(order) => looked_up(self, order, r),
            },
    {
        let order = match reply {
            Ok(order) => order,
            Err(e) => {
                return GridStep::Failed(EngineError::Exchange(e));
            },
        };
        let zero = Decimal::zero();
        let status = match OrderStatus::try_from(order.status.as_str()) {
            Ok(status) => status,
            Err(reason) => {
                return GridStep::Failed(EngineError::Unknown(reason));
            },
        };
        if status == OrderStatus::New || status == OrderStatus::PartiallyFilled || status
            == OrderStatus::PendingCancel {
            return GridStep::Done(None);
        }
        if status != OrderStatus::Filled && order.executed_qty <= zero {
            return GridStep::ResetToNew(
                Reset { grid_id: self.grid.id, version: self.grid.version },
            );
        }
        let side = match GridSide::try_from(self.grid.side.as_str()) {
            Ok(side) => side,
            Err(reason) => {
                return GridStep::Failed(EngineError::Unknown(reason));
            },
        };
        let settled = if side == GridSide::Buy && order.cummulative_quote_qty > zero {
            order.cummulative_quote_qty
        } else if side == GridSide::Buy && status != OrderStatus::Filled {
            match order.executed_qty.checked_mul(self.grid.buy_price) {
                Some(d) => d,
                None => {
                    return GridStep::Failed(EngineError::Overflow);
                },
            }
        } else if side == GridSide::Sell && order.executed_qty > zero {
            order.executed_qty
        } else {
            self.grid.amount
        };
        let trade = if side == GridSide::Sell {
            Some(
                NewTradeHistory {
                    user_id: self.grid.user_id,
                    symbol: self.grid.symbol.clone(),
                    order_id: self.order_text,
                    amount: settled,
                    buy_price: self.grid.buy_price,
                    sell_price: self.grid.sell_price,
                    source: "user_grid".to_owned(),
                    source_id: self.grid.id,
                },
            )
        } else {
            None
        };
        let mut grid = self.grid;
        grid.amount = settled;
        GridStep::Close(Filled { grid, trade })
    }
}

/// Whether a grid is to be turned round.
pub open spec fn plans_flip(step: GridStep, grid: GridRow, version: i64) -> bool {
    match side_of(grid.side) {
        None => step matches GridStep::Failed(EngineError::Unknown(reason)) && reason@
            == unknown_side(grid.side),
        Some(side) => step matches GridStep::FlipRules(plan) && plan.grid@ == grid && plan.version
            == version && plan.reverse == reverse_of(side),
    }
}

/// Turns a filled grid round. `version` is that of its row.
pub fn flip_and_place_reverse(grid: UserGrid, version: i64) -> (r: GridStep)
    ensures
        plans_flip(r, grid@, version),
{
    match GridSide::try_from(grid.side.as_str()) {
        Ok(side) => GridStep::FlipRules(FlipPlan { grid, version, reverse: side.reverse() }),
        Err(reason) => GridStep::Failed(EngineError::Unknown(reason)),
    }
}

impl Filled {
    /// Goes on with whether the grid was closed. Closing has raised the version of its
    /// row.
    pub fn resume(self, reply: Result<bool, String>) -> (r: GridStep)
        ensures
            match reply {
                Err(reason) => r == GridStep::Failed(EngineError::Database(reason)),
                Ok(false) => r == GridStep::Done(None),
                Ok(true) => if self.grid.version == i64::MAX {
                    r == GridStep::Failed(EngineError::Overflow)
                } else {
                    plans_flip(r, self.grid@, (self.grid.version + 1) as i64)
                },
            },
    {
        match reply {
            Err(reason) => GridStep::Failed(EngineError::Database(reason)),
            Ok(false) => GridStep::Done(None),
            Ok(true) => if self.grid.version == i64::MAX {
                GridStep::Failed(EngineError::Overflow)
            } else {
                let version = self.grid.version + 1;
                flip_and_place_reverse(self.grid, version)
            },
        }
    }
}

/// What was bought, as it is written, before it is brought down to what can be sold.
pub open spec fn bought_form(plan: FlipPlan) -> (i128, u32) {
    over(plan.grid.amount.form(), plan.grid.buy_price.form())->0
}

/// The amount of the other leg, as it is written.
pub open spec fn flip_form(plan: FlipPlan, rules: SymbolFilters) -> (i128, u32) {
    if plan.reverse == GridSide::Sell {
        form_down(bought_form(plan), rules.step_size.form())->0
    } else {
        times(plan.grid.amount.form(), plan.grid.sell_price.form())->0
    }
}

/// What the other leg trades: after a buy the quantity that was bought, brought down to
/// what can be sold; after a sale the amount that it brought.
pub open spec fn turned_round(plan: FlipPlan, rules: SymbolFilters, r: GridStep) -> bool {
    let row = plan.grid@;
    let by_price = tie(plan.grid.amount.form(), plan.grid.buy_price.form());
    let by_step = tie(bought_form(plan), rules.step_size.form());
    let flips = |amount: int| r matches GridStep::Flip(next) && next.grid == plan.grid
        && next.version == plan.version && next.reverse == plan.reverse && next.amount@ == amount
        && next.amount.form() == flip_form(plan, rules);
    if plan.reverse == GridSide::Sell {
        row.buy_price.ties(by_price) && match quotient_of(
            row.amount@,
            row.buy_price@,
            by_price,
        ) {
            None => r == GridStep::Failed(EngineError::NoBuyPrice { grid_id: row.id }),
            Some(bought) => (rules.step_size@ > 0 ==> rules.step_size.ties(by_step))
                && match rounded_down(bought, rules.step_size@, by_step) {
                None => r == GridStep::Failed(EngineError::Overflow),
                Some(amount) => flips(amount),
            },
        }
    } else {
        match product_of(row.amount@, row.sell_price@) {
            None => r == GridStep::Failed(EngineError::Overflow),
            Some(amount) => flips(amount),
        }
    }
}

impl FlipPlan {
    /// Works out the amount of the other leg.
    pub fn resume(self, rules: Result<SymbolFilters, EngineError>) -> (r: GridStep)
        ensures
            match rules {
                Err(e) => r == GridStep::Failed(e),
                Ok(f) => turned_round(self, f, r),
            },
    {
        let filters = match rules {
            Ok(f) => f,
            Err(e) => {
                return GridStep::Failed(e);
            },
        };
        let amount = if self.reverse == GridSide::Sell {
            let bought = match self.grid.amount.checked_div(self.grid.buy_price) {
                Some(bought) => bought,
                None => {
                    return GridStep::Failed(EngineError::NoBuyPrice { grid_id: self.grid.id });
                },
            };
            filters.try_round_quantity(bought)
        } else {
            self.grid.amount.checked_mul(self.grid.sell_price)
        };
        match amount {
            Some(amount) => GridStep::Flip(
                Flipping {
                    grid: self.grid,
                    version: self.version,
                    reverse: self.reverse,
                    amount,
                },
            ),
            None => GridStep::Failed(EngineError::Overflow),
        }
    }
}

/// The row of a grid that was turned round.
pub open spec fn flipped_row(flip: Flipping) -> GridRow {
    GridRow {
        side: side_text(flip.reverse),
        status: "new"@,
        version: (flip.version + 1) as i64,
        order_id: None,
        amount: flip.amount,
        ..flip.grid@
    }
}

impl Flipping {
    /// Goes on with whether the grid was turned round. If so the order of the other leg
    /// is planned, at that leg's price and for the whole amount.
    pub fn resume(self, reply: Result<bool, String>) -> (r: GridStep)
        ensures
            match reply {
                Err(reason) => r == GridStep::Failed(EngineError::Database(reason)),
                Ok(false) => r == GridStep::Done(None),
                Ok(true) => if self.version == i64::MAX {
                    r == GridStep::Failed(EngineError::Overflow)
                } else {
                    match self.reverse {
                        GridSide::Buy => plans_order(
                            r,
                            flipped_row(self),
                            OrderSide::Buy,
                            self.grid.buy_price,
                            self.amount,
                            None,
                            false,
                        ),
                        GridSide::Sell => plans_order(
                            r,
                            flipped_row(self),
                            OrderSide::Sell,
                            self.grid.sell_price,
                            self.amount,
                            None,
                            false,
                        ),
                    }
                },
            },
    {
        match reply {
            Err(reason) => {
                return GridStep::Failed(EngineError::Database(reason));
            },
            Ok(false) => {
                return GridStep::Done(None);
            },
            Ok(true) => {},
        }
        if self.version == i64::MAX {
            return GridStep::Failed(EngineError::Overflow);
        }
        let (side, price) = match self.reverse {
            GridSide::Buy => (OrderSide::Buy, self.grid.buy_price),
            GridSide::Sell => (OrderSide::Sell, self.grid.sell_price),
        };
        let mut grid = self.grid;
        grid.side = self.reverse.as_str().to_owned();
        grid.status = "new".to_owned();
        grid.version = self.version + 1;
        grid.order_id = None;
        grid.amount = self.amount;
        place_and_open(grid, side, price, self.amount, None, false)
    }
}

/// Whether an order stands.
pub open spec fn stands(open_orders: Seq<OpenOrder>, order_id: i64) -> bool {
    exists|i: int| 0 <= i < open_orders.len() && (#[trigger] open_orders[i]).order_id == order_id
}

/// Whether an order stands.
fn is_open(open_orders: &Vec<OpenOrder>, order_id: i64) -> (r: bool)
    ensures
        r == stands(open_orders@, order_id),
{
    let mut i: usize = 0;
    while i < open_orders.len()
        invariant
            i <= open_orders.len(),
            forall|j: int| 0 <= j < i ==> (#[trigger] open_orders@[j]).order_id != order_id,
        decreases open_orders.len() - i,
    {
        if open_orders[i].order_id == order_id {
            assert(open_orders@[i as int].order_id == order_id);
            return true;
        }
        i = i + 1;
    }
    false
}

/// What comes of an open grid. One without an order is made new; one whose order stands
/// is left alone; the order of any other is looked up.
pub open spec fn checked_order(row: GridRow, open_orders: Seq<OpenOrder>, r: GridStep) -> bool {
    match row.order_id {
        None => r == GridStep::ResetToNew(Reset { grid_id: row.id, version: row.version }),
        Some(text) => match parsed_i64(text) {
            None => r matches GridStep::Failed(EngineError::BadOrderId { grid_id, order_id })
                && grid_id == row.id && order_id@ == text,
            Some(order_id) => if stands(open_orders, order_id as i64) {
                r == GridStep::Done(None)
            } else {
                r matches GridStep::QueryOrder(query) && query.grid@ == row && query.order_id
                    == order_id && query.order_text@ == text
            },
        },
    }
}

/// Looks at the order of an open grid.
pub fn check_and_close_if_filled(grid: UserGrid, open_orders: &Vec<OpenOrder>) -> (r: GridStep)
    ensures
        checked_order(grid@, open_orders@, r),
{
    let (order_id, order_text) = match &grid.order_id {
        None => {
            return GridStep::ResetToNew(Reset { grid_id: grid.id, version: grid.version });
        },
        Some(text) => match parse_i64(text.as_str()) {
            Some(order_id) => (order_id, text.clone()),
            None => {
                return GridStep::Failed(
                    EngineError::BadOrderId { grid_id: grid.id, order_id: text.clone() },
                );
            },
        },
    };
    if is_open(open_orders, order_id) {
        return GridStep::Done(None);
    }
    GridStep::QueryOrder(Query { grid, order_id, order_text })
}

/// How the turn of a grid begins, by its status and its side.
pub open spec fn turn_begins(
    row: GridRow,
    open_orders: Seq<OpenOrder>,
    budget: Option<Decimal>,
    r: GridStep,
) -> bool {
    match (status_of(row.status), side_of(row.side)) {
        (None, _) => r matches GridStep::Failed(EngineError::Unknown(reason)) && reason@
            == unknown_status(row.status),
        (Some(_), None) => r matches GridStep::Failed(EngineError::Unknown(reason)) && reason@
            == unknown_side(row.side),
        (Some(GridStatus::New), Some(GridSide::Buy)) => plans_order(
            r,
            row,
            OrderSide::Buy,
            row.buy_price,
            row.amount,
            budget,
            true,
        ),
        (Some(GridStatus::New), Some(GridSide::Sell)) => plans_order(
            r,
            row,
            OrderSide::Sell,
            row.sell_price,
            row.amount,
            None,
            false,
        ),
        (Some(GridStatus::Open), Some(_)) => checked_order(row, open_orders, r),
        (Some(GridStatus::Closed), Some(_)) => plans_flip(r, row, row.version),
        (Some(GridStatus::Deleted), Some(_)) => r == GridStep::Done(None),
    }
}

/// Begins the turn of a grid. `quote_budget` is what is left of the quote asset for the
/// buys of this round, if it is known.
pub fn process_single_grid(
    grid: UserGrid,
    open_orders: &Vec<OpenOrder>,
    quote_budget: Option<Decimal>,
) -> (r: GridStep)
    ensures
        turn_begins(grid@, open_orders@, quote_budget, r),
{
    let status = match GridStatus::try_from(grid.status.as_str()) {
        Ok(status) => status,
        Err(reason) => {
            return GridStep::Failed(EngineError::Unknown(reason));
        },
    };
    let side = match GridSide::try_from(grid.side.as_str()) {
        Ok(side) => side,
        Err(reason) => {
            return GridStep::Failed(EngineError::Unknown(reason));
        },
    };
    match status {
        GridStatus::New => match side {
            GridSide::Buy => {
                let price = grid.buy_price;
                let amount = grid.amount;
                place_and_open(grid, OrderSide::Buy, price, amount, quote_budget, true)
            },
            GridSide::Sell => {
                let price = grid.sell_price;
                let amount = grid.amount;
                place_and_open(grid, OrderSide::Sell, price, amount, None, false)
            },
        },
        GridStatus::Open => check_and_close_if_filled(grid, open_orders),
        GridStatus::Closed => {
            let version = grid.version;
            flip_and_place_reverse(grid, version)
        },
        GridStatus::Deleted => GridStep::Done(None),
    }
}

/// A sale that is closed settles what the exchange says was sold, whatever was paid for it,
/// and its trade is for just that: so a sale that was filled for no more than was offered
/// never settles more than that. Where the exchange does not say, it settles what was offered.
pub proof fn law_closed_sales_settle_what_was_sold(query: Query, order: OpenOrder, filled: Filled)
    requires
        call_ensures(
            Query::resume,
            (query, Ok::<OpenOrder, BinanceError>(order)),
            GridStep::Close(filled),
        ),
        query.grid.side@ == "sell"@,
    ensures
        order.executed_qty@ > 0 ==> filled.grid.amount == order.executed_qty,
        order.executed_qty@ <= 0 ==> filled.grid.amount == query.grid.amount,
        0 < order.executed_qty@ <= query.grid.amount@ ==> filled.grid.amount@
            <= query.grid.amount@,
        filled.trade matches Some(trade) && {
            &&& trade.amount == filled.grid.amount
            &&& trade.buy_price == query.grid.buy_price
            &&& trade.sell_price == query.grid.sell_price
            &&& trade.user_id == query.grid.user_id
            &&& trade.symbol@ == query.grid.symbol@
            &&& trade.order_id@ == query.order_text@
            &&& trade.source@ == "user_grid"@
            &&& trade.source_id == query.grid.id
        },
{
    law_side_reads_back(GridSide::Sell);
    if order.executed_qty@ > 0 {
        lemma_same_form(filled.grid.amount, order.executed_qty);
    } else {
        lemma_same_form(filled.grid.amount, query.grid.amount);
    }
}

/// A buy that is closed settles what was paid; where the exchange does not say, what it was to
/// spend if it was filled, else the price of what was bought. It is no trade: nothing is earned
/// before what was bought is sold.
pub proof fn law_closed_buys_settle_what_was_paid(query: Query, order: OpenOrder, filled: Filled)
    requires
        call_ensures(
            Query::resume,
            (query, Ok::<OpenOrder, BinanceError>(order)),
            GridStep::Close(filled),
        ),
        query.grid.side@ == "buy"@,
    ensures
        filled.trade is None,
        order.cummulative_quote_qty@ > 0 ==> filled.grid.amount == order.cummulative_quote_qty,
        order.cummulative_quote_qty@ <= 0 && order.status@ == "FILLED"@ ==> filled.grid.amount
            == query.grid.amount,
        forall|paid: int|
            order.cummulative_quote_qty@ <= 0 && order.status@ != "FILLED"@ && representable(paid)
                && #[trigger] (paid * one()) == order.executed_qty@ * query.grid.buy_price@
                ==> filled.grid.amount@ == paid,
{
    law_side_reads_back(GridSide::Buy);
    lemma_order_status_names();
    if order.cummulative_quote_qty@ > 0 {
        lemma_same_form(filled.grid.amount, order.cummulative_quote_qty);
    } else if order.status@ == "FILLED"@ {
        lemma_same_form(filled.grid.amount, query.grid.amount);
    } else {
        assert forall|paid: int|
            representable(paid) && #[trigger] (paid * one()) == order.executed_qty@
                * query.grid.buy_price@ implies filled.grid.amount@ == paid by {
            law_product_exact(order.executed_qty@, query.grid.buy_price@, paid);
        }
    }
}

/// Closing a grid changes nothing of it but the amount.
pub proof fn law_closed_grids_keep_the_rest(query: Query, order: OpenOrder, filled: Filled)
    requires
        call_ensures(
            Query::resume,
            (query, Ok::<OpenOrder, BinanceError>(order)),
            GridStep::Close(filled),
        ),
    ensures
        filled.grid.id == query.grid.id,
        filled.grid.user_id == query.grid.user_id,
        filled.grid.version == query.grid.version,
        filled.grid.buy_price == query.grid.buy_price,
        filled.grid.sell_price == query.grid.sell_price,
        filled.grid.side@ == query.grid.side@,
        filled.grid.symbol@ == query.grid.symbol@,
        filled.grid.status@ == query.grid.status@,
        filled.grid.source@ == query.grid.source@,
        filled.grid.is_paused == query.grid.is_paused,
        filled.grid@.order_id == query.grid@.order_id,
{
    assert(filled.grid@.id == query.grid@.id);
    assert(filled.grid@.side == query.grid@.side);
}

/// What becomes of an order that was looked up, by its status: it is waited for while it is at
/// work; it is given up, and the grid made new again, if it ended without a fill; in all other
/// cases the grid is closed, as long as its side has a meaning and no number is too large.
pub proof fn law_orders_end_by_their_status(query: Query, order: OpenOrder, r: GridStep)
    requires
        call_ensures(Query::resume, (query, Ok::<OpenOrder, BinanceError>(order)), r),
    ensures
        ({
            let status = order.status@;
            let at_work = status == "NEW"@ || status == "PARTIALLY_FILLED"@ || status
                == "PENDING_CANCEL"@;
            let given_up = status == "CANCELED"@ || status == "REJECTED"@ || status == "EXPIRED"@
                || status == "EXPIRED_IN_MATCH"@;
            let side_known = query.grid.side@ == "buy"@ || query.grid.side@ == "sell"@;
            &&& r == GridStep::Done(None) <==> at_work
            &&& r is ResetToNew <==> given_up && order.executed_qty@ <= 0
            &&& r matches GridStep::ResetToNew(reset) ==> reset.grid_id == query.grid.id
                && reset.version == query.grid.version
            &&& r is Close ==> status == "FILLED"@ || (given_up && order.executed_qty@ > 0)
            &&& (status == "FILLED"@ || (given_up && order.executed_qty@ > 0)) && side_known ==> (
            r is Close || r == GridStep::Failed(EngineError::Overflow))
            &&& status == "FILLED"@ && side_known ==> r is Close
            &&& given_up && order.executed_qty@ > 0 && query.grid.side@ == "sell"@ ==> r is Close
        }),
{
    lemma_order_status_names();
    law_side_reads_back(GridSide::Buy);
    law_side_reads_back(GridSide::Sell);
    reveal_strlit("buy");
    reveal_strlit("sell");
    assert("buy"@.len() == 3 && "sell"@.len() == 4);
}

/// A grid that was closed is turned round under the version that closing it left: a buy into a
/// sale and a sale into a buy. One that somebody else has changed is left alone.
pub proof fn law_closed_grids_are_turned_round(filled: Filled, reply: bool, r: GridStep)
    requires
        call_ensures(Filled::resume, (filled, Ok::<bool, String>(reply)), r),
    ensures
        !reply ==> r == GridStep::Done(None),
        reply && filled.grid.version < i64::MAX && filled.grid.side@ == "buy"@ ==> (
        r matches GridStep::FlipRules(plan) && plan.reverse == GridSide::Sell && plan.version
            == filled.grid.version + 1 && plan.grid@ == filled.grid@),
        reply && filled.grid.version < i64::MAX && filled.grid.side@ == "sell"@ ==> (
        r matches GridStep::FlipRules(plan) && plan.reverse == GridSide::Buy && plan.version
            == filled.grid.version + 1 && plan.grid@ == filled.grid@),
{
    law_side_reads_back(GridSide::Buy);
    law_side_reads_back(GridSide::Sell);
}

/// After a sale the next buy is to spend what the sale brought: the quantity times the price at
/// which it was sold. `brought` is that product, where it is a number.
pub proof fn law_after_a_sale_what_it_brought_is_spent(
    plan: FlipPlan,
    rules: SymbolFilters,
    r: GridStep,
    brought: int,
)
    requires
        call_ensures(FlipPlan::resume, (plan, Ok::<SymbolFilters, EngineError>(rules)), r),
        plan.reverse == GridSide::Buy,
        representable(brought),
        brought * one() == plan.grid.amount@ * plan.grid.sell_price@,
    ensures
        r matches GridStep::Flip(next) && next.amount@ == brought && next.grid == plan.grid
            && next.version == plan.version && next.reverse == GridSide::Buy,
{
    law_product_exact(plan.grid.amount@, plan.grid.sell_price@, brought);
}

/// After a buy the next sale is of what was bought: the amount divided by the price at which
/// it was bought, brought down to a multiple of the step by less than a step. `bought` is that
/// quotient, where it is a number, and it and the step have few enough digits.
pub proof fn law_after_a_buy_what_was_bought_is_sold(
    plan: FlipPlan,
    rules: SymbolFilters,
    r: GridStep,
    bought: int,
    v: int,
    s: int,
    k: nat,
)
    requires
        call_ensures(FlipPlan::resume, (plan, Ok::<SymbolFilters, EngineError>(rules)), r),
        plan.reverse == GridSide::Sell,
        plan.grid.buy_price@ > 0,
        representable(bought),
        bought * plan.grid.buy_price@ == plan.grid.amount@ * one(),
        rules.step_size@ <= 0 || (short(v, s) && k <= 28 && bought == v * pow10(k)
            && rules.step_size@ == s * pow10(k)),
    ensures
        r matches GridStep::Flip(next) && next.grid == plan.grid && next.version == plan.version
            && next.reverse == GridSide::Sell && if rules.step_size@ <= 0 {
            next.amount@ == bought
        } else {
            next.amount@ <= bought < next.amount@ + rules.step_size@ && next.amount@
                % rules.step_size@ == 0
        },
{
    let odd = tie(plan.grid.amount.form(), plan.grid.buy_price.form());
    law_quotient_exact(plan.grid.amount@, plan.grid.buy_price@, bought, odd);
    if rules.step_size@ > 0 {
        let odd = tie(bought_form(plan), rules.step_size.form());
        lemma_down_to_step(bought, rules.step_size@, v, s, k, odd);
    }
}

/// Bringing down to a multiple of a step, in few enough digits.
proof fn lemma_down_to_step(value: int, step: int, v: int, s: int, k: nat, odd: bool)
    requires
        short(v, s),
        k <= 28,
        value == v * pow10(k),
        step == s * pow10(k),
    ensures
        step > 0,
        rounded_down(value, step, odd) matches Some(d) && d <= value < d + step && d % step == 0,
{
    let p = pow10(k);
    let n = v / s;
    lemma_pow10_positive(k);
    law_short_numbers_are_rounded_down(v, s, k, odd);
    assert((n * s) * p <= v * p && v * p < (n * s) * p + s * p && (n * s) * p == n * (s * p)) by (
    nonlinear_arith)
        requires
            n * s <= v < n * s + s,
            p > 0,
    ;
    assert(s * p > 0) by (nonlinear_arith)
        requires
            s > 0,
            p > 0,
    ;
    vstd::arithmetic::div_mod::lemma_mod_multiples_basic(n, s * p);
}

/// The order of the other leg is for the whole amount that was worked out, at the price of that
/// leg, and for the grid as it was turned round: new, without an order, and one version on.
pub proof fn law_the_other_leg_trades_at_its_price(flip: Flipping, r: GridStep)
    requires
        call_ensures(Flipping::resume, (flip, Ok::<bool, String>(true)), r),
        flip.version < i64::MAX,
    ensures
        r matches GridStep::PlaceRules(plan) && {
            &&& plan.amount == flip.amount
            &&& plan.effective@ == flip.amount@
            &&& !plan.budgeted
            &&& plan.side == (if flip.reverse == GridSide::Buy {
                OrderSide::Buy
            } else {
                OrderSide::Sell
            })
            &&& plan.price == (if flip.reverse == GridSide::Buy {
                flip.grid.buy_price
            } else {
                flip.grid.sell_price
            })
            &&& plan.grid.side@ == (if flip.reverse == GridSide::Buy {
                "buy"@
            } else {
                "sell"@
            })
            &&& plan.grid.id == flip.grid.id
            &&& plan.grid.user_id == flip.grid.user_id
            &&& plan.grid.symbol@ == flip.grid.symbol@
            &&& plan.grid.buy_price == flip.grid.buy_price
            &&& plan.grid.sell_price == flip.grid.sell_price
            &&& plan.grid.status@ == "new"@
            &&& plan.grid.order_id is None
            &&& plan.grid.amount == flip.amount
            &&& plan.grid.version == flip.version + 1
        },
{
    if let GridStep::PlaceRules(plan) = r {
        assert(plan.grid@ == flipped_row(flip));
        assert(plan.grid@.id == flip.grid@.id);
        assert(plan.grid@.order_id == None::<Seq<char>>);
    }
}

/// Whether the turn of a new grid begins with the order of its leg: a buy at the lower price, of
/// no more than what is left of the budget if that is known, a sale at the higher price and of
/// the whole amount.
pub open spec fn begins_with_its_leg(grid: UserGrid, budget: Option<Decimal>, r: GridStep) -> bool {
    &&& grid.status@ == "new"@ && grid.side@ == "buy"@ ==> (r matches GridStep::PlaceRules(plan)
        && plan.side == OrderSide::Buy && plan.price == grid.buy_price && plan.amount == grid.amount
        && plan.budgeted && plan.grid@ == grid@ && match budget {
        None => plan.effective@ == grid.amount@,
        Some(b) => if b@ >= grid.amount@ {
            plan.effective@ == grid.amount@
        } else {
            b@ >= 0 && representable(b@) ==> plan.effective@ <= b@
        },
    })
    &&& grid.status@ == "new"@ && grid.side@ == "sell"@ ==> (r matches GridStep::PlaceRules(plan)
        && plan.side == OrderSide::Sell && plan.price == grid.sell_price && plan.effective@
        == grid.amount@ && !plan.budgeted && plan.grid@ == grid@)
    &&& grid.status@ == "closed"@ && grid.side@ == "buy"@ ==> (r matches GridStep::FlipRules(plan)
        && plan.reverse == GridSide::Sell && plan.version == grid.version && plan.grid@ == grid@)
    &&& grid.status@ == "closed"@ && grid.side@ == "sell"@ ==> (r matches GridStep::FlipRules(plan)
        && plan.reverse == GridSide::Buy && plan.version == grid.version && plan.grid@ == grid@)
}

/// The turn of a grid begins with the order of its leg.
pub proof fn lemma_begins_with_its_leg(
    grid: UserGrid,
    open_orders: Seq<OpenOrder>,
    budget: Option<Decimal>,
    r: GridStep,
)
    requires
        turn_begins(grid@, open_orders, budget, r),
    ensures
        begins_with_its_leg(grid, budget, r),
{
    lemma_status_names();
    law_side_reads_back(GridSide::Buy);
    law_side_reads_back(GridSide::Sell);
    if let Some(b) = budget {
        if b@ >= 0 && representable(b@) {
            lemma_buy_amount_within(grid.amount@, b);
        }
    }
}

/// How the turn of a grid begins: a new grid places the order of its leg at the price of that
/// leg, only a buy from the shared budget; a grid that was filled is turned round; a deleted
/// grid is left alone.
pub proof fn law_turns_begin_by_status_and_side(
    grid: UserGrid,
    open_orders: &Vec<OpenOrder>,
    budget: Option<Decimal>,
    r: GridStep,
)
    requires
        call_ensures(process_single_grid, (grid, open_orders, budget), r),
        grid.side@ == "buy"@ || grid.side@ == "sell"@,
    ensures
        begins_with_its_leg(grid, budget, r),
        grid.status@ == "deleted"@ ==> r == GridStep::Done(None),
        grid.status@ == "open"@ ==> r is ResetToNew || r is QueryOrder || r == GridStep::Done(None)
            || r is Failed,
{
    lemma_status_names();
    law_side_reads_back(GridSide::Buy);
    law_side_reads_back(GridSide::Sell);
    lemma_begins_with_its_leg(grid, open_orders@, budget, r);
}

/// An open grid whose order still stands is left alone, one without an order is made new again,
/// and for any other just its own order is looked up.
pub proof fn law_only_orders_that_do_not_stand_are_looked_up(
    grid: UserGrid,
    open_orders: &Vec<OpenOrder>,
    r: GridStep,
    order_id: i64,
)
    requires
        call_ensures(check_and_close_if_filled, (grid, open_orders), r),
    ensures
        grid.order_id is None ==> r == GridStep::ResetToNew(
            Reset { grid_id: grid.id, version: grid.version },
        ),
        grid.order_id matches Some(text) ==> text@ == int_text(order_id as int) ==> if exists|i:
            int| 0 <= i < open_orders.len() && (#[trigger] open_orders@[i]).order_id == order_id {
            r == GridStep::Done(None)
        } else {
            r matches GridStep::QueryOrder(query) && query.grid@ == grid@ && query.order_id
                == order_id && query.order_text@ == text@
        },
{
    law_int_text_reads_back(order_id);
}

/// The amount that a buy uses: all that it wants if the budget is not known or suffices; else
/// a whole number, 99.95 percent of the budget without the fraction. `kept` is 99.95 percent of
/// the budget, where that is a number.
pub proof fn law_buys_keep_something_back(
    requested: Decimal,
    free: Option<Decimal>,
    r: Decimal,
    kept: int,
)
    requires
        call_ensures(effective_buy_amount, (requested, free), r),
    ensures
        free is None ==> r == requested,
        free matches Some(budget) ==> (budget@ >= requested@ ==> r == requested),
        free matches Some(budget) ==> (budget@ < requested@ && representable(kept) && kept * 10000
            == budget@ * 9995 ==> r@ <= kept < r@ + one() && r@ % one() == 0),
{
    if let Some(budget) = free {
        if budget@ < requested@ && representable(kept) && kept * 10000 == budget@ * 9995 {
            let e = one();
            let t = pow10(24);
            let b = budget@;
            lemma_pow10_positive(28);
            lemma_pow10_sum(24, 4);
            assert(pow10(4) == 10000) by {
                reveal_with_fuel(pow10, 5);
            }
            assert(b * (9995 * t) == kept * e) by (nonlinear_arith)
                requires
                    kept * 10000 == b * 9995,
                    e == t * 10000,
            ;
            law_product_exact(b, 9995 * t, kept);
            let n = kept / e;
            assert(n * e <= kept < n * e + e) by (nonlinear_arith)
                requires
                    e > 0,
                    n == kept / e,
            ;
            vstd::arithmetic::div_mod::lemma_mod_multiples_basic(n, e);
        }
    }
}

/// What an order that is placed owes to its plan: it is on the side, for the grid and under the
/// key that were planned, and its price is the largest multiple of the tick that is not above
/// the planned one, as long as the two have few enough digits.
pub proof fn law_orders_are_placed_as_planned(
    plan: PlacePlan,
    rules: SymbolFilters,
    order: Order,
    v: int,
    s: int,
    k: nat,
)
    requires
        call_ensures(
            PlacePlan::resume,
            (plan, Ok::<SymbolFilters, EngineError>(rules)),
            GridStep::Submit(order),
        ),
    ensures
        order.side == plan.side,
        order.grid == plan.grid,
        order.budgeted == plan.budgeted,
        order.client_order_id@ == "g"@ + int_text(plan.grid.id as int) + "v"@ + int_text(
            plan.grid.version as int,
        ),
        rules.tick_size@ <= 0 ==> order.price@ == plan.price@,
        short(v, s) && k <= 28 && plan.price@ == v * pow10(k) && rules.tick_size@ == s * pow10(k)
            ==> order.price@ <= plan.price@ < order.price@ + rules.tick_size@,
{
    if short(v, s) && k <= 28 && plan.price@ == v * pow10(k) && rules.tick_size@ == s * pow10(k) {
        lemma_down_to_step(
            plan.price@,
            rules.tick_size@,
            v,
            s,
            k,
            order_ties(plan, rules).tick,
        );
    }
}

/// A sale is of all that was planned but for less than a step, as long as the two have few
/// enough digits.
pub proof fn law_sales_are_of_the_whole_amount(
    plan: PlacePlan,
    rules: SymbolFilters,
    order: Order,
    v: int,
    s: int,
    k: nat,
)
    requires
        call_ensures(
            PlacePlan::resume,
            (plan, Ok::<SymbolFilters, EngineError>(rules)),
            GridStep::Submit(order),
        ),
        plan.side == OrderSide::Sell,
    ensures
        rules.step_size@ <= 0 ==> order.quantity@ == plan.effective@,
        short(v, s) && k <= 28 && plan.effective@ == v * pow10(k) && rules.step_size@ == s * pow10(
            k,
        ) ==> order.quantity@ <= plan.effective@ < order.quantity@ + rules.step_size@,
{
    if short(v, s) && k <= 28 && plan.effective@ == v * pow10(k) && rules.step_size@ == s * pow10(
        k,
    ) {
        lemma_down_to_step(
            plan.effective@,
            rules.step_size@,
            v,
            s,
            k,
            order_ties(plan, rules).step,
        );
    }
}

/// A buy is of as much as its amount buys: it costs no more, and one step more would cost more.
/// `bought` is the amount divided by the price, where that is a number, and it and the step have
/// few enough digits.
pub proof fn law_buys_use_their_amount_up(
    plan: PlacePlan,
    rules: SymbolFilters,
    order: Order,
    bought: int,
    v: int,
    s: int,
    k: nat,
)
    requires
        call_ensures(
            PlacePlan::resume,
            (plan, Ok::<SymbolFilters, EngineError>(rules)),
            GridStep::Submit(order),
        ),
        plan.side == OrderSide::Buy,
        representable(bought),
        bought * order.price@ == plan.effective@ * one(),
        rules.step_size@ <= 0 || (short(v, s) && k <= 28 && bought == v * pow10(k)
            && rules.step_size@ == s * pow10(k)),
    ensures
        rules.step_size@ <= 0 ==> order.quantity@ * order.price@ == plan.effective@ * one(),
        rules.step_size@ > 0 ==> order.quantity@ * order.price@ <= plan.effective@ * one() < (
        order.quantity@ + rules.step_size@) * order.price@,
{
    law_placed_orders_comply(plan, rules, order);
    let price = order.price@;
    law_quotient_exact(plan.effective@, price, bought, order_ties(plan, rules).price);
    if rules.step_size@ > 0 {
        let step = rules.step_size@;
        let quantity = order.quantity@;
        lemma_down_to_step(bought, step, v, s, k, order_ties(plan, rules).step);
        assert(quantity * price <= bought * price && bought * price < (quantity + step) * price)
            by (nonlinear_arith)
            requires
                quantity <= bought < quantity + step,
                price > 0,
        ;
    }
}

/// An order that meets every rule of the exchange as it is planned is placed just so: where the
/// price is a multiple of the tick, the quantity one of the step and at least the smallest, and
/// the value suffices. `quantity` is what the plan trades, `value` its value.
pub proof fn law_plans_that_comply_are_placed_unchanged(
    plan: PlacePlan,
    rules: SymbolFilters,
    r: GridStep,
    ticks: int,
    steps: int,
    quantity: int,
    value: int,
)
    requires
        call_ensures(PlacePlan::resume, (plan, Ok::<SymbolFilters, EngineError>(rules)), r),
        plan.price@ > 0,
        quantity > 0,
        representable(quantity),
        plan.side == OrderSide::Sell ==> plan.effective@ == quantity,
        plan.side == OrderSide::Buy ==> plan.effective@ * one() == quantity * plan.price@,
        representable(plan.price@),
        rules.tick_size@ > 0 ==> plan.price@ == ticks * rules.tick_size@ && representable(
            ticks * one(),
        ),
        rules.step_size@ > 0 ==> quantity == steps * rules.step_size@ && representable(
            steps * one(),
        ),
        quantity >= rules.min_qty@,
        representable(value),
        value * one() == quantity * plan.price@,
        value >= rules.min_notional@,
    ensures
        r matches GridStep::Submit(order) && order.price@ == plan.price@ && order.quantity@
            == quantity,
{
    let ties = order_ties(plan, rules);
    if rules.tick_size@ > 0 {
        law_rounded_down_keeps_multiples(ticks, rules.tick_size@, ties.tick);
        vstd::arithmetic::div_mod::lemma_mod_multiples_basic(ticks, rules.tick_size@);
    }
    if plan.side == OrderSide::Buy {
        law_quotient_exact(plan.effective@, plan.price@, quantity, ties.price);
    }
    if rules.step_size@ > 0 {
        law_rounded_down_keeps_multiples(steps, rules.step_size@, ties.step);
        vstd::arithmetic::div_mod::lemma_mod_multiples_basic(steps, rules.step_size@);
    }
    law_product_exact(quantity, plan.price@, value);
}

/// What is spent of the budget when an order was recorded: the cost of a buy that is paid from
/// it, and nothing of any other. An order that was not recorded is cancelled by its own number.
pub proof fn law_recorded_buys_spend_their_cost(
    placed: Placed,
    reply: Result<bool, String>,
    r: GridStep,
    cost: int,
)
    requires
        call_ensures(Placed::resume, (placed, reply), r),
        representable(cost),
        cost * one() == placed.order.quantity@ * placed.order.price@,
    ensures
        reply == Ok::<bool, String>(true) ==> (r matches GridStep::Done(spent) && if
            placed.order.side == OrderSide::Buy && placed.order.budgeted {
            spent matches Some(d) && d@ == cost
        } else {
            spent is None
        }),
        reply != Ok::<bool, String>(true) ==> (r matches GridStep::CancelUntracked(u) && u.order_id
            == placed.order_id && u.symbol@ == placed.order.grid.symbol@ && u.grid_id
            == placed.order.grid.id),
{
    law_product_exact(placed.order.quantity@, placed.order.price@, cost);
}

/// An order that may have been taken although placing it failed is recorded under the number
/// that the exchange has for its key; where the exchange knows of no such order, placing it has
/// failed for the reason that was given.
pub proof fn law_lost_replies_do_not_lose_orders(
    recovery: Recovery,
    reply: Result<OpenOrder, BinanceError>,
    r: GridStep,
)
    requires
        call_ensures(Recovery::resume, (recovery, reply), r),
    ensures
        reply matches Ok(existing) ==> (r matches GridStep::RecordOpen(placed) && placed.order_id
            == existing.order_id && placed.order == recovery.order),
        (reply matches Err(BinanceError::Api { code, .. }) && code == -2013) ==> r
            == GridStep::Failed(EngineError::Exchange(recovery.error)),
        reply is Err ==> r is Failed,
{
}

/// What is asked of the exchange is the order: its symbol, side, quantity, price and key. When it
/// is taken it is recorded under its number, and when that fails it is looked up.
pub proof fn law_orders_are_asked_for_as_worked_out(
    order: &Order,
    request: PlaceOrderRequest,
    taken: Order,
    reply: Result<OrderResponse, BinanceError>,
    r: GridStep,
)
    requires
        call_ensures(Order::request, (order,), request),
        call_ensures(Order::resume, (taken, reply), r),
    ensures
        request.symbol@ == order.grid.symbol@,
        request.side == order.side,
        request.quantity == order.quantity,
        request.price == order.price,
        request.client_order_id matches Some(key) && key@ == order.client_order_id@,
        reply matches Ok(response) ==> (r matches GridStep::RecordOpen(placed) && placed.order_id
            == response.order_id && placed.order == taken),
        reply matches Err(e) ==> (r matches GridStep::Recover(next) && next.order == taken
            && next.error == e),
{
}

/// The order of a grid is planned at the price and for the amount that were given; only a buy
/// uses less where the budget does not suffice.
pub proof fn law_orders_are_planned_as_given(
    grid: UserGrid,
    side: OrderSide,
    price: Decimal,
    amount: Decimal,
    free: Option<Decimal>,
    budgeted: bool,
    r: GridStep,
)
    requires
        call_ensures(place_and_open, (grid, side, price, amount, free, budgeted), r),
    ensures
        r matches GridStep::PlaceRules(plan) && plan.grid@ == grid@ && plan.side == side
            && plan.price == price && plan.amount == amount && plan.budgeted == budgeted && (side
            == OrderSide::Sell || free is None || free->0@ >= amount@ ==> plan.effective@
            == amount@) && (side == OrderSide::Buy && free is Some && 0 <= free->0@ < amount@
            && representable(free->0@) ==> plan.effective@ <= free->0@),
{
    if let Some(budget) = free {
        if budget@ >= 0 && representable(budget@) {
            lemma_buy_amount_within(amount@, budget);
        }
    }
}

/// As much as an amount buys, brought down to a multiple of the step.
proof fn lemma_bought(a: int, p: int, s: int, k: nat, j: nat, i: nat, first: bool, second: bool)
    requires
        short_purchase(a, p, s, k, j, i),
    ensures
        ({
            let (amount, price, step) = (a * pow10(k), p * pow10(k), s * pow10(k));
            let raw = quotient_of(amount, price, first);
            &&& price > 0
            &&& step > 0
            &&& raw is Some
            &&& rounded_down(raw->0, step, second) matches Some(quantity) && quantity * price
                <= amount * one() < (quantity + step) * price && quantity % step == 0
        }),
{
    let unit = pow10(k);
    let e = one();
    let (price, step) = (p * unit, s * unit);
    lemma_pow10_positive(k);
    lemma_short_purchase(a, p, s, k, j, i, first, second);
    assert(price > 0 && step > 0) by (nonlinear_arith)
        requires
            p > 0,
            s > 0,
            unit > 0,
            price == p * unit,
            step == s * unit,
    ;
    let raw = quotient_of(a * unit, price, first)->0;
    let count = quotient_of(raw, step, second)->0 / e;
    assert((count * e) * step == (count * step) * e) by (nonlinear_arith);
    law_product_exact(count * e, step, count * step);
    assert((count + 1) * step == count * step + step) by (nonlinear_arith);
    vstd::arithmetic::div_mod::lemma_mod_multiples_basic(count, step);
}

/// A buy is of all that its amount buys: it costs no more than the amount, and one step more
/// would cost more. The amount, the price and the step have few enough digits; whether they
/// divide without a rest makes no difference.
pub proof fn law_buys_are_of_all_that_the_amount_buys(
    plan: PlacePlan,
    rules: SymbolFilters,
    order: Order,
    a: int,
    p: int,
    s: int,
    k: nat,
    j: nat,
    i: nat,
)
    requires
        call_ensures(
            PlacePlan::resume,
            (plan, Ok::<SymbolFilters, EngineError>(rules)),
            GridStep::Submit(order),
        ),
        plan.side == OrderSide::Buy,
        short_purchase(a, p, s, k, j, i),
        plan.effective@ == a * pow10(k),
        order.price@ == p * pow10(k),
        rules.step_size@ == s * pow10(k),
    ensures
        order.quantity@ * order.price@ <= plan.effective@ * one() < (order.quantity@
            + rules.step_size@) * order.price@,
        order.quantity@ % rules.step_size@ == 0,
{
    let ties = order_ties(plan, rules);
    lemma_bought(a, p, s, k, j, i, ties.price, ties.step);
}

/// After a buy the next sale is of all that the amount bought at the price of the grid: so much
/// cost no more than the amount, and one step more would have cost more. The amount, the price
/// and the step have few enough digits; whether they divide without a rest makes no difference.
pub proof fn law_all_that_was_bought_is_sold(
    plan: FlipPlan,
    rules: SymbolFilters,
    r: GridStep,
    a: int,
    p: int,
    s: int,
    k: nat,
    j: nat,
    i: nat,
)
    requires
        call_ensures(FlipPlan::resume, (plan, Ok::<SymbolFilters, EngineError>(rules)), r),
        plan.reverse == GridSide::Sell,
        short_purchase(a, p, s, k, j, i),
        plan.grid.amount@ == a * pow10(k),
        plan.grid.buy_price@ == p * pow10(k),
        rules.step_size@ == s * pow10(k),
    ensures
        r matches GridStep::Flip(next) && next.grid == plan.grid && next.version == plan.version
            && next.reverse == GridSide::Sell && next.amount@ * plan.grid.buy_price@
            <= plan.grid.amount@ * one() < (next.amount@ + rules.step_size@)
            * plan.grid.buy_price@ && next.amount@ % rules.step_size@ == 0,
{
    lemma_bought(
        a,
        p,
        s,
        k,
        j,
        i,
        tie(plan.grid.amount.form(), plan.grid.buy_price.form()),
        tie(bought_form(plan), rules.step_size.form()),
    );
}

/// Only one multiple of a step is less than a step below a value, or at it.
proof fn lemma_one_multiple(value: int, step: int, d: int, e: int)
    requires
        step > 0,
        d <= value < d + step,
        e <= value < e + step,
        d % step == 0,
        e % step == 0,
    ensures
        d == e,
{
    let (m, n) = (d / step, e / step);
    vstd::arithmetic::div_mod::lemma_fundamental_div_mod(d, step);
    vstd::arithmetic::div_mod::lemma_fundamental_div_mod(e, step);
    assert(m == n) by (nonlinear_arith)
        requires
            d == step * m,
            e == step * n,
            -step < d - e < step,
            step > 0,
    ;
}

/// Whether this is what a value is brought down to: itself where there is no step, else the
/// multiple of the step that is less than a step below it; the two have few enough digits.
pub open spec fn comes_down_to(value: int, step: int, down: int, v: int, s: int, k: nat) -> bool {
    if step <= 0 {
        down == value
    } else {
        &&& short(v, s)
        &&& k <= 28
        &&& value == v * pow10(k)
        &&& step == s * pow10(k)
        &&& down <= value < down + step
        &&& down % step == 0
    }
}

proof fn lemma_comes_down(value: int, step: int, down: int, v: int, s: int, k: nat, odd: bool)
    requires
        comes_down_to(value, step, down, v, s, k),
    ensures
        rounded_down(value, step, odd) == Some(down),
{
    if step > 0 {
        lemma_down_to_step(value, step, v, s, k, odd);
        lemma_one_multiple(value, step, down, rounded_down(value, step, odd)->0);
    }
}

/// A sale whose price and quantity, once they are brought down, `price` and `quantity`, meet the
/// rules of the exchange is placed, at that price and for that quantity; and one that does not is
/// not placed. `value` is their product.
pub proof fn law_sales_are_placed_if_they_comply(
    plan: PlacePlan,
    rules: SymbolFilters,
    r: GridStep,
    price: int,
    quantity: int,
    value: int,
    v: int,
    s: int,
    k: nat,
    w: int,
    t: int,
    l: nat,
)
    requires
        call_ensures(PlacePlan::resume, (plan, Ok::<SymbolFilters, EngineError>(rules)), r),
        plan.side == OrderSide::Sell,
        comes_down_to(plan.price@, rules.tick_size@, price, v, s, k),
        comes_down_to(plan.effective@, rules.step_size@, quantity, w, t, l),
        representable(value),
        value * one() == quantity * price,
    ensures
        price > 0 && quantity > 0 && quantity >= rules.min_qty@ && value >= rules.min_notional@
            ==> (r matches GridStep::Submit(order) && order.price@ == price && order.quantity@
            == quantity),
        price <= 0 || quantity <= 0 || quantity < rules.min_qty@ || value < rules.min_notional@
            ==> r is Failed,
{
    let ties = order_ties(plan, rules);
    lemma_comes_down(plan.price@, rules.tick_size@, price, v, s, k, ties.tick);
    lemma_comes_down(plan.effective@, rules.step_size@, quantity, w, t, l, ties.step);
    law_product_exact(quantity, price, value);
}

/// A buy whose price, once it is brought down, is `price`, and whose amount buys `quantity` in
/// whole steps is placed if the two meet the rules of the exchange, at that price and for that
/// quantity; and if they do not it is not placed. `value` is their product.
pub proof fn law_buys_are_placed_if_they_comply(
    plan: PlacePlan,
    rules: SymbolFilters,
    r: GridStep,
    price: int,
    quantity: int,
    value: int,
    v: int,
    s: int,
    k: nat,
    a: int,
    p: int,
    t: int,
    l: nat,
    j: nat,
    i: nat,
)
    requires
        call_ensures(PlacePlan::resume, (plan, Ok::<SymbolFilters, EngineError>(rules)), r),
        plan.side == OrderSide::Buy,
        comes_down_to(plan.price@, rules.tick_size@, price, v, s, k),
        short_purchase(a, p, t, l, j, i),
        plan.effective@ == a * pow10(l),
        price == p * pow10(l),
        rules.step_size@ == t * pow10(l),
        quantity * price <= plan.effective@ * one() < (quantity + rules.step_size@) * price,
        quantity % rules.step_size@ == 0,
        representable(value),
        value * one() == quantity * price,
    ensures
        quantity > 0 && quantity >= rules.min_qty@ && value >= rules.min_notional@ ==> (
        r matches GridStep::Submit(order) && order.price@ == price && order.quantity@ == quantity),
        quantity <= 0 || quantity < rules.min_qty@ || value < rules.min_notional@ ==> r is Failed,
{
    let ties = order_ties(plan, rules);
    let step = rules.step_size@;
    lemma_comes_down(plan.price@, rules.tick_size@, price, v, s, k, ties.tick);
    lemma_bought(a, p, t, l, j, i, ties.price, ties.step);
    let raw = quotient_of(plan.effective@, price, ties.price)->0;
    let found = rounded_down(raw, step, ties.step)->0;
    let (m, n) = (found / step, quantity / step);
    vstd::arithmetic::div_mod::lemma_fundamental_div_mod(found, step);
    vstd::arithmetic::div_mod::lemma_fundamental_div_mod(quantity, step);
    let all = plan.effective@ * one();
    assert(found < quantity + step && quantity < found + step) by (nonlinear_arith)
        requires
            found * price <= all < (found + step) * price,
            quantity * price <= all < (quantity + step) * price,
            price > 0,
    ;
    assert(m == n) by (nonlinear_arith)
        requires
            found == step * m,
            quantity == step * n,
            -step < found - quantity < step,
            step > 0,
    ;
    law_product_exact(quantity, price, value);
}

} // verus!
