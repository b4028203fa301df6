//! The values that requests and replies are made of.

use crate::decimal::{
    floor_form, floor_of, form_of, law_product_exact, law_quotient_exact, lemma_common_unit,
    lemma_form, lemma_pow10_positive, lemma_short_quotient, one, over, pow10, product_of,
    quotient_of, representable, short, tie, times, worth, Decimal, MAX_MANTISSA,
};
use crate::text::same_text;
use vstd::prelude::*;

verus! {

/// Which way an order trades.
#[derive(Clone, Copy, Debug, PartialEq, Eq, Structural)]
pub enum OrderSide {
    Buy,
    Sell,
}

/// The name of a side in a request.
pub open spec fn order_side_text(side: OrderSide) -> Seq<char> {
    match side {
        OrderSide::Buy => "BUY"@,
        OrderSide::Sell => "SELL"@,
    }
}

impl OrderSide {
    /// The name of the side in a request.
    pub fn to_text(&self) -> (r: &'static str)
        ensures
            r@ == order_side_text(*self),
    {
        match self {
            OrderSide::Buy => "BUY",
            OrderSide::Sell => "SELL",
        }
    }
}

/// A limit order that is to be placed.
#[derive(Debug)]
pub struct PlaceOrderRequest {
    pub symbol: String,
    pub side: OrderSide,
    pub quantity: Decimal,
    pub price: Decimal,
    /// The exchange refuses a second order under the same key, so that a request may
    /// be repeated when its reply was lost.
    pub client_order_id: Option<String>,
}

impl Clone for PlaceOrderRequest {
    fn clone(&self) -> (r: PlaceOrderRequest)
        ensures
            r == *self,
    {
        let client_order_id = match &self.client_order_id {
            Some(id) => Some(id.clone()),
            None => None,
        };
        PlaceOrderRequest {
            symbol: self.symbol.clone(),
            side: self.side,
            quantity: self.quantity,
            price: self.price,
            client_order_id,
        }
    }
}

/// The reply to an order that was accepted.
#[derive(Clone, Copy, Debug, PartialEq, Eq, Structural)]
pub struct OrderResponse {
    pub order_id: i64,
}

/// An order as the exchange sees it.
#[derive(Debug)]
pub struct OpenOrder {
    pub order_id: i64,
    pub status: String,
    pub executed_qty: Decimal,
    pub cummulative_quote_qty: Decimal,
}

impl Clone for OpenOrder {
    fn clone(&self) -> (r: OpenOrder)
        ensures
            r == *self,
    {
        OpenOrder {
            order_id: self.order_id,
            status: self.status.clone(),
            executed_qty: self.executed_qty,
            cummulative_quote_qty: self.cummulative_quote_qty,
        }
    }
}

/// How far an order has come.
#[derive(Clone, Copy, Debug, PartialEq, Eq, Structural)]
pub enum OrderStatus {
    New,
    PartiallyFilled,
    Filled,
    Canceled,
    PendingCancel,
    Rejected,
    Expired,
    ExpiredInMatch,
}

/// The status that a name in a reply stands for.
pub open spec fn order_status_of(name: Seq<char>) -> Option<OrderStatus> {
    if name == "NEW"@ {
        Some(OrderStatus::New)
    } else if name == "PARTIALLY_FILLED"@ {
        Some(OrderStatus::PartiallyFilled)
    } else if name == "FILLED"@ {
        Some(OrderStatus::Filled)
    } else if name == "CANCELED"@ {
        Some(OrderStatus::Canceled)
    } else if name == "PENDING_CANCEL"@ {
        Some(OrderStatus::PendingCancel)
    } else if name == "REJECTED"@ {
        Some(OrderStatus::Rejected)
    } else if name == "EXPIRED"@ {
        Some(OrderStatus::Expired)
    } else if name == "EXPIRED_IN_MATCH"@ {
        Some(OrderStatus::ExpiredInMatch)
    } else {
        None
    }
}

/// What is said of a status that has no meaning.
pub open spec fn unknown_order_status(name: Seq<char>) -> Seq<char> {
    "未知 Binance 订单状态: "@ + name
}

impl OrderStatus {
    /// The status that a name in a reply stands for.
    pub fn try_from(value: &str) -> (r: Result<OrderStatus, String>)
        ensures
            match r {
                Ok(status) => order_status_of(value@) == Some(status),
                Err(reason) => order_status_of(value@) is None && reason@ == unknown_order_status(
                    value@,
                ),
            },
    {
        if same_text(value, "NEW") {
            Ok(OrderStatus::New)
        } else if same_text(value, "PARTIALLY_FILLED") {
            Ok(OrderStatus::PartiallyFilled)
        } else if same_text(value, "FILLED") {
            Ok(OrderStatus::Filled)
        } else if same_text(value, "CANCELED") {
            Ok(OrderStatus::Canceled)
        } else if same_text(value, "PENDING_CANCEL") {
            Ok(OrderStatus::PendingCancel)
        } else if same_text(value, "REJECTED") {
            Ok(OrderStatus::Rejected)
        } else if same_text(value, "EXPIRED") {
            Ok(OrderStatus::Expired)
        } else if same_text(value, "EXPIRED_IN_MATCH") {
            Ok(OrderStatus::ExpiredInMatch)
        } else {
            let mut reason = "未知 Binance 订单状态: ".to_owned();
            reason.append(value);
            Err(reason)
        }
    }
}

/// What an account holds of one asset.
#[derive(Debug)]
pub struct SpotBalance {
    pub asset: String,
    pub free: Decimal,
    pub locked: Decimal,
}

impl Clone for SpotBalance {
    fn clone(&self) -> (r: SpotBalance)
        ensures
            r == *self,
    {
        SpotBalance { asset: self.asset.clone(), free: self.free, locked: self.locked }
    }
}

/// What an account holds.
#[derive(Debug)]
pub struct AccountInfo {
    pub balances: Vec<SpotBalance>,
}

/// The last price at which a symbol was traded.
#[derive(Clone, Copy, Debug)]
pub struct TickerPriceResponse {
    pub price: Decimal,
}

/// One trading rule of a symbol: its fields, each with its text if it is text.
#[derive(Debug)]
pub struct FilterInfo {
    pub fields: Vec<(String, Option<String>)>,
}

/// The trading rules of a symbol.
#[derive(Debug)]
pub struct SymbolInfo {
    pub symbol: String,
    pub filters: Vec<FilterInfo>,
}

/// The trading rules of the symbols that were asked for.
#[derive(Debug)]
pub struct ExchangeInfo {
    pub symbols: Vec<SymbolInfo>,
}

/// What the exchange demands of an order for one symbol. It refuses orders that do
/// not comply.
#[derive(Clone, Copy, Debug, PartialEq)]
pub struct SymbolFilters {
    /// A quantity is a multiple of this.
    pub step_size: Decimal,
    /// The smallest quantity.
    pub min_qty: Decimal,
    /// A price is a multiple of this.
    pub tick_size: Decimal,
    /// The smallest product of quantity and price.
    pub min_notional: Decimal,
}

/// A value brought down to a multiple of `step`: the quotient without its fraction,
/// times the step. Without a step the value stays as it is. `None` where a result on
/// the way is too large. Where the quotient lies halfway between two numbers, `odd` says
/// which it is rounded off to.
pub open spec fn rounded_down(value: int, step: int, odd: bool) -> Option<int> {
    if step <= 0 {
        Some(value)
    } else {
        match quotient_of(value, step, odd) {
            Some(quotient) => product_of(floor_of(quotient), step),
            None => None,
        }
    }
}

/// Bringing a value down gives the largest multiple of the step that is not above it,
/// unless that multiple has too many digits to be a number, or the quotient has so
/// many that rounding it off reaches the next whole number.
pub proof fn law_rounded_down_is_largest_multiple(value: int, step: int, odd: bool)
    requires
        step > 0,
        quotient_of(value, step, odd) is Some,
        floor_of(quotient_of(value, step, odd)->0) == (value / step) * one(),
        representable((value / step) * step),
    ensures
        rounded_down(value, step, odd) == Some((value / step) * step),
        (value / step) * step <= value < (value / step) * step + step,
{
    let n = value / step;
    let e = one();
    assert((n * e) * step == (n * step) * e) by (nonlinear_arith);
    law_product_exact(n * e, step, n * step);
    assert(n * step <= value < n * step + step) by (nonlinear_arith)
        requires
            step > 0,
            n == value / step,
    ;
}

/// Bringing down a value that is not negative, and is counted with the step in a common
/// unit in few enough digits, always gives the largest multiple of the step that is not
/// above it.
pub proof fn law_short_numbers_are_rounded_down(value: int, step: int, k: nat, odd: bool)
    requires
        short(value, step),
        k <= 28,
    ensures
        rounded_down(value * pow10(k), step * pow10(k), odd) == Some(
            ((value / step) * step) * pow10(k),
        ),
        (value / step) * step <= value < (value / step) * step + step,
{
    let n = value / step;
    let p = pow10(k);
    let e = one();
    lemma_pow10_positive(k);
    lemma_pow10_positive(28);
    lemma_common_unit(value, step, p);
    lemma_short_quotient(value, step, k, odd);
    let w = quotient_of(value * p, step * p, odd)->0;
    assert(w / e == n) by (nonlinear_arith)
        requires
            n * e <= w < (n + 1) * e,
            e > 0,
    ;
    assert(0 <= n * step <= value < n * step + step) by (nonlinear_arith)
        requires
            step > 0,
            value >= 0,
            n == value / step,
    ;
    assert(n * (step * p) == (n * step) * p) by (nonlinear_arith);
    law_rounded_down_is_largest_multiple(value * p, step * p, odd);
}

/// What a value is brought down to is a multiple of the step, so that the exchange does not
/// refuse it for that, unless the multiple has too many digits to be a number.
pub proof fn law_rounded_down_is_a_multiple(value: int, step: int, odd: bool)
    requires
        step > 0,
        quotient_of(value, step, odd) is Some,
        representable((quotient_of(value, step, odd)->0 / one()) * step),
    ensures
        rounded_down(value, step, odd) matches Some(r) && r % step == 0,
{
    let n = quotient_of(value, step, odd)->0 / one();
    let e = one();
    assert((n * e) * step == (n * step) * e) by (nonlinear_arith);
    law_product_exact(n * e, step, n * step);
    vstd::arithmetic::div_mod::lemma_mod_multiples_basic(n, step);
}

/// A multiple of the step stays as it is.
pub proof fn law_rounded_down_keeps_multiples(n: int, step: int, odd: bool)
    requires
        step > 0,
        representable(n * one()),
        representable(n * step),
    ensures
        rounded_down(n * step, step, odd) == Some(n * step),
{
    let e = one();
    lemma_pow10_positive(28);
    assert((n * step) * e == (n * e) * step) by (nonlinear_arith);
    law_quotient_exact(n * step, step, n * e, odd);
    assert((n * e) / e == n) by (nonlinear_arith)
        requires
            e > 0,
    ;
    law_product_exact(n * e, step, n * step);
}

/// Whether a value that was brought down is written with as many digits behind the point
/// as the step. It always is, unless it is nothing or has too many digits.
pub open spec fn written_like_step(value: int, step: Decimal, odd: bool, r: Decimal) -> bool {
    let count = quotient_of(value, step@, odd)->0 / one();
    let mantissa = count * step.coefficient();
    step@ > 0 && count != 0 && -MAX_MANTISSA <= mantissa <= MAX_MANTISSA ==> r.coefficient()
        == mantissa && r.places() == step.places()
}

/// What a number is brought down to, as it is written.
pub open spec fn form_down(value: (i128, u32), step: (i128, u32)) -> Option<(i128, u32)> {
    if worth(step) <= 0 {
        Some(value)
    } else {
        match over(value, step) {
            Some(quotient) => times(floor_form(quotient), step),
            None => None,
        }
    }
}

/// Whether this is what bringing a value down to a multiple of a step gives.
pub open spec fn brought_down(value: Decimal, step: Decimal, r: Option<Decimal>) -> bool {
    let odd = tie(value.form(), step.form());
    &&& step@ > 0 ==> step.ties(odd)
    &&& match r {
        Some(d) => rounded_down(value@, step@, odd) == Some(d@) && written_like_step(
            value@,
            step,
            odd,
            d,
        ),
        None => rounded_down(value@, step@, odd) is None,
    }
    &&& form_of(r) == form_down(value.form(), step.form())
    &&& step@ <= 0 ==> r == Some(value)
}

/// Whether a value can be brought down to a multiple of a step.
pub open spec fn can_bring_down(value: int, step: Decimal) -> bool {
    forall|odd: bool|
        (step@ > 0 ==> step.ties(odd)) ==> #[trigger] rounded_down(value, step@, odd) is Some
}

/// Brings `value` down to a multiple of `step`.
fn round_down(value: Decimal, step: Decimal) -> (r: Option<Decimal>)
    ensures
        brought_down(value, step, r),
{
    proof {
        lemma_form(step);
    }
    if step <= Decimal::zero() {
        return Some(value);
    }
    match value.checked_div(step) {
        Some(quotient) => {
            let count = quotient.floor();
            proof {
                let (n, e) = (quotient@ / one(), one());
                lemma_pow10_positive(28);
                assert(n != 0 ==> n * e != 0) by (nonlinear_arith)
                    requires
                        e > 0,
                ;
                lemma_form(step);
            }
            count.checked_mul(step)
        },
        None => None,
    }
}

/// What is said of a quantity that is too small.
pub open spec fn quantity_reason(qty: Decimal, min_qty: Decimal) -> Seq<char> {
    "数量 "@ + qty.text() + " 低于 minQty "@ + min_qty.text()
}

/// What is said of a quantity that is no multiple of the step.
pub open spec fn step_reason(qty: Decimal, step_size: Decimal) -> Seq<char> {
    "数量 "@ + qty.text() + " 不是 stepSize "@ + step_size.text() + " 的整数倍"@
}

/// What is said of a price that is no multiple of the tick.
pub open spec fn tick_reason(price: Decimal, tick_size: Decimal) -> Seq<char> {
    "价格 "@ + price.text() + " 不是 tickSize "@ + tick_size.text() + " 的整数倍"@
}

/// What is said of an order whose value is too small.
pub open spec fn notional_reason(notional: Decimal, min_notional: Decimal) -> Seq<char> {
    "名义价值 "@ + notional.text() + " 低于 minNotional "@ + min_notional.text()
}

impl SymbolFilters {
    /// Whether the value of an order can be computed, where it is looked at.
    pub open spec fn can_validate(self, qty: int, price: int) -> bool {
        qty >= self.min_qty@ ==> product_of(qty, price) is Some
    }

    /// Whether a quantity is a multiple of the step, if there is one.
    pub open spec fn on_step(self, qty: int) -> bool {
        self.step_size@ > 0 ==> qty % self.step_size@ == 0
    }

    /// Whether a price is a multiple of the tick, if there is one.
    pub open spec fn on_tick(self, price: int) -> bool {
        self.tick_size@ > 0 ==> price % self.tick_size@ == 0
    }

    /// Whether the value of an order suffices.
    pub open spec fn suffices(self, qty: int, price: int) -> bool {
        product_of(qty, price) matches Some(notional) && notional >= self.min_notional@
    }

    /// Whether the exchange takes an order.
    pub open spec fn complies(self, qty: int, price: int) -> bool {
        &&& qty >= self.min_qty@
        &&& self.suffices(qty, price)
        &&& self.on_step(qty)
        &&& self.on_tick(price)
    }

    /// Whether this is why the value of an order does not suffice.
    pub open spec fn too_little(self, qty: Decimal, price: Decimal, reason: Seq<char>) -> bool {
        exists|notional: Decimal|
            product_of(qty@, price@) == Some(notional@) && times(qty.form(), price.form()) == Some(
                notional.form(),
            ) && reason == #[trigger] notional_reason(notional, self.min_notional)
    }

    /// What is said of an order, if anything.
    pub open spec fn verdict(self, qty: Decimal, price: Decimal, r: Result<(), String>) -> bool {
        match r {
            Ok(()) => self.complies(qty@, price@),
            Err(reason) => !self.complies(qty@, price@) && if qty@ < self.min_qty@ {
                reason@ == quantity_reason(qty, self.min_qty)
            } else if !self.suffices(qty@, price@) {
                self.too_little(qty, price, reason@)
            } else if !self.on_step(qty@) {
                reason@ == step_reason(qty, self.step_size)
            } else {
                reason@ == tick_reason(price, self.tick_size)
            },
        }
    }

    /// The quantity, brought down to a multiple of the step, if it can be computed.
    pub fn try_round_quantity(&self, qty: Decimal) -> (r: Option<Decimal>)
        ensures
            brought_down(qty, self.step_size, r),
    {
        round_down(qty, self.step_size)
    }

    /// The quantity, brought down to a multiple of the step.
    pub fn round_quantity(&self, qty: Decimal) -> (r: Decimal)
        requires
            can_bring_down(qty@, self.step_size),
        ensures
            brought_down(qty, self.step_size, Some(r)),
    {
        self.try_round_quantity(qty).unwrap()
    }

    /// The price, brought down to a multiple of the tick, if it can be computed.
    pub fn try_round_price(&self, price: Decimal) -> (r: Option<Decimal>)
        ensures
            brought_down(price, self.tick_size, r),
    {
        round_down(price, self.tick_size)
    }

    /// The price, brought down to a multiple of the tick.
    pub fn round_price(&self, price: Decimal) -> (r: Decimal)
        requires
            can_bring_down(price@, self.tick_size),
        ensures
            brought_down(price, self.tick_size, Some(r)),
    {
        self.try_round_price(price).unwrap()
    }

    /// Whether the exchange takes an order by all of its rules, and why not; `None` where the
    /// value of the order is too large.
    pub fn try_validate(&self, qty: Decimal, price: Decimal) -> (r: Option<Result<(), String>>)
        ensures
            match r {
                Some(v) => self.can_validate(qty@, price@) && self.verdict(qty, price, v),
                None => !self.can_validate(qty@, price@),
            },
    {
        if qty < self.min_qty {
            let mut reason = "数量 ".to_owned();
            reason.append(qty.to_text().as_str());
            reason.append(" 低于 minQty ");
            reason.append(self.min_qty.to_text().as_str());
            return Some(Err(reason));
        }
        match qty.checked_mul(price) {
            Some(notional) => if notional < self.min_notional {
                let mut reason = "名义价值 ".to_owned();
                reason.append(notional.to_text().as_str());
                reason.append(" 低于 minNotional ");
                reason.append(self.min_notional.to_text().as_str());
                assert(reason@ == notional_reason(notional, self.min_notional));
                Some(Err(reason))
            } else if self.step_size > Decimal::zero() && !qty.is_multiple_of(self.step_size) {
                let mut reason = "数量 ".to_owned();
                reason.append(qty.to_text().as_str());
                reason.append(" 不是 stepSize ");
                reason.append(self.step_size.to_text().as_str());
                reason.append(" 的整数倍");
                Some(Err(reason))
            } else if self.tick_size > Decimal::zero() && !price.is_multiple_of(self.tick_size) {
                let mut reason = "价格 ".to_owned();
                reason.append(price.to_text().as_str());
                reason.append(" 不是 tickSize ");
                reason.append(self.tick_size.to_text().as_str());
                reason.append(" 的整数倍");
                Some(Err(reason))
            } else {
                Some(Ok(()))
            },
            None => None,
        }
    }

    /// Whether the exchange takes an order by all of its rules, and why not.
    pub fn validate(&self, qty: Decimal, price: Decimal) -> (r: Result<(), String>)
        requires
            self.can_validate(qty@, price@),
        ensures
            self.verdict(qty, price, r),
    {
        self.try_validate(qty, price).unwrap()
    }
}

/// The names of the order statuses are eight different words, each for its own status.
pub proof fn law_order_statuses_are_told_apart(value: &str, r: Result<OrderStatus, String>)
    requires
        call_ensures(OrderStatus::try_from, (value,), r),
    ensures
        r == Ok::<OrderStatus, String>(OrderStatus::New) <==> value@ == "NEW"@,
        r == Ok::<OrderStatus, String>(OrderStatus::PartiallyFilled) <==> value@
            == "PARTIALLY_FILLED"@,
        r == Ok::<OrderStatus, String>(OrderStatus::Filled) <==> value@ == "FILLED"@,
        r == Ok::<OrderStatus, String>(OrderStatus::Canceled) <==> value@ == "CANCELED"@,
        r == Ok::<OrderStatus, String>(OrderStatus::PendingCancel) <==> value@ == "PENDING_CANCEL"@,
        r == Ok::<OrderStatus, String>(OrderStatus::Rejected) <==> value@ == "REJECTED"@,
        r == Ok::<OrderStatus, String>(OrderStatus::Expired) <==> value@ == "EXPIRED"@,
        r == Ok::<OrderStatus, String>(OrderStatus::ExpiredInMatch) <==> value@
            == "EXPIRED_IN_MATCH"@,
{
    lemma_order_status_names();
}

/// The names of the order statuses.
pub proof fn lemma_order_status_names()
    ensures
        order_status_of("NEW"@) == Some(OrderStatus::New),
        order_status_of("PARTIALLY_FILLED"@) == Some(OrderStatus::PartiallyFilled),
        order_status_of("FILLED"@) == Some(OrderStatus::Filled),
        order_status_of("CANCELED"@) == Some(OrderStatus::Canceled),
        order_status_of("PENDING_CANCEL"@) == Some(OrderStatus::PendingCancel),
        order_status_of("REJECTED"@) == Some(OrderStatus::Rejected),
        order_status_of("EXPIRED"@) == Some(OrderStatus::Expired),
        order_status_of("EXPIRED_IN_MATCH"@) == Some(OrderStatus::ExpiredInMatch),
{
    reveal_strlit("NEW");
    reveal_strlit("PARTIALLY_FILLED");
    reveal_strlit("FILLED");
    reveal_strlit("CANCELED");
    reveal_strlit("PENDING_CANCEL");
    reveal_strlit("REJECTED");
    reveal_strlit("EXPIRED");
    reveal_strlit("EXPIRED_IN_MATCH");
    assert("NEW"@.len() == 3 && "FILLED"@.len() == 6 && "EXPIRED"@.len() == 7);
    assert("CANCELED"@.len() == 8 && "REJECTED"@.len() == 8 && "PENDING_CANCEL"@.len() == 14);
    assert("PARTIALLY_FILLED"@.len() == 16 && "EXPIRED_IN_MATCH"@.len() == 16);
    assert("CANCELED"@[0] == 'C' && "REJECTED"@[0] == 'R');
    assert("PARTIALLY_FILLED"@[0] == 'P' && "EXPIRED_IN_MATCH"@[0] == 'E');
}

proof fn lemma_brought_down(
    value: Decimal,
    step: Decimal,
    r: Option<Decimal>,
    v: int,
    s: int,
    k: nat,
)
    requires
        brought_down(value, step, r),
        short(v, s),
        k <= 28,
        value@ == v * pow10(k),
        step@ == s * pow10(k),
    ensures
        r matches Some(d) && d@ <= value@ < d@ + step@ && d@ % step@ == 0,
{
    let odd = tie(value.form(), step.form());
    let p = pow10(k);
    lemma_pow10_positive(k);
    law_short_numbers_are_rounded_down(v, s, k, odd);
    let n = v / s;
    assert((n * s) * p <= v * p && v * p < (n * s) * p + s * p && (n * s) * p == n * (s * p)) by (
    nonlinear_arith)
        requires
            n * s <= v < n * s + s,
            p > 0,
    ;
    assert(s * p > 0) by (nonlinear_arith)
        requires
            s > 0,
            p > 0,
    ;
    vstd::arithmetic::div_mod::lemma_mod_multiples_basic(n, s * p);
}

/// A quantity of few enough digits is brought down to the largest multiple of the step that
/// is not above it; without a step it stays as it is.
pub proof fn law_quantities_are_brought_down(
    rules: &SymbolFilters,
    qty: Decimal,
    r: Option<Decimal>,
    v: int,
    s: int,
    k: nat,
)
    requires
        call_ensures(SymbolFilters::try_round_quantity, (rules, qty), r),
    ensures
        rules.step_size@ <= 0 ==> r == Some(qty),
        short(v, s) && k <= 28 && qty@ == v * pow10(k) && rules.step_size@ == s * pow10(k) ==> (
        r matches Some(d) && d@ <= qty@ < d@ + rules.step_size@ && d@ % rules.step_size@ == 0),
{
    if short(v, s) && k <= 28 && qty@ == v * pow10(k) && rules.step_size@ == s * pow10(k) {
        lemma_brought_down(qty, rules.step_size, r, v, s, k);
    }
}

/// A price of few enough digits is brought down to the largest multiple of the tick that is
/// not above it; without a tick it stays as it is.
pub proof fn law_prices_are_brought_down(
    rules: &SymbolFilters,
    price: Decimal,
    r: Option<Decimal>,
    v: int,
    s: int,
    k: nat,
)
    requires
        call_ensures(SymbolFilters::try_round_price, (rules, price), r),
    ensures
        rules.tick_size@ <= 0 ==> r == Some(price),
        short(v, s) && k <= 28 && price@ == v * pow10(k) && rules.tick_size@ == s * pow10(k) ==> (
        r matches Some(d) && d@ <= price@ < d@ + rules.tick_size@ && d@ % rules.tick_size@ == 0),
{
    if short(v, s) && k <= 28 && price@ == v * pow10(k) && rules.tick_size@ == s * pow10(k) {
        lemma_brought_down(price, rules.tick_size, r, v, s, k);
    }
}

/// An order is taken exactly if its quantity is at least the smallest one and a multiple of
/// the step, its price is a multiple of the tick, and quantity times price is at least the
/// smallest value of an order. `value` is that product, where it is a number.
pub proof fn law_orders_are_held_against_every_rule(
    rules: &SymbolFilters,
    qty: Decimal,
    price: Decimal,
    r: Result<(), String>,
    value: int,
)
    requires
        call_ensures(SymbolFilters::validate, (rules, qty, price), r),
        representable(value),
        qty@ * price@ == value * one(),
    ensures
        r is Ok <==> {
            &&& qty@ >= rules.min_qty@
            &&& value >= rules.min_notional@
            &&& rules.step_size@ > 0 ==> qty@ % rules.step_size@ == 0
            &&& rules.tick_size@ > 0 ==> price@ % rules.tick_size@ == 0
        },
{
    law_product_exact(qty@, price@, value);
}

} // verus!
