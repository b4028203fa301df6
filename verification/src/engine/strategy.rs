//! How balances are shared out among grids, and at which prices the grids stand.

use crate::decimal::{
    ceiling_form, ceiling_of, difference_of, form_of, law_difference_exact, law_product_exact,
    law_quotient_exact, law_sum_exact, lemma_common_unit, lemma_form, lemma_nearest_exact,
    lemma_nearest_from_is_number, lemma_nearest_is_near, lemma_nearest_order, lemma_nearest_sign,
    lemma_positive_stays, lemma_pow10_positive, lemma_pow10_sum, lemma_rounding_is_near,
    lemma_rounding_to_even, lemma_same_form, lemma_short_quotient, minus, one, over, plus, pow10,
    product_of, quotient_of, representable, rounding_of, short, sum_of, tie, times, wide, Decimal,
    MAX_MANTISSA, Overflow,
};
use crate::models::user_grid::NewUserGrid;
use vstd::prelude::*;

verus! {

/// What there is to share out. Base and quote are amounts of different assets: only at
/// the price can they be compared.
#[derive(Clone, Copy, Debug)]
pub struct Allocation {
    /// The free balance of the base asset.
    pub base: Decimal,
    /// The free balance of the quote asset.
    pub quote: Decimal,
    /// The price of the base asset in the quote asset.
    pub price: Decimal,
    pub grid_count: u32,
    /// The smallest quantity that the exchange takes.
    pub min_qty: Decimal,
    /// The smallest value that the exchange takes. A balance that is worth less is not
    /// used.
    pub min_notional: Decimal,
}

/// The balances that are used, and what they are worth in the quote asset.
pub struct Worth {
    pub base: int,
    pub quote: int,
    pub base_value: int,
    pub total_value: int,
}

/// `count` as a number.
pub open spec fn whole(count: int) -> int {
    count * one()
}

/// The whole number nearest to a value, if it is a natural number of 32 bits, else
/// zero.
pub open spec fn rounded_count(value: int) -> int {
    let count = rounding_of(value) / one();
    if rounding_of(value) < 0 || count > u32::MAX {
        0
    } else {
        count
    }
}

impl Allocation {
    /// The value from which on a balance is used.
    pub open spec fn dust(self) -> int {
        if self.min_notional@ < 0 {
            0
        } else {
            self.min_notional@
        }
    }

    /// The balances that are used, and what they are worth; `None` where that is too
    /// large.
    pub open spec fn worth(self) -> Option<Worth> {
        match product_of(self.base@, self.price@) {
            None => None,
            Some(notional) => {
                let base = if notional < self.dust() {
                    0
                } else {
                    self.base@
                };
                let quote = if self.quote@ < self.dust() {
                    0
                } else {
                    self.quote@
                };
                match product_of(base, self.price@) {
                    None => None,
                    Some(base_value) => match sum_of(base_value, quote) {
                        None => None,
                        Some(total_value) => Some(Worth { base, quote, base_value, total_value }),
                    },
                }
            },
        }
    }

    /// How many grids the base asset is worth: its share of the total value, rounded,
    /// but where both assets are used at least one grid for each. Where the share lies
    /// halfway between two numbers, `odd` says which it is rounded off to.
    pub open spec fn share(self, w: Worth, odd: bool) -> Option<int> {
        if w.base == 0 {
            Some(0)
        } else if w.quote == 0 {
            Some(self.grid_count as int)
        } else {
            match product_of(whole(self.grid_count as int), w.base_value) {
                None => None,
                Some(weighted) => match quotient_of(weighted, w.total_value, odd) {
                    None => None,
                    Some(exact) => {
                        let n = rounded_count(exact);
                        let at_least_one = if n == 0 {
                            1
                        } else {
                            n
                        };
                        if at_least_one >= self.grid_count {
                            Some(self.grid_count - 1)
                        } else {
                            Some(at_least_one)
                        }
                    },
                },
            }
        }
    }

    /// What each of `n` grids gets of a balance.
    pub open spec fn part(self, balance: int, n: int) -> Option<int> {
        quotient_of(balance, whole(n), false)
    }

    /// Whether the exchange takes each of `n` sell orders; `None` where that cannot be
    /// computed.
    pub open spec fn sells_taken(self, base: int, n: int) -> Option<bool> {
        match self.part(base, n) {
            None => None,
            Some(quantity) => if quantity < self.min_qty@ {
                Some(false)
            } else {
                match product_of(quantity, self.price@) {
                    None => None,
                    Some(value) => Some(value >= self.dust()),
                }
            },
        }
    }

    /// Whether the exchange takes each of `n` buy orders; `None` where that cannot be
    /// computed. Where the quantity lies halfway between two numbers, `odd` says which it is
    /// rounded off to.
    pub open spec fn buys_taken(self, quote: int, n: int, odd: bool) -> Option<bool> {
        match self.part(quote, n) {
            None => None,
            Some(amount) => match quotient_of(amount, self.price@, odd) {
                None => None,
                Some(quantity) => Some(amount >= self.dust() && quantity >= self.min_qty@),
            },
        }
    }

    /// The largest number of sell grids up to `n` whose orders are taken, or zero; `None`
    /// where that cannot be computed.
    pub open spec fn most_sells(self, base: int, n: int) -> Option<int>
        decreases n,
    {
        if n <= 0 {
            Some(0)
        } else {
            match self.sells_taken(base, n) {
                None => None,
                Some(true) => Some(n),
                Some(false) => self.most_sells(base, n - 1),
            }
        }
    }

    /// The largest number of buy grids up to `n` whose orders are taken, or zero; `None`
    /// where that cannot be computed.
    pub open spec fn most_buys(self, quote: int, n: int, ties: ShareTies) -> Option<int>
        decreases n,
    {
        if n <= 0 {
            Some(0)
        } else {
            match self.buys_taken(quote, n, (ties.buys)(n)) {
                None => None,
                Some(true) => Some(n),
                Some(false) => self.most_buys(quote, n - 1, ties),
            }
        }
    }

    /// The balance of the base asset that is used, as it is written.
    pub open spec fn used_base(self) -> (i128, u32) {
        if product_of(self.base@, self.price@)->0 < self.dust() {
            (0, 0)
        } else {
            self.base.form()
        }
    }

    /// The balance of the quote asset that is used, as it is written.
    pub open spec fn used_quote(self) -> (i128, u32) {
        if self.quote@ < self.dust() {
            (0, 0)
        } else {
            self.quote.form()
        }
    }

    /// Whether the grids are shared out between both balances.
    pub open spec fn shares_both(self) -> bool {
        self.grid_count > 0 && self.price@ > 0 && (self.worth() matches Some(w) && w.base != 0
            && w.quote != 0)
    }

    /// How the quotients of the sharing are rounded off.
    pub open spec fn ties(self) -> ShareTies {
        let base_value = times(self.used_base(), self.price.form())->0;
        let total_value = plus(base_value, self.used_quote())->0;
        let weighted = times((self.grid_count as i128, 0), base_value)->0;
        ShareTies {
            share: self.shares_both() && wide(total_value.0) && tie(weighted, total_value),
            buys: |n: int|
                wide(self.price.coefficient()) && tie(
                    over(self.used_quote(), (n as i128, 0))->0,
                    self.price.form(),
                ),
        }
    }

    /// Whether a number with so many digits can stand for the total value that a quotient by
    /// it may be the odd one of two that are equally near.
    pub open spec fn wide_total(self) -> bool {
        self.worth() matches Some(w) && has_wide(w.total_value)
    }

    /// Whether the quotients of the sharing may be rounded off like this: to the odd one of
    /// two numbers that are equally near only where the divisor has very many digits.
    pub open spec fn admits(self, ties: ShareTies) -> bool {
        (ties.share ==> self.wide_total()) && forall|n: int|
            self.price.ties(#[trigger] (ties.buys)(n))
    }

    /// Whether a result says how the balances are shared out.
    pub open spec fn shares_as(
        self,
        r: Result<Option<(u32, u32, Decimal, Decimal)>, Overflow>,
    ) -> bool {
        self.admits(self.ties()) && match r {
            Ok(shares) => shared_out(self, self.ties()) is Ok && is_shared_out(
                shared_out(self, self.ties())->Ok_0,
                shares,
            ) && (shares matches Some(t) ==> t.2.form() == part_form(self.used_base(), t.0)
                && t.3.form() == part_form(self.used_quote(), t.1)),
            Err(e) => shared_out(self, self.ties()) == Err::<Option<Shares>, Overflow>(e),
        }
    }
}

/// Whether there is a number of this value with a mantissa of more than 64 bits.
pub open spec fn has_wide(value: int) -> bool {
    exists|d: Decimal| d@ == value && #[trigger] wide(d.coefficient())
}

/// What each of `n` grids gets of a balance, as it is written; nothing if there is none.
pub open spec fn part_form(balance: (i128, u32), n: u32) -> (i128, u32) {
    if n > 0 {
        over(balance, (n as i128, 0))->0
    } else {
        (0, 0)
    }
}

/// How quotients that lie halfway between two numbers are rounded off: that of the share,
/// and that of the quantity when there are so many buy grids.
pub struct ShareTies {
    pub share: bool,
    pub buys: spec_fn(int) -> bool,
}

/// What comes out of sharing: how many grids sell and how many buy, and what each
/// sells and spends.
pub struct Shares {
    pub sell_grids: int,
    pub buy_grids: int,
    pub sell_amount: int,
    pub buy_amount: int,
}

/// What each of `n` grids gets of a balance, nothing if there is none.
pub open spec fn amount_each(balance: int, n: int) -> int {
    if n > 0 {
        quotient_of(balance, whole(n), false)->0
    } else {
        0
    }
}

/// How the balances are shared out: `Err` where a result on the way is too large, and
/// `Ok(None)` where there is nothing to trade with.
pub open spec fn shared_out(a: Allocation, ties: ShareTies) -> Result<Option<Shares>, Overflow> {
    if a.grid_count == 0 || a.price@ <= 0 {
        Ok(None)
    } else {
        match a.worth() {
            None => Err(Overflow),
            Some(w) => if w.total_value == 0 {
                Ok(None)
            } else {
                match a.share(w, ties.share) {
                    None => Err(Overflow),
                    Some(share) => match a.most_sells(w.base, share) {
                        None => Err(Overflow),
                        Some(sells) => match a.most_buys(w.quote, a.grid_count - share, ties) {
                            None => Err(Overflow),
                            Some(buys) => if sells == 0 && buys == 0 {
                                Ok(None)
                            } else {
                                Ok(
                                    Some(
                                        Shares {
                                            sell_grids: sells,
                                            buy_grids: buys,
                                            sell_amount: amount_each(w.base, sells),
                                            buy_amount: amount_each(w.quote, buys),
                                        },
                                    ),
                                )
                            },
                        },
                    },
                }
            },
        }
    }
}

/// Whether a result says how the balances are shared out.
pub open spec fn is_shared_out(
    shares: Option<Shares>,
    r: Option<(u32, u32, Decimal, Decimal)>,
) -> bool {
    match (shares, r) {
        (Some(s), Some(t)) => s.sell_grids == t.0 && s.buy_grids == t.1 && s.sell_amount == t.2@
            && s.buy_amount == t.3@,
        (None, None) => true,
        _ => false,
    }
}

/// A number without its fraction, as far as it is a natural number of 32 bits.
fn count_of(value: Decimal) -> (r: u32)
    ensures
        r == rounded_count(value@),
{
    let rounded = value.round();
    proof {
        lemma_pow10_positive(28);
    }
    match rounded.to_u32() {
        Some(n) => n,
        None => 0,
    }
}

/// Whether a result is a number of grids, at most so many, if there is one.
spec fn is_count(n: Option<int>, most: u32, r: Option<u32>) -> bool {
    match r {
        Some(c) => n == Some(c as int) && c <= most,
        None => n is None,
    }
}

/// The number of sell grids by the share of the base asset in the value.
fn base_share(
    a: &Allocation,
    base: Decimal,
    quote: Decimal,
    base_value: Decimal,
    total_value: Decimal,
) -> (r: Option<u32>)
    requires
        a.grid_count > 0,
    ensures
        ({
            let w = Worth {
                base: base@,
                quote: quote@,
                base_value: base_value@,
                total_value: total_value@,
            };
            let weighted = times((a.grid_count as i128, 0), base_value.form())->0;
            let odd = wide(total_value.coefficient()) && tie(weighted, total_value.form());
            is_count(a.share(w, odd), a.grid_count, r)
        }),
{
    if base == Decimal::zero() {
        return Some(0);
    }
    if quote == Decimal::zero() {
        return Some(a.grid_count);
    }
    match Decimal::from_u32(a.grid_count).checked_mul(base_value) {
        Some(weighted) => match weighted.checked_div(total_value) {
            Some(exact) => {
                let rounded = count_of(exact);
                let mut n: u32 = if rounded < a.grid_count {
                    rounded
                } else {
                    a.grid_count
                };
                if n == 0 {
                    n = 1;
                }
                if n == a.grid_count {
                    n = a.grid_count - 1;
                }
                Some(n)
            },
            None => None,
        },
        None => None,
    }
}

/// The largest number of sell grids up to `most` whose orders are taken.
fn sell_grids(a: &Allocation, base: Decimal, most: u32) -> (r: Option<u32>)
    ensures
        match r {
            Some(n) => a.most_sells(base@, most as int) == Some(n as int) && n <= most,
            None => a.most_sells(base@, most as int) is None,
        },
{
    let dust = a.min_notional.max(Decimal::zero());
    let mut n: u32 = most;
    while n > 0
        invariant
            n <= most,
            dust@ == a.dust(),
            a.most_sells(base@, most as int) == a.most_sells(base@, n as int),
        decreases n,
    {
        match base.checked_div(Decimal::from_u32(n)) {
            Some(quantity) => if quantity >= a.min_qty {
                match quantity.checked_mul(a.price) {
                    Some(value) => if value >= dust {
                        return Some(n);
                    },
                    None => {
                        return None;
                    },
                }
            },
            None => {
                return None;
            },
        }
        n = n - 1;
    }
    Some(0)
}

/// The largest number of buy grids up to `most` whose orders are taken.
fn buy_grids(a: &Allocation, quote: Decimal, most: u32) -> (r: Option<u32>)
    requires
        quote.form() == a.used_quote(),
    ensures
        is_count(a.most_buys(quote@, most as int, a.ties()), most, r),
{
    let dust = a.min_notional.max(Decimal::zero());
    let mut n: u32 = most;
    while n > 0
        invariant
            n <= most,
            dust@ == a.dust(),
            quote.form() == a.used_quote(),
            a.most_buys(quote@, most as int, a.ties()) == a.most_buys(quote@, n as int, a.ties()),
        decreases n,
    {
        match quote.checked_div(Decimal::from_u32(n)) {
            Some(amount) => match amount.checked_div(a.price) {
                Some(quantity) => if amount >= dust && quantity >= a.min_qty {
                    return Some(n);
                },
                None => {
                    return None;
                },
            },
            None => {
                return None;
            },
        }
        n = n - 1;
    }
    Some(0)
}

/// What each of `n` grids gets of a balance.
fn amount_for_each(balance: Decimal, n: u32) -> (r: Decimal)
    ensures
        r@ == amount_each(balance@, n as int),
        r.form() == part_form(balance.form(), n),
{
    if n == 0 {
        return Decimal::zero();
    }
    proof {
        lemma_pow10_positive(28);
        assert(n * one() >= one()) by (nonlinear_arith)
            requires
                n >= 1,
                one() > 0,
        ;
    }
    balance.checked_div(Decimal::from_u32(n)).unwrap()
}

/// Shares the balances out among grids, by what they are worth: the number of sell and
/// of buy grids, and what each sells and spends. Nothing where there is nothing to trade
/// with; `Err` where a result on the way is too large.
pub fn try_allocate_grids(a: Allocation) -> (r: Result<
    Option<(u32, u32, Decimal, Decimal)>,
    Overflow,
>)
    ensures
        a.shares_as(r),
{
    if a.grid_count == 0 || a.price <= Decimal::zero() {
        return Ok(None);
    }
    let dust = a.min_notional.max(Decimal::zero());
    let base_notional = match a.base.checked_mul(a.price) {
        Some(d) => d,
        None => {
            return Err(Overflow);
        },
    };
    let base = if base_notional < dust {
        Decimal::zero()
    } else {
        a.base
    };
    let quote = if a.quote < dust {
        Decimal::zero()
    } else {
        a.quote
    };
    let base_value = match base.checked_mul(a.price) {
        Some(d) => d,
        None => {
            return Err(Overflow);
        },
    };
    let total_value = match base_value.checked_add(quote) {
        Some(d) => d,
        None => {
            return Err(Overflow);
        },
    };
    proof {
        if wide(total_value.coefficient()) {
            assert(has_wide(total_value@));
        }
    }
    if total_value == Decimal::zero() {
        return Ok(None);
    }
    let share = match base_share(&a, base, quote, base_value, total_value) {
        Some(n) => n,
        None => {
            return Err(Overflow);
        },
    };
    let sells = match sell_grids(&a, base, share) {
        Some(n) => n,
        None => {
            return Err(Overflow);
        },
    };
    let buys = match buy_grids(&a, quote, a.grid_count - share) {
        Some(n) => n,
        None => {
            return Err(Overflow);
        },
    };
    if sells == 0 && buys == 0 {
        return Ok(None);
    }
    Ok(Some((sells, buys, amount_for_each(base, sells), amount_for_each(quote, buys))))
}

/// Shares the balances out among grids, by what they are worth: the number of sell and
/// of buy grids, and what each sells and spends. Nothing where there is nothing to trade
/// with.
pub fn allocate_grids(a: Allocation) -> (r: Option<(u32, u32, Decimal, Decimal)>)
    requires
        forall|ties: ShareTies| a.admits(ties) ==> #[trigger] shared_out(a, ties) is Ok,
    ensures
        a.shares_as(Ok(r)),
{
    match try_allocate_grids(a) {
        Ok(r) => r,
        Err(_) => None,
    }
}

/// Where something is to be traded there are no more grids than were asked for, and the
/// exchange takes the orders of both sides; one grid more on a side, up to the side's
/// share, would have orders that the exchange refuses.
pub proof fn law_shares_are_tradable(a: Allocation, ties: ShareTies)
    requires
        shared_out(a, ties) matches Ok(Some(_)),
    ensures
        ({
            let s = shared_out(a, ties)->Ok_0->0;
            let w = a.worth()->0;
            let share = a.share(w, ties.share)->0;
            &&& 0 <= share <= a.grid_count
            &&& 0 <= s.sell_grids <= share
            &&& 0 <= s.buy_grids <= a.grid_count - share
            &&& 1 <= s.sell_grids + s.buy_grids <= a.grid_count
            &&& s.sell_grids > 0 ==> a.sells_taken(w.base, s.sell_grids) == Some(true)
            &&& s.buy_grids > 0 ==> a.buys_taken(
                w.quote,
                s.buy_grids,
                (ties.buys)(s.buy_grids),
            ) == Some(true)
            &&& forall|n: int|
                s.sell_grids < n <= share ==> #[trigger] a.sells_taken(w.base, n) == Some(false)
            &&& forall|n: int|
                s.buy_grids < n <= a.grid_count - share ==> #[trigger] a.buys_taken(
                    w.quote,
                    n,
                    (ties.buys)(n),
                ) == Some(false)
        }),
{
    let w = a.worth()->0;
    let share = a.share(w, ties.share)->0;
    lemma_share(a, w, ties.share);
    lemma_most_sells(a, w.base, share);
    lemma_most_buys(a, w.quote, a.grid_count - share, ties);
}

/// A share is a number of grids.
proof fn lemma_share(a: Allocation, w: Worth, odd: bool)
    requires
        a.grid_count > 0,
        a.share(w, odd) is Some,
    ensures
        0 <= a.share(w, odd)->0 <= a.grid_count,
        w.base != 0 && w.quote != 0 && a.grid_count >= 2 ==> 1 <= a.share(w, odd)->0 <= a.grid_count
            - 1,
{
    lemma_pow10_positive(28);
    assert forall|value: int| #[trigger] rounded_count(value) >= 0 by {
        let whole_part = rounding_of(value);
        let e = one();
        if whole_part >= 0 {
            assert(whole_part / e >= 0) by (nonlinear_arith)
                requires
                    whole_part >= 0,
                    e > 0,
            ;
        }
    }
}

/// Where both balances are used and there are at least two grids, both sides have a
/// share.
pub proof fn law_both_sides_have_a_share(a: Allocation, odd: bool)
    requires
        a.worth() matches Some(w) && w.base != 0 && w.quote != 0,
        a.grid_count >= 2,
        a.share(a.worth()->0, odd) is Some,
    ensures
        1 <= a.share(a.worth()->0, odd)->0 <= a.grid_count - 1,
{
    lemma_share(a, a.worth()->0, odd);
}

/// Where a balance is not used its side gets no grid.
pub proof fn law_unused_balance_has_no_share(a: Allocation, odd: bool)
    requires
        a.worth() is Some,
        a.grid_count > 0,
    ensures
        a.worth()->0.base == 0 ==> a.share(a.worth()->0, odd) == Some(0int),
        a.worth()->0.base != 0 && a.worth()->0.quote == 0 ==> a.share(a.worth()->0, odd) == Some(
            a.grid_count as int,
        ),
{
}

proof fn lemma_most_sells(a: Allocation, base: int, n: int)
    requires
        n >= 0,
        a.most_sells(base, n) is Some,
    ensures
        0 <= a.most_sells(base, n)->0 <= n,
        a.most_sells(base, n)->0 > 0 ==> a.sells_taken(base, a.most_sells(base, n)->0) == Some(
            true,
        ),
        forall|k: int|
            a.most_sells(base, n)->0 < k <= n ==> #[trigger] a.sells_taken(base, k) == Some(false),
    decreases n,
{
    if n > 0 && a.sells_taken(base, n) == Some(false) {
        lemma_most_sells(a, base, n - 1);
    }
}

proof fn lemma_most_buys(a: Allocation, quote: int, n: int, ties: ShareTies)
    requires
        n >= 0,
        a.most_buys(quote, n, ties) is Some,
    ensures
        0 <= a.most_buys(quote, n, ties)->0 <= n,
        a.most_buys(quote, n, ties)->0 > 0 ==> a.buys_taken(
            quote,
            a.most_buys(quote, n, ties)->0,
            (ties.buys)(a.most_buys(quote, n, ties)->0),
        ) == Some(true),
        forall|k: int|
            a.most_buys(quote, n, ties)->0 < k <= n ==> #[trigger] a.buys_taken(
                quote,
                k,
                (ties.buys)(k),
            ) == Some(false),
    decreases n,
{
    if n > 0 && a.buys_taken(quote, n, (ties.buys)(n)) == Some(false) {
        lemma_most_buys(a, quote, n - 1, ties);
    }
}

/// Two calls for the same balances and rules give the same, digit for digit.
pub proof fn law_sharing_is_determined(
    a: Allocation,
    r: Result<Option<(u32, u32, Decimal, Decimal)>, Overflow>,
    s: Result<Option<(u32, u32, Decimal, Decimal)>, Overflow>,
)
    requires
        a.shares_as(r),
        a.shares_as(s),
    ensures
        r == s,
{
    if let (Ok(Some(t)), Ok(Some(u))) = (r, s) {
        lemma_same_form(t.2, u.2);
        lemma_same_form(t.3, u.3);
    }
}

/// Whether balances are shared out alike.
pub open spec fn shared_alike(a: Allocation, b: Allocation) -> bool {
    &&& forall|ties: ShareTies| #[trigger] shared_out(a, ties) == shared_out(b, ties)
    &&& forall|r: Result<Option<(u32, u32, Decimal, Decimal)>, Overflow>| #[trigger]
        a.shares_as(r) <==> b.shares_as(r)
}

proof fn lemma_same_rules(a: Allocation, b: Allocation, balance: int, n: int, ties: ShareTies)
    requires
        a.price == b.price,
        a.min_qty == b.min_qty,
        a.min_notional == b.min_notional,
    ensures
        a.most_sells(balance, n) == b.most_sells(balance, n),
        a.most_buys(balance, n, ties) == b.most_buys(balance, n, ties),
    decreases n,
{
    if n > 0 {
        assert(a.sells_taken(balance, n) == b.sells_taken(balance, n));
        assert(a.buys_taken(balance, n, (ties.buys)(n)) == b.buys_taken(
            balance,
            n,
            (ties.buys)(n),
        ));
        lemma_same_rules(a, b, balance, n - 1, ties);
    }
}

proof fn lemma_shared_alike(a: Allocation, b: Allocation)
    requires
        a.price == b.price,
        a.min_qty == b.min_qty,
        a.min_notional == b.min_notional,
        a.grid_count == b.grid_count,
        a.worth() == b.worth(),
        a.used_base() == b.used_base(),
        a.used_quote() == b.used_quote(),
    ensures
        shared_alike(a, b),
{
    assert forall|ties: ShareTies| #[trigger] shared_out(a, ties) == shared_out(b, ties) by {
        if let Some(w) = a.worth() {
            assert(a.share(w, ties.share) == b.share(w, ties.share));
            if let Some(share) = a.share(w, ties.share) {
                lemma_same_rules(a, b, w.base, share, ties);
                lemma_same_rules(a, b, w.quote, a.grid_count - share, ties);
            }
        }
    }
    assert(a.ties().buys =~= b.ties().buys);
    assert(a.ties() == b.ties());
    let ties = a.ties();
    assert(shared_out(a, ties) == shared_out(b, ties));
    assert(a.admits(ties) == b.admits(ties));
}

/// A balance of the quote asset that is smaller than the smallest value of an order counts as
/// nothing, and so does a balance of the base asset that is worth less.
pub proof fn law_dust_counts_as_nothing(a: Allocation, nought: Decimal)
    requires
        nought.form() == (0i128, 0u32),
    ensures
        a.quote@ < a.dust() ==> shared_alike(a, Allocation { quote: nought, ..a }),
        (product_of(a.base@, a.price@) matches Some(value) && value < a.dust()) ==> shared_alike(
            a,
            Allocation { base: nought, ..a },
        ),
{
    lemma_form(nought);
    assert(0 * pow10(28) == 0);
    if a.quote@ < a.dust() {
        lemma_shared_alike(a, Allocation { quote: nought, ..a });
    }
    if product_of(a.base@, a.price@) is Some && product_of(a.base@, a.price@)->0 < a.dust() {
        let p = a.price@;
        assert(0 * p == 0 && 0 * one() == 0);
        assert(0 * pow10(0) == 0);
        assert(representable(0));
        law_product_exact(0, p, 0);
        lemma_shared_alike(a, Allocation { base: nought, ..a });
    }
}

/// Whether a quotient is a number, so that it is not rounded off.
pub open spec fn exact_quotient(a: int, b: int) -> bool {
    b != 0 && (a * one()) % b == 0 && representable((a * one()) / b)
}

/// Whether no quotient is rounded off that is computed when so many grids are shared out to
/// the sells, and orders are taken of so many sells and buys.
pub open spec fn shares_exactly(a: Allocation, share: int, sells: int, buys: int) -> bool {
    let w = a.worth()->0;
    &&& w.base != 0 && w.quote != 0 ==> exact_quotient(
        product_of(whole(a.grid_count as int), w.base_value)->0,
        w.total_value,
    )
    &&& forall|n: int| sells <= n <= share && 0 < n ==> exact_quotient(w.base, #[trigger] whole(n))
    &&& forall|n: int|
        buys <= n <= a.grid_count - share && 0 < n ==> exact_quotient(
            (#[trigger] a.part(w.quote, n))->0,
            a.price@,
        )
}

/// An exact quotient does not depend on how others are rounded off, and is ten times as large
/// for ten times the dividend or a tenth of the divisor.
proof fn lemma_exact_quotient(a: int, b: int, c: int, d: int, k: int, first: bool, second: bool)
    requires
        exact_quotient(a, b),
        exact_quotient(c, d),
        k != 0,
        c * b == k * (a * d),
    ensures
        quotient_of(a, b, first) is Some,
        quotient_of(c, d, second) == Some(k * quotient_of(a, b, first)->0),
{
    let e = one();
    lemma_pow10_positive(28);
    let v = (a * e) / b;
    let w = (c * e) / d;
    lemma_exact_division(a * e, b);
    lemma_exact_division(c * e, d);
    law_quotient_exact(a, b, v, first);
    law_quotient_exact(c, d, w, second);
    let bd = b * d;
    assert(bd != 0) by (nonlinear_arith)
        requires
            b != 0,
            d != 0,
            bd == b * d,
    ;
    assert(w * bd == (c * b) * e) by (nonlinear_arith)
        requires
            c * e == w * d,
            bd == b * d,
    ;
    assert((k * v) * bd == (k * (a * d)) * e) by (nonlinear_arith)
        requires
            a * e == v * b,
            bd == b * d,
    ;
    assert(w == k * v) by (nonlinear_arith)
        requires
            w * bd == (k * v) * bd,
            bd != 0,
    ;
}

proof fn lemma_exact_division(a: int, b: int)
    requires
        b != 0,
        a % b == 0,
    ensures
        a == (a / b) * b,
{
    vstd::arithmetic::div_mod::lemma_fundamental_div_mod(a, b);
    let q = a / b;
    assert(b * q == q * b) by (nonlinear_arith);
}

/// The largest number of sell grids is where the orders are taken and of no more.
proof fn lemma_sells_are_most(a: Allocation, base: int, n: int, m: int)
    requires
        0 <= m <= n,
        m > 0 ==> a.sells_taken(base, m) == Some(true),
        forall|k: int| m < k <= n ==> #[trigger] a.sells_taken(base, k) == Some(false),
    ensures
        a.most_sells(base, n) == Some(m),
    decreases n,
{
    if m < n {
        assert(a.sells_taken(base, n) == Some(false));
        lemma_sells_are_most(a, base, n - 1, m);
    }
}

/// The largest number of buy grids is where the orders are taken and of no more.
proof fn lemma_buys_are_most(a: Allocation, quote: int, n: int, m: int, ties: ShareTies)
    requires
        0 <= m <= n,
        m > 0 ==> a.buys_taken(quote, m, (ties.buys)(m)) == Some(true),
        forall|k: int|
            m < k <= n ==> #[trigger] a.buys_taken(quote, k, (ties.buys)(k)) == Some(false),
    ensures
        a.most_buys(quote, n, ties) == Some(m),
    decreases n,
{
    if m < n {
        assert(a.buys_taken(quote, n, (ties.buys)(n)) == Some(false));
        lemma_buys_are_most(a, quote, n - 1, m, ties);
    }
}

/// Whether the one has ten times the base asset of the other at a tenth of the price.
pub open spec fn tenfold_base(a: Allocation, b: Allocation) -> bool {
    &&& b.base@ == 10 * a.base@
    &&& a.price@ == 10 * b.price@
    &&& b.min_qty@ == 10 * a.min_qty@
    &&& b.quote@ == a.quote@
    &&& b.min_notional@ == a.min_notional@
    &&& b.grid_count == a.grid_count
}

/// Ten times the base asset at a tenth of the price is worth the same.
proof fn lemma_tenfold_worth(a: Allocation, b: Allocation)
    requires
        tenfold_base(a, b),
        a.worth() is Some,
    ensures
        b.worth() == Some(Worth { base: 10 * a.worth()->0.base, ..a.worth()->0 }),
{
    let (base, price) = (a.base@, b.price@);
    assert((10 * base) * price == base * (10 * price)) by (nonlinear_arith);
    let used = a.worth()->0.base;
    assert((10 * used) * price == used * (10 * price)) by (nonlinear_arith);
}

/// The base asset counts by what it is worth alone: with ten times as much of it, at a tenth
/// of the price and where a smallest quantity is ten times as large, there are as many grids
/// on each side, each sells ten times as much and spends the same, as long as no quotient is
/// rounded off.
pub proof fn law_base_counts_by_its_worth(
    a: Allocation,
    b: Allocation,
    first: ShareTies,
    second: ShareTies,
)
    requires
        tenfold_base(a, b),
        shared_out(a, first) matches Ok(Some(_)),
        ({
            let s = shared_out(a, first)->Ok_0->0;
            let share = a.share(a.worth()->0, first.share)->0;
            shares_exactly(a, share, s.sell_grids, s.buy_grids) && shares_exactly(
                b,
                share,
                s.sell_grids,
                s.buy_grids,
            )
        }),
    ensures
        shared_out(b, second) == Ok::<Option<Shares>, Overflow>(
            Some(
                Shares {
                    sell_amount: 10 * shared_out(a, first)->Ok_0->0.sell_amount,
                    ..shared_out(a, first)->Ok_0->0
                },
            ),
        ),
{
    let s = shared_out(a, first)->Ok_0->0;
    let w = a.worth()->0;
    let v = b.worth()->0;
    let share = a.share(w, first.share)->0;
    let (p, q) = (a.price@, b.price@);
    let e = one();
    lemma_pow10_positive(28);
    law_shares_are_tradable(a, first);
    lemma_tenfold_worth(a, b);
    if w.base != 0 && w.quote != 0 {
        let weighted = product_of(whole(a.grid_count as int), w.base_value)->0;
        let total = w.total_value;
        assert(weighted * total == 1 * (weighted * total));
        lemma_exact_quotient(weighted, total, weighted, total, 1, first.share, second.share);
    }
    assert(b.share(v, second.share) == Some(share));
    assert forall|n: int| s.sell_grids <= n <= share && 0 < n implies #[trigger] b.sells_taken(
        v.base,
        n,
    ) == a.sells_taken(w.base, n) && b.part(v.base, n) == Some(10 * a.part(w.base, n)->0) by {
        lemma_tenfold_sells(a, b, w.base, n);
    }
    lemma_sells_are_most(b, v.base, share, s.sell_grids);
    assert forall|n: int|
        s.buy_grids <= n <= a.grid_count - share && 0 < n implies #[trigger] b.buys_taken(
        v.quote,
        n,
        (second.buys)(n),
    ) == a.buys_taken(w.quote, n, (first.buys)(n)) by {
        lemma_tenfold_buys(a, b, w.quote, n, (first.buys)(n), (second.buys)(n));
    }
    assert forall|n: int| s.buy_grids < n <= a.grid_count - share implies #[trigger] b.buys_taken(
        v.quote,
        n,
        (second.buys)(n),
    ) == Some(false) by {
        assert(a.buys_taken(w.quote, n, (first.buys)(n)) == Some(false));
    }
    lemma_buys_are_most(b, v.quote, a.grid_count - share, s.buy_grids, second);
    if s.sell_grids > 0 {
        assert(b.sells_taken(v.base, s.sell_grids) == a.sells_taken(w.base, s.sell_grids));
    }
}

proof fn lemma_tenfold_sells(a: Allocation, b: Allocation, base: int, n: int)
    requires
        tenfold_base(a, b),
        exact_quotient(base, whole(n)),
        exact_quotient(10 * base, whole(n)),
    ensures
        a.part(base, n) is Some,
        b.part(10 * base, n) == Some(10 * a.part(base, n)->0),
        b.sells_taken(10 * base, n) == a.sells_taken(base, n),
{
    let m = whole(n);
    assert((10 * base) * m == 10 * (base * m)) by (nonlinear_arith);
    lemma_exact_quotient(base, m, 10 * base, m, 10, false, false);
    let (quantity, price) = (a.part(base, n)->0, b.price@);
    assert((10 * quantity) * price == quantity * (10 * price)) by (nonlinear_arith);
}

proof fn lemma_tenfold_buys(
    a: Allocation,
    b: Allocation,
    quote: int,
    n: int,
    first: bool,
    second: bool,
)
    requires
        tenfold_base(a, b),
        a.part(quote, n) is Some ==> exact_quotient(a.part(quote, n)->0, a.price@),
        a.part(quote, n) is Some ==> exact_quotient(a.part(quote, n)->0, b.price@),
    ensures
        b.buys_taken(quote, n, second) == a.buys_taken(quote, n, first),
{
    if let Some(amount) = a.part(quote, n) {
        let (p, q) = (a.price@, b.price@);
        assert(amount * (10 * q) == 10 * (amount * q)) by (nonlinear_arith);
        lemma_exact_quotient(amount, p, amount, q, 10, first, second);
    }
}

/// Where a balance can be divided among the grids of its side without a rest, they use all
/// of it.
pub proof fn law_grids_use_the_balance_up(balance: int, n: int)
    requires
        n > 0,
        balance % n == 0,
        representable(balance / n),
    ensures
        amount_each(balance, n) * n == balance,
{
    let part = balance / n;
    let e = one();
    lemma_pow10_positive(28);
    assert(part * n == balance) by (nonlinear_arith)
        requires
            n > 0,
            balance % n == 0,
            part == balance / n,
    ;
    assert(n * e > 0 && (part * n) * e == part * (n * e)) by (nonlinear_arith)
        requires
            n > 0,
            e > 0,
    ;
    law_quotient_exact(balance, whole(n), part, false);
}

/// The grids that are to be laid out round a price.
#[derive(Clone, Copy, Debug)]
pub struct AutoGridLayout {
    pub user_id: i32,
    /// The price at which the lowest sell grid and the highest buy grid meet.
    pub p_floor: Decimal,
    /// The distance from one grid to the next.
    pub spacing: Decimal,
    pub sell_count: u32,
    pub buy_count: u32,
    pub sell_amount: Decimal,
    pub buy_amount: Decimal,
}

/// The price `n` spacings above another.
pub open spec fn price_above(p_floor: int, spacing: int, n: int) -> Option<int> {
    match product_of(spacing, whole(n)) {
        Some(distance) => sum_of(p_floor, distance),
        None => None,
    }
}

/// The price `n` spacings below another.
pub open spec fn price_below(p_floor: int, spacing: int, n: int) -> Option<int> {
    match product_of(spacing, whole(n)) {
        Some(distance) => difference_of(p_floor, distance),
        None => None,
    }
}

/// The price `n` spacings above another, as it is written.
pub open spec fn form_above(p_floor: (i128, u32), spacing: (i128, u32), n: int) -> Option<
    (i128, u32),
> {
    match times(spacing, (n as i128, 0)) {
        Some(distance) => plus(p_floor, distance),
        None => None,
    }
}

/// The price `n` spacings below another, as it is written.
pub open spec fn form_below(p_floor: (i128, u32), spacing: (i128, u32), n: int) -> Option<
    (i128, u32),
> {
    match times(spacing, (n as i128, 0)) {
        Some(distance) => minus(p_floor, distance),
        None => None,
    }
}

/// Whether a price and the price of its other leg can be computed.
pub open spec fn has_leg(buy_price: Option<int>, spacing: int) -> bool {
    buy_price matches Some(p) && sum_of(p, spacing) is Some
}

impl AutoGridLayout {
    /// The lowest price at which a grid buys.
    pub open spec fn lowest_buy(self) -> Option<int> {
        price_below(self.p_floor@, self.spacing@, self.buy_count as int)
    }

    /// Whether grids can be laid out: all prices are positive, and so are the amounts of
    /// the sides that have grids.
    pub open spec fn possible(self) -> bool {
        &&& self.p_floor@ > 0
        &&& self.spacing@ > 0
        &&& self.buy_count > 0 ==> self.buy_amount@ > 0 && self.lowest_buy()->0 > 0
        &&& self.sell_count > 0 ==> self.sell_amount@ > 0
    }

    /// Whether no price is too large.
    pub open spec fn computable(self) -> bool {
        &&& self.lowest_buy() is Some
        &&& self.possible() ==> {
            &&& forall|i: int|
                0 <= i < self.sell_count ==> has_leg(
                    #[trigger] price_above(self.p_floor@, self.spacing@, i),
                    self.spacing@,
                )
            &&& forall|i: int|
                1 <= i <= self.buy_count ==> has_leg(
                    #[trigger] price_below(self.p_floor@, self.spacing@, i),
                    self.spacing@,
                )
        }
    }

    /// Whether a grid is the sell grid `i` spacings up.
    pub open spec fn is_sell_grid(self, symbol: Seq<char>, i: int, g: NewUserGrid) -> bool {
        &&& g.user_id == self.user_id
        &&& g.symbol@ == symbol
        &&& g.amount == self.sell_amount
        &&& price_above(self.p_floor@, self.spacing@, i) == Some(g.buy_price@)
        &&& sum_of(g.buy_price@, self.spacing@) == Some(g.sell_price@)
        &&& form_above(self.p_floor.form(), self.spacing.form(), i) == Some(g.buy_price.form())
        &&& plus(g.buy_price.form(), self.spacing.form()) == Some(g.sell_price.form())
        &&& g.side@ == "sell"@
        &&& g.source@ == "auto"@
    }

    /// Whether a grid is the buy grid `i` spacings down.
    pub open spec fn is_buy_grid(self, symbol: Seq<char>, i: int, g: NewUserGrid) -> bool {
        &&& g.user_id == self.user_id
        &&& g.symbol@ == symbol
        &&& g.amount == self.buy_amount
        &&& price_below(self.p_floor@, self.spacing@, i) == Some(g.buy_price@)
        &&& sum_of(g.buy_price@, self.spacing@) == Some(g.sell_price@)
        &&& form_below(self.p_floor.form(), self.spacing.form(), i) == Some(g.buy_price.form())
        &&& plus(g.buy_price.form(), self.spacing.form()) == Some(g.sell_price.form())
        &&& g.side@ == "buy"@
        &&& g.source@ == "auto"@
    }

    /// Whether these are the grids: the sell grids upwards from the price, then the buy
    /// grids downwards; none where they cannot be laid out.
    pub open spec fn laid_out(self, symbol: Seq<char>, grids: Seq<NewUserGrid>) -> bool {
        if self.possible() {
            &&& grids.len() == self.sell_count + self.buy_count
            &&& forall|i: int|
                0 <= i < self.sell_count ==> self.is_sell_grid(symbol, i, #[trigger] grids[i])
            &&& forall|i: int|
                self.sell_count <= i < grids.len() ==> self.is_buy_grid(
                    symbol,
                    i - self.sell_count + 1,
                    #[trigger] grids[i],
                )
        } else {
            grids.len() == 0
        }
    }
}

/// A grid of a layout.
fn laid_out_grid(
    layout: &AutoGridLayout,
    symbol: &str,
    amount: Decimal,
    buy_price: Decimal,
    side: &str,
) -> (r: Option<NewUserGrid>)
    ensures
        match r {
            Some(g) => {
                &&& g.user_id == layout.user_id
                &&& g.symbol@ == symbol@
                &&& g.amount == amount
                &&& g.buy_price == buy_price
                &&& sum_of(buy_price@, layout.spacing@) == Some(g.sell_price@)
                &&& plus(buy_price.form(), layout.spacing.form()) == Some(g.sell_price.form())
                &&& g.side@ == side@
                &&& g.source@ == "auto"@
            },
            None => sum_of(buy_price@, layout.spacing@) is None,
        },
{
    match buy_price.checked_add(layout.spacing) {
        Some(sell_price) => Some(
            NewUserGrid {
                user_id: layout.user_id,
                amount,
                buy_price,
                sell_price,
                side: side.to_owned(),
                symbol: symbol.to_owned(),
                source: "auto".to_owned(),
            },
        ),
        None => None,
    }
}

/// The price `n` spacings above the price of a layout.
fn rung_above(layout: &AutoGridLayout, n: u32) -> (r: Option<Decimal>)
    ensures
        match r {
            Some(d) => price_above(layout.p_floor@, layout.spacing@, n as int) == Some(d@),
            None => price_above(layout.p_floor@, layout.spacing@, n as int) is None,
        },
        form_of(r) == form_above(layout.p_floor.form(), layout.spacing.form(), n as int),
{
    match layout.spacing.checked_mul(Decimal::from_u32(n)) {
        Some(distance) => layout.p_floor.checked_add(distance),
        None => None,
    }
}

/// The price `n` spacings below the price of a layout.
fn rung_below(layout: &AutoGridLayout, n: u32) -> (r: Option<Decimal>)
    ensures
        match r {
            Some(d) => price_below(layout.p_floor@, layout.spacing@, n as int) == Some(d@),
            None => price_below(layout.p_floor@, layout.spacing@, n as int) is None,
        },
        form_of(r) == form_below(layout.p_floor.form(), layout.spacing.form(), n as int),
{
    match layout.spacing.checked_mul(Decimal::from_u32(n)) {
        Some(distance) => layout.p_floor.checked_sub(distance),
        None => None,
    }
}

/// Lays out grids: the sell grids from the price upwards and the buy grids from one
/// spacing below it downwards, so that no two overlap. No grids where a price or an amount
/// would not be positive; `Err` where a price is too large.
pub fn try_build_auto_grids(layout: AutoGridLayout, symbol: &str) -> (r: Result<
    Vec<NewUserGrid>,
    Overflow,
>)
    ensures
        match r {
            Ok(grids) => layout.computable() && layout.laid_out(symbol@, grids@),
            Err(_) => !layout.computable(),
        },
{
    let zero = Decimal::zero();
    let lowest_buy = match rung_below(&layout, layout.buy_count) {
        Some(d) => d,
        None => {
            return Err(Overflow);
        },
    };
    let mut grids: Vec<NewUserGrid> = Vec::new();
    let impossible = layout.p_floor <= zero || layout.spacing <= zero || (layout.buy_count > 0 && (
    layout.buy_amount <= zero || lowest_buy <= zero)) || (layout.sell_count > 0
        && layout.sell_amount <= zero);
    assert(impossible == !layout.possible());
    if impossible {
        return Ok(grids);
    }
    let mut i: u32 = 0;
    while i < layout.sell_count
        invariant
            i <= layout.sell_count,
            layout.possible(),
            grids.len() == i,
            forall|j: int|
                0 <= j < i ==> layout.is_sell_grid(symbol@, j, #[trigger] grids@[j]) && has_leg(
                    price_above(layout.p_floor@, layout.spacing@, j),
                    layout.spacing@,
                ),
        decreases layout.sell_count - i,
    {
        let buy_price = match rung_above(&layout, i) {
            Some(d) => d,
            None => {
                assert(!has_leg(
                    price_above(layout.p_floor@, layout.spacing@, i as int),
                    layout.spacing@,
                ));
                return Err(Overflow);
            },
        };
        match laid_out_grid(&layout, symbol, layout.sell_amount, buy_price, "sell") {
            Some(g) => {
                grids.push(g);
            },
            None => {
                assert(!has_leg(
                    price_above(layout.p_floor@, layout.spacing@, i as int),
                    layout.spacing@,
                ));
                return Err(Overflow);
            },
        }
        i = i + 1;
    }
    let ghost sells = grids@;
    let mut i: u32 = 0;
    while i < layout.buy_count
        invariant
            i <= layout.buy_count,
            layout.possible(),
            sells.len() == layout.sell_count,
            grids.len() == layout.sell_count + i,
            forall|j: int| 0 <= j < layout.sell_count ==> #[trigger] grids@[j] == sells[j],
            forall|j: int|
                layout.sell_count <= j < grids.len() ==> layout.is_buy_grid(
                    symbol@,
                    j - layout.sell_count + 1,
                    #[trigger] grids@[j],
                ),
            forall|j: int|
                1 <= j <= i ==> has_leg(
                    #[trigger] price_below(layout.p_floor@, layout.spacing@, j),
                    layout.spacing@,
                ),
        decreases layout.buy_count - i,
    {
        let buy_price = match rung_below(&layout, i + 1) {
            Some(d) => d,
            None => {
                assert(!has_leg(
                    price_below(layout.p_floor@, layout.spacing@, i + 1),
                    layout.spacing@,
                ));
                return Err(Overflow);
            },
        };
        match laid_out_grid(&layout, symbol, layout.buy_amount, buy_price, "buy") {
            Some(g) => {
                grids.push(g);
            },
            None => {
                assert(!has_leg(
                    price_below(layout.p_floor@, layout.spacing@, i + 1),
                    layout.spacing@,
                ));
                return Err(Overflow);
            },
        }
        i = i + 1;
    }
    assert forall|j: int| 0 <= j < layout.sell_count implies has_leg(
        #[trigger] price_above(layout.p_floor@, layout.spacing@, j),
        layout.spacing@,
    ) by {
        assert(layout.is_sell_grid(symbol@, j, sells[j]));
    }
    Ok(grids)
}

/// Lays out grids: the sell grids from the price upwards and the buy grids from one
/// spacing below it downwards, so that no two overlap. No grids where a price or an amount
/// would not be positive.
pub fn build_auto_grids(layout: AutoGridLayout, symbol: &str) -> (r: Vec<NewUserGrid>)
    requires
        layout.computable(),
    ensures
        layout.laid_out(symbol@, r@),
{
    match try_build_auto_grids(layout, symbol) {
        Ok(grids) => grids,
        Err(_) => Vec::new(),
    }
}

/// Whether the prices of a layout have few enough digits that none is rounded off.
pub open spec fn exact_prices(layout: AutoGridLayout) -> bool {
    &&& forall|n: int|
        0 <= n <= layout.sell_count || 0 <= n <= layout.buy_count ==> representable(
            #[trigger] (layout.spacing@ * n),
        )
    &&& forall|n: int|
        -layout.buy_count <= n <= layout.sell_count ==> representable(
            layout.p_floor@ + #[trigger] (layout.spacing@ * n),
        )
}

/// Where no price has to be rounded off, the sell grids stand at the price and above it
/// and the buy grids below it, each one spacing wide and next to one another, and all
/// prices are positive. So no two grids overlap.
pub proof fn law_layout_does_not_overlap(
    layout: AutoGridLayout,
    symbol: Seq<char>,
    grids: Seq<NewUserGrid>,
    i: int,
)
    requires
        layout.possible(),
        exact_prices(layout),
        layout.laid_out(symbol, grids),
        0 <= i < grids.len(),
    ensures
        i < layout.sell_count ==> grids[i].buy_price@ == layout.p_floor@ + layout.spacing@ * i
            && grids[i].sell_price@ == layout.p_floor@ + layout.spacing@ * (i + 1),
        i >= layout.sell_count ==> grids[i].buy_price@ == layout.p_floor@ - layout.spacing@ * (i
            - layout.sell_count + 1) && grids[i].sell_price@ == layout.p_floor@ - layout.spacing@
            * (i - layout.sell_count),
        0 < grids[i].buy_price@ < grids[i].sell_price@,
{
    let p = layout.p_floor@;
    let d = layout.spacing@;
    let e = one();
    if i < layout.sell_count {
        assert(layout.is_sell_grid(symbol, i, grids[i]));
        assert(representable(d * i));
        assert(d * (i * e) == (d * i) * e) by (nonlinear_arith);
        law_product_exact(d, whole(i), d * i);
        assert(representable(p + d * i));
        law_sum_exact(p, d * i);
        assert(p + d * i + d == p + d * (i + 1)) by (nonlinear_arith);
        assert(representable(p + d * (i + 1)));
        law_sum_exact(p + d * i, d);
        assert(d * i >= 0) by (nonlinear_arith)
            requires
                d > 0,
                i >= 0,
        ;
    } else {
        let n = i - layout.sell_count + 1;
        assert(layout.is_buy_grid(symbol, n, grids[i]));
        assert(representable(d * n));
        assert(d * (n * e) == (d * n) * e) by (nonlinear_arith);
        law_product_exact(d, whole(n), d * n);
        assert(d * (-n) == -(d * n)) by (nonlinear_arith);
        assert(representable(p + d * (-n)));
        law_difference_exact(p, d * n);
        assert(p - d * n + d == p + d * (-(n - 1))) by (nonlinear_arith);
        assert(d * (-(n - 1)) == -(d * (n - 1))) by (nonlinear_arith);
        assert(representable(p + d * (-(n - 1))));
        law_sum_exact(p - d * n, d);
        let most = layout.buy_count as int;
        assert(representable(d * most));
        assert(d * (most * e) == (d * most) * e) by (nonlinear_arith);
        law_product_exact(d, whole(most), d * most);
        assert(d * (-most) == -(d * most)) by (nonlinear_arith);
        assert(representable(p + d * (-most)));
        law_difference_exact(p, d * most);
        assert(d * n <= d * most) by (nonlinear_arith)
            requires
                d > 0,
                n <= most,
        ;
    }
}

/// All prices of a layout are positive, and no grid sells below the price at which it buys.
pub proof fn law_layout_has_positive_prices(
    layout: AutoGridLayout,
    symbol: Seq<char>,
    grids: Seq<NewUserGrid>,
    i: int,
)
    requires
        layout.possible(),
        layout.computable(),
        layout.laid_out(symbol, grids),
        0 <= i < grids.len(),
    ensures
        0 < grids[i].buy_price@ <= grids[i].sell_price@,
{
    let p = layout.p_floor@;
    let d = layout.spacing@;
    let e = one();
    let buy = grids[i].buy_price@;
    lemma_pow10_positive(28);
    if i < layout.sell_count {
        assert(layout.is_sell_grid(symbol, i, grids[i]));
        assert(d * (i * e) >= 0) by (nonlinear_arith)
            requires
                d > 0,
                i >= 0,
                e > 0,
        ;
        lemma_nearest_sign(d * whole(i), e, false);
        let distance = product_of(d, whole(i))->0;
        lemma_positive_stays(p + distance);
        lemma_nearest_from_is_number(p + distance, 1, 0, false);
    } else {
        let n = i - layout.sell_count + 1;
        let most = layout.buy_count as int;
        assert(layout.is_buy_grid(symbol, n, grids[i]));
        assert(0 <= d * (n * e) <= d * (most * e)) by (nonlinear_arith)
            requires
                d > 0,
                0 <= n <= most,
                e > 0,
        ;
        lemma_nearest_order(d * whole(n), d * whole(most), e);
        let distance = product_of(d, whole(n))->0;
        let farthest = product_of(d, whole(most))->0;
        if p - farthest <= 0 {
            lemma_nearest_sign(p - farthest, 1, false);
        }
        lemma_positive_stays(p - distance);
        lemma_nearest_from_is_number(p - distance, 1, 0, false);
    }
    lemma_nearest_exact(buy, 1, buy, false);
    lemma_nearest_order(buy, buy + d, 1);
}

/// The lowest multiple of the spacing that is not below a price; `None` where it cannot be
/// computed. Where the quotient lies halfway between two numbers, `odd` says which it is
/// rounded off to.
pub open spec fn price_floor(price: int, spacing: int, odd: bool) -> Option<int> {
    match quotient_of(price, spacing, odd) {
        Some(quotient) => product_of(ceiling_of(quotient), spacing),
        None => None,
    }
}

/// The lowest multiple of the spacing that is not below a price, as it is written.
pub open spec fn floor_price_form(price: (i128, u32), spacing: (i128, u32)) -> Option<
    (i128, u32),
> {
    match over(price, spacing) {
        Some(quotient) => times(ceiling_form(quotient), spacing),
        None => None,
    }
}

/// Whether this is the lowest multiple of the spacing that is not below a price.
pub open spec fn is_price_floor(price: Decimal, spacing: Decimal, r: Option<Decimal>) -> bool {
    let odd = tie(price.form(), spacing.form());
    &&& spacing.ties(odd)
    &&& match r {
        Some(d) => price_floor(price@, spacing@, odd) == Some(d@),
        None => price_floor(price@, spacing@, odd) is None,
    }
    &&& form_of(r) == floor_price_form(price.form(), spacing.form())
}

/// The lowest multiple of the spacing that is not below a price.
pub fn try_price_floor(price: Decimal, spacing: Decimal) -> (r: Option<Decimal>)
    ensures
        is_price_floor(price, spacing, r),
{
    match price.checked_div(spacing) {
        Some(quotient) => quotient.ceil().checked_mul(spacing),
        None => None,
    }
}

/// The grids are laid out round the lowest multiple of the spacing that is not below the
/// price, so that the price is where the highest buy grid is, unless that multiple has too
/// many digits to be a number, or the quotient has so many that rounding it off reaches
/// another whole number.
pub proof fn law_price_floor_is_not_below(price: int, spacing: int, odd: bool)
    requires
        spacing > 0,
        quotient_of(price, spacing, odd) is Some,
        ceiling_of(quotient_of(price, spacing, odd)->0) == whole(-((-price) / spacing)),
        representable(-((-price) / spacing) * spacing),
    ensures
        price_floor(price, spacing, odd) == Some(-((-price) / spacing) * spacing),
        price_floor(price, spacing, odd)->0 - spacing < price <= price_floor(
            price,
            spacing,
            odd,
        )->0,
{
    let n = -((-price) / spacing);
    let e = one();
    assert((n * e) * spacing == (n * spacing) * e) by (nonlinear_arith);
    law_product_exact(whole(n), spacing, n * spacing);
    assert(n * spacing - spacing < price <= n * spacing) by (nonlinear_arith)
        requires
            spacing > 0,
            n == -((-price) / spacing),
    ;
}

/// For a price that is not negative, and is counted with the spacing in a common unit in few
/// enough digits, it always is the lowest multiple that is not below the price.
pub proof fn law_short_price_floor_is_not_below(price: int, spacing: int, k: nat, odd: bool)
    requires
        short(price, spacing),
        k <= 28,
    ensures
        price_floor(price * pow10(k), spacing * pow10(k), odd) == Some(
            (-((-price) / spacing) * spacing) * pow10(k),
        ),
        -((-price) / spacing) * spacing - spacing < price <= -((-price) / spacing) * spacing,
{
    let n = price / spacing;
    let c = -((-price) / spacing);
    let p = pow10(k);
    let e = one();
    lemma_pow10_positive(k);
    lemma_pow10_positive(28);
    lemma_common_unit(price, spacing, p);
    lemma_common_unit(-price, spacing, p);
    assert((-price) * p == -(price * p)) by (nonlinear_arith);
    lemma_short_quotient(price, spacing, k, odd);
    let w = quotient_of(price * p, spacing * p, odd)->0;
    assert(c * spacing - spacing < price <= c * spacing) by (nonlinear_arith)
        requires
            spacing > 0,
            c == -((-price) / spacing),
    ;
    assert(c == if price % spacing == 0 {
        n
    } else {
        n + 1
    }) by (nonlinear_arith)
        requires
            spacing > 0,
            c * spacing - spacing < price <= c * spacing,
            n == price / spacing,
    ;
    assert((c - 1) * e == c * e - e) by (nonlinear_arith);
    if price % spacing != 0 {
        assert(c - 1 == n);
        assert(n * e == c * e - e);
    }
    assert((-w) / e == -c) by (nonlinear_arith)
        requires
            e > 0,
            c * e - e < w <= c * e,
    ;
    assert(-((-c) * e) == c * e) by (nonlinear_arith);
    assert(0 <= c * spacing) by (nonlinear_arith)
        requires
            price >= 0,
            price <= c * spacing,
    ;
    assert(c * (spacing * p) == (c * spacing) * p) by (nonlinear_arith);
    law_price_floor_is_not_below(price * p, spacing * p, odd);
}

/// Whether the grids of the two sides are as fairly shared as they can be: of so many grids the
/// sells get the whole number next to their part of the value, but at least one, and all but
/// one at most. The part may be off by half a grid times `more / less`.
pub open spec fn fair_share(
    n: int,
    grid_count: int,
    base_value: int,
    total_value: int,
    more: int,
    less: int,
) -> bool {
    &&& 1 <= n <= grid_count - 1
    &&& n == 1 || 2 * (n * total_value - grid_count * base_value) * less <= total_value * more
    &&& n == grid_count - 1 || 2 * (grid_count * base_value - n * total_value) * less
        <= total_value * more
}

/// Whether a share that lies halfway between two numbers of grids is the even one, unless a side
/// would have no grid.
pub open spec fn halves_go_to_the_even(
    n: int,
    grid_count: int,
    base_value: int,
    total_value: int,
) -> bool {
    &&& 2 * (n * total_value - grid_count * base_value) == total_value ==> n % 2 == 0 || n == 1
    &&& 2 * (grid_count * base_value - n * total_value) == total_value ==> n % 2 == 0 || n
        == grid_count - 1
}

/// Whether both balances are used, and what the base asset is worth, `base_value`, what both
/// are worth together and so many times that are numbers.
pub open spec fn both_count(a: Allocation, base_value: int) -> bool {
    &&& a.base@ > 0
    &&& a.quote@ > 0
    &&& a.base@ * a.price@ == base_value * one()
    &&& base_value > 0
    &&& base_value >= a.min_notional@
    &&& a.quote@ >= a.min_notional@
    &&& representable(base_value)
    &&& representable(base_value + a.quote@)
    &&& representable(a.grid_count * base_value)
    &&& a.grid_count >= 2
}

proof fn lemma_both_count(a: Allocation, base_value: int)
    requires
        both_count(a, base_value),
    ensures
        a.worth() == Some(
            Worth {
                base: a.base@,
                quote: a.quote@,
                base_value,
                total_value: base_value + a.quote@,
            },
        ),
        product_of(whole(a.grid_count as int), base_value) == Some(a.grid_count * base_value),
{
    let (n, e) = (a.grid_count as int, one());
    law_product_exact(a.base@, a.price@, base_value);
    law_sum_exact(base_value, a.quote@);
    assert((n * e) * base_value == (n * base_value) * e) by (nonlinear_arith);
    law_product_exact(whole(n), base_value, n * base_value);
}

/// The share of the base asset, and how far it is off.
proof fn lemma_fair_share(a: Allocation, base_value: int, odd: bool)
    requires
        both_count(a, base_value),
        a.worth() is Some,
        a.share(a.worth()->0, odd) is Some,
    ensures
        ({
            let total = base_value + a.quote@;
            let n = a.share(a.worth()->0, odd)->0;
            let count = a.grid_count as int;
            &&& fair_share(
                n,
                count,
                base_value,
                total,
                100_000_000_000_000_001,
                100_000_000_000_000_000,
            )
            &&& exact_quotient(count * base_value, total) ==> fair_share(
                n,
                count,
                base_value,
                total,
                1,
                1,
            ) && halves_go_to_the_even(n, count, base_value, total)
        }),
{
    lemma_both_count(a, base_value);
    let total = base_value + a.quote@;
    let count = a.grid_count as int;
    let e = one();
    let part = count * base_value;
    let exact = quotient_of(part, total, odd)->0;
    let slack = pow10(10);
    lemma_pow10_positive(28);
    lemma_pow10_positive(10);
    lemma_pow10_sum(18, 10);
    assert(pow10(18) == 1_000_000_000_000_000_000) by {
        reveal_with_fuel(pow10, 19);
    }
    assert(slack == 10_000_000_000) by {
        reveal_with_fuel(pow10, 11);
    }
    // How far the quotient is rounded off.
    let d = total * slack;
    assert(d > 0 && part * e >= 0 && part <= count * total) by (nonlinear_arith)
        requires
            total > 0,
            slack > 0,
            d == total * slack,
            part == count * base_value,
            0 < base_value <= total,
            count > 0,
            e > 0,
    ;
    let top = count * 1_000_000_000_000_000_000;
    assert(part * e <= top * d) by (nonlinear_arith)
        requires
            part <= count * total,
            e == 1_000_000_000_000_000_000 * slack,
            d == total * slack,
            top == count * 1_000_000_000_000_000_000,
            slack > 0,
            total > 0,
    ;
    assert((part * e) / d <= top) by (nonlinear_arith)
        requires
            part * e <= top * d,
            d > 0,
    ;
    lemma_nearest_is_near(part * e, total, 10, odd);
    // How far the nearest whole number is from it.
    lemma_rounding_is_near(exact);
    let m = rounding_of(exact) / e;
    let off = rounding_of(exact) - exact;
    assert(m >= 0) by (nonlinear_arith)
        requires
            m * e >= 0,
            e > 0,
    ;
    assert((m * e) * total == exact * total + off * total) by (nonlinear_arith)
        requires
            m * e == exact + off,
    ;
    assert(-(e * total) <= 2 * (off * total) <= e * total) by (nonlinear_arith)
        requires
            -e <= 2 * off <= e,
            total > 0,
    ;
    let st = slack * total;
    let near = (m * total - part) * e;
    assert(near == (m * e) * total - part * e) by (nonlinear_arith)
        requires
            near == (m * total - part) * e,
    ;
    assert(-(e * total) - 2 * st <= 2 * near <= e * total + 2 * st);
    let x = 2 * (m * total - part);
    assert(2 * near == x * e) by (nonlinear_arith)
        requires
            near == (m * total - part) * e,
            x == 2 * (m * total - part),
    ;
    let g = 1_000_000_000_000_000_000 * 10_000_000_000;
    assert(e == g);
    assert(e * total == 10_000_000_000_000_000_000_000_000_000 * total);
    assert(st == 10_000_000_000 * total);
    assert(x * 100_000_000_000_000_000 <= total * 100_000_000_000_000_001 && -x
        * 100_000_000_000_000_000 <= total * 100_000_000_000_000_001) by (nonlinear_arith)
        requires
            x * e <= e * total + 2 * st,
            -(e * total) - 2 * st <= x * e,
            e == 10_000_000_000_000_000_000_000_000_000,
            e * total == 10_000_000_000_000_000_000_000_000_000 * total,
            st == 10_000_000_000 * total,
            total > 0,
    ;
    assert(m <= count) by (nonlinear_arith)
        requires
            x == 2 * (m * total - part),
            x * 100_000_000_000_000_000 <= total * 100_000_000_000_000_001,
            part <= count * total,
            total > 0,
    ;
    let n = a.share(a.worth()->0, odd)->0;
    assert(rounded_count(exact) == m);
    assert(n == if m == 0 {
        1
    } else if m == count {
        count - 1
    } else {
        m
    });
    if exact_quotient(part, total) {
        lemma_exact_division(part * e, total);
        law_quotient_exact(part, total, (part * e) / total, odd);
        assert(-total <= x <= total) by (nonlinear_arith)
            requires
                x * e == 2 * (off * total),
                -(e * total) <= 2 * (off * total) <= e * total,
                e > 0,
        ;
        if 2 * off == e || 2 * off == -e {
            lemma_rounding_to_even(exact);
        }
        assert(2 * off == e ==> m % 2 == 0);
        assert(2 * off == -e ==> m % 2 == 0);
        assert(x == total ==> 2 * off == e) by (nonlinear_arith)
            requires
                x * e == 2 * (off * total),
                total > 0,
        ;
        assert(x == -total ==> 2 * off == -e) by (nonlinear_arith)
            requires
                x * e == 2 * (off * total),
                total > 0,
        ;
        assert((count - 1) * total == count * total - total) by (nonlinear_arith);
        assert(m == 0 ==> m * total == 0) by (nonlinear_arith);
        assert(m == count ==> m * total == count * total);
    }
    assert((count - 1) * total - part <= m * total - part || m != count) by (nonlinear_arith)
        requires
            total > 0,
    ;
    assert(part - 1 * total <= part - m * total || m != 0) by (nonlinear_arith)
        requires
            total > 0,
    ;
}

/// Where both balances are used, the grids are shared out by what the balances are worth: the
/// sells get the whole number of grids that is nearest to the part of the base asset in the
/// total value, but each side gets at least one. Sides may only have fewer grids than that
/// where the exchange would not take their orders. Where the part is a number, `exactly`, it is
/// the nearest whole number without any slack.
pub proof fn law_grids_are_shared_out_by_worth(
    a: Allocation,
    sells: u32,
    buys: u32,
    sold: Decimal,
    spent: Decimal,
    base_value: int,
)
    requires
        call_ensures(
            try_allocate_grids,
            (a,),
            Ok::<Option<(u32, u32, Decimal, Decimal)>, Overflow>(Some((sells, buys, sold, spent))),
        ),
        both_count(a, base_value),
    ensures
        ({
            let count = a.grid_count as int;
            let total = base_value + a.quote@;
            let exactly = exact_quotient(count * base_value, total);
            &&& shares_fairly(
                sells as int,
                buys as int,
                count,
                base_value,
                total,
                100_000_000_000_000_001,
                100_000_000_000_000_000,
            )
            &&& exactly ==> shares_fairly(
                sells as int,
                buys as int,
                count,
                base_value,
                total,
                1,
                1,
            )
            &&& sells + buys == count && exactly ==> fair_share(
                sells as int,
                count,
                base_value,
                total,
                1,
                1,
            ) && halves_go_to_the_even(sells as int, count, base_value, total)
        }),
{
    let ties = a.ties();
    let count = a.grid_count as int;
    let total = base_value + a.quote@;
    law_shares_are_tradable(a, ties);
    lemma_both_count(a, base_value);
    lemma_fair_share(a, base_value, ties.share);
    let n = a.share(a.worth()->0, ties.share)->0;
    assert(fair_share(
        n,
        count,
        base_value,
        total,
        100_000_000_000_000_001,
        100_000_000_000_000_000,
    ));
    if exact_quotient(count * base_value, total) {
        assert(fair_share(n, count, base_value, total, 1, 1));
    }
}

/// Whether the sides have at most the grids of a fair share.
pub open spec fn shares_fairly(
    sells: int,
    buys: int,
    grid_count: int,
    base_value: int,
    total_value: int,
    more: int,
    less: int,
) -> bool {
    exists|n: int| #[trigger]
        fair_share(n, grid_count, base_value, total_value, more, less) && 0 <= sells <= n && 0
            <= buys <= grid_count - n
}

/// A side whose balance counts as nothing has no grid, and then all grids may go to the other.
pub proof fn law_unused_balances_get_no_grid(
    a: Allocation,
    sells: u32,
    buys: u32,
    sold: Decimal,
    spent: Decimal,
    base_value: int,
)
    requires
        call_ensures(
            try_allocate_grids,
            (a,),
            Ok::<Option<(u32, u32, Decimal, Decimal)>, Overflow>(Some((sells, buys, sold, spent))),
        ),
        representable(base_value),
        a.base@ * a.price@ == base_value * one(),
    ensures
        1 <= sells + buys <= a.grid_count,
        a.price@ > 0,
        base_value < a.min_notional@ ==> sells == 0 && sold@ == 0,
        a.quote@ < a.min_notional@ ==> buys == 0 && spent@ == 0,
{
    law_shares_are_tradable(a, a.ties());
    law_product_exact(a.base@, a.price@, base_value);
    let p = a.price@;
    assert(0 * p == 0 && 0 * one() == 0 && 0 * pow10(0) == 0);
    assert(representable(0));
    law_product_exact(0, p, 0);
    lemma_most_buys(
        a,
        a.worth()->0.quote,
        a.grid_count - a.share(a.worth()->0, a.ties().share)->0,
        a.ties(),
    );
    lemma_share(a, a.worth()->0, a.ties().share);
    if a.quote@ < a.min_notional@ && buys > 0 {
        let b = buys as int;
        let e = one();
        lemma_pow10_positive(28);
        assert(b * e > 0 && 0 * e == 0 * (b * e)) by (nonlinear_arith)
            requires
                b > 0,
                e > 0,
        ;
        law_quotient_exact(0, whole(b), 0, false);
    }
}

/// What each grid gets is its part of the balance: so many times that is the balance, where it
/// can be divided without a rest.
pub proof fn law_each_grid_gets_its_part(
    a: Allocation,
    sells: u32,
    buys: u32,
    sold: Decimal,
    spent: Decimal,
    base_value: int,
)
    requires
        call_ensures(
            try_allocate_grids,
            (a,),
            Ok::<Option<(u32, u32, Decimal, Decimal)>, Overflow>(Some((sells, buys, sold, spent))),
        ),
        representable(base_value),
        a.base@ * a.price@ == base_value * one(),
        base_value >= a.min_notional@,
        base_value >= 0,
        a.quote@ >= a.min_notional@,
        a.quote@ >= 0,
    ensures
        sells > 0 && a.base@ % (sells as int) == 0 && representable(a.base@ / (sells as int))
            ==> sold@ * sells == a.base@,
        buys > 0 && a.quote@ % (buys as int) == 0 && representable(a.quote@ / (buys as int))
            ==> spent@ * buys == a.quote@,
        sells == 0 ==> sold@ == 0,
        buys == 0 ==> spent@ == 0,
{
    law_product_exact(a.base@, a.price@, base_value);
    if sells > 0 && a.base@ % (sells as int) == 0 && representable(a.base@ / (sells as int)) {
        law_grids_use_the_balance_up(a.base@, sells as int);
    }
    if buys > 0 && a.quote@ % (buys as int) == 0 && representable(a.quote@ / (buys as int)) {
        law_grids_use_the_balance_up(a.quote@, buys as int);
    }
}

/// The exchange takes the orders of every grid: each sells at least the smallest quantity, each
/// buys at least that for what it spends, and each is worth the smallest value of an order.
/// `value` is what each sells, times the price; `bought` what each buys, where they are numbers.
pub proof fn law_shared_out_orders_are_taken(
    a: Allocation,
    sells: u32,
    buys: u32,
    sold: Decimal,
    spent: Decimal,
    value: int,
    bought: int,
)
    requires
        call_ensures(
            try_allocate_grids,
            (a,),
            Ok::<Option<(u32, u32, Decimal, Decimal)>, Overflow>(Some((sells, buys, sold, spent))),
        ),
    ensures
        sells > 0 ==> sold@ >= a.min_qty@,
        sells > 0 && representable(value) && value * one() == sold@ * a.price@ ==> value
            >= a.min_notional@ && value >= 0,
        buys > 0 ==> spent@ >= a.min_notional@ && spent@ >= 0,
        buys > 0 && representable(bought) && bought * a.price@ == spent@ * one() ==> bought
            >= a.min_qty@,
{
    let ties = a.ties();
    law_shares_are_tradable(a, ties);
    if representable(value) && value * one() == sold@ * a.price@ {
        law_product_exact(sold@, a.price@, value);
    }
    if representable(bought) && bought * a.price@ == spent@ * one() {
        law_quotient_exact(spent@, a.price@, bought, (ties.buys)(buys as int));
    }
}

/// No side has fewer grids than it could: where it has fewer than its share, `share`, of the
/// value, an order of one grid more would be too small. `part` is what a grid would then get of
/// the balance, `value` what that is worth.
pub proof fn law_sides_have_as_many_grids_as_are_taken(
    a: Allocation,
    sells: u32,
    buys: u32,
    sold: Decimal,
    spent: Decimal,
    base_value: int,
    n: int,
    part: int,
    value: int,
)
    requires
        call_ensures(
            try_allocate_grids,
            (a,),
            Ok::<Option<(u32, u32, Decimal, Decimal)>, Overflow>(Some((sells, buys, sold, spent))),
        ),
        both_count(a, base_value),
        n > 0,
        representable(part),
        representable(value),
    ensures
        exists|share: int| #[trigger]
            fair_share(
                share,
                a.grid_count as int,
                base_value,
                base_value + a.quote@,
                100_000_000_000_000_001,
                100_000_000_000_000_000,
            ) && (sells < n <= share && part * n == a.base@ && value * one() == part * a.price@
                ==> part < a.min_qty@ || value < a.min_notional@ || value < 0) && (buys < n
                <= a.grid_count - share && part * n == a.quote@ && value * a.price@ == part * one()
                ==> part < a.min_notional@ || part < 0 || value < a.min_qty@),
{
    let ties = a.ties();
    let count = a.grid_count as int;
    let e = one();
    law_shares_are_tradable(a, ties);
    lemma_both_count(a, base_value);
    lemma_fair_share(a, base_value, ties.share);
    lemma_pow10_positive(28);
    let share = a.share(a.worth()->0, ties.share)->0;
    assert(n * e > 0) by (nonlinear_arith)
        requires
            n > 0,
            e > 0,
    ;
    if sells < n <= share && part * n == a.base@ && value * one() == part * a.price@ {
        assert((part * n) * e == part * (n * e)) by (nonlinear_arith);
        law_quotient_exact(a.base@, whole(n), part, false);
        law_product_exact(part, a.price@, value);
        assert(a.sells_taken(a.base@, n) == Some(false));
    }
    if buys < n <= count - share && part * n == a.quote@ && value * a.price@ == part * one() {
        assert((part * n) * e == part * (n * e)) by (nonlinear_arith);
        law_quotient_exact(a.quote@, whole(n), part, false);
        law_quotient_exact(part, a.price@, value, (ties.buys)(n));
        assert(a.buys_taken(a.quote@, n, (ties.buys)(n)) == Some(false));
    }
    assert(fair_share(
        share,
        count,
        base_value,
        base_value + a.quote@,
        100_000_000_000_000_001,
        100_000_000_000_000_000,
    ));
}

/// A balance that alone is used has as many grids as its orders are taken of, up to all of
/// them: where it has fewer, an order of one grid more would be too small. `part` is what a grid
/// would then get of the balance, `value` what that is worth, or what it buys.
pub proof fn law_a_single_balance_may_have_all_grids(
    a: Allocation,
    sells: u32,
    buys: u32,
    sold: Decimal,
    spent: Decimal,
    base_value: int,
    n: int,
    part: int,
    value: int,
)
    requires
        call_ensures(
            try_allocate_grids,
            (a,),
            Ok::<Option<(u32, u32, Decimal, Decimal)>, Overflow>(Some((sells, buys, sold, spent))),
        ),
        representable(base_value),
        a.base@ * a.price@ == base_value * one(),
        0 < n <= a.grid_count,
        representable(part),
        representable(value),
    ensures
        a.base@ != 0 && a.quote@ < a.min_notional@ && sells < n && part * n == a.base@ && value
            * one() == part * a.price@ ==> part < a.min_qty@ || value < a.min_notional@ || value
            < 0,
        base_value < a.min_notional@ && buys < n && part * n == a.quote@ && value * a.price@ == part
            * one() ==> part < a.min_notional@ || part < 0 || value < a.min_qty@,
{
    let ties = a.ties();
    let e = one();
    let p = a.price@;
    law_shares_are_tradable(a, ties);
    law_product_exact(a.base@, p, base_value);
    assert(0 * p == 0 && 0 * e == 0 && 0 * pow10(0) == 0);
    assert(representable(0));
    law_product_exact(0, p, 0);
    lemma_pow10_positive(28);
    assert(n * e > 0) by (nonlinear_arith)
        requires
            n > 0,
            e > 0,
    ;
    let w = a.worth()->0;
    law_sum_exact(0, 0);
    if a.base@ != 0 && a.quote@ < a.min_notional@ && sells < n && part * n == a.base@ && value
        * one() == part * p {
        assert((part * n) * e == part * (n * e)) by (nonlinear_arith);
        law_quotient_exact(a.base@, whole(n), part, false);
        law_product_exact(part, p, value);
        assert(w.quote == 0 && w.base == a.base@);
        assert(a.sells_taken(w.base, n) == Some(false));
    }
    if base_value < a.min_notional@ && buys < n && part * n == a.quote@ && value * p == part
        * one() {
        assert(w.base == 0 && w.quote == a.quote@);
        assert((part * n) * e == part * (n * e)) by (nonlinear_arith);
        law_quotient_exact(a.quote@, whole(n), part, false);
        law_quotient_exact(part, p, value, (ties.buys)(n));
        assert(a.buys_taken(w.quote, n, (ties.buys)(n)) == Some(false));
    }
}

/// Where the whole balance of a side makes an order that the exchange takes, that side gets a
/// grid, if both balances are used. `bought` is what the balance of the quote asset buys.
pub proof fn law_what_can_be_traded_is_shared_out(
    a: Allocation,
    r: Option<(u32, u32, Decimal, Decimal)>,
    base_value: int,
    bought: int,
)
    requires
        call_ensures(
            try_allocate_grids,
            (a,),
            Ok::<Option<(u32, u32, Decimal, Decimal)>, Overflow>(r),
        ),
        both_count(a, base_value),
        a.price@ > 0,
        representable(a.base@),
        representable(a.quote@),
        representable(bought),
        bought * a.price@ == a.quote@ * one(),
    ensures
        a.base@ >= a.min_qty@ ==> (r matches Some(shares) && shares.0 >= 1),
        bought >= a.min_qty@ ==> (r matches Some(shares) && shares.1 >= 1),
{
    let ties = a.ties();
    let e = one();
    lemma_both_count(a, base_value);
    lemma_pow10_positive(28);
    let w = a.worth()->0;
    assert(1 * e == e && a.base@ * e == a.base@ * (1 * e) && a.quote@ * e == a.quote@ * (1 * e));
    law_quotient_exact(a.base@, whole(1), a.base@, false);
    law_quotient_exact(a.quote@, whole(1), a.quote@, false);
    law_product_exact(a.base@, a.price@, base_value);
    law_quotient_exact(a.quote@, a.price@, bought, (ties.buys)(1));
    if let Some(share) = a.share(w, ties.share) {
        lemma_share(a, w, ties.share);
        if a.most_sells(w.base, share) is Some {
            lemma_most_sells(a, w.base, share);
        }
        if a.most_buys(w.quote, a.grid_count - share, ties) is Some {
            lemma_most_buys(a, w.quote, a.grid_count - share, ties);
        }
    }
    assert(a.base@ >= a.min_qty@ ==> a.sells_taken(w.base, 1) == Some(true));
    assert(bought >= a.min_qty@ ==> a.buys_taken(w.quote, 1, (ties.buys)(1)) == Some(true));
}

/// The grid at a place of a layout: the sells stand at the price and above it, the buys below
/// it, each one spacing wide and next to the one before.
pub open spec fn stands_at(layout: AutoGridLayout, symbol: Seq<char>, i: int, g: NewUserGrid)
    -> bool {
    let down = i - layout.sell_count + 1;
    &&& g.user_id == layout.user_id
    &&& g.symbol@ == symbol
    &&& g.source@ == "auto"@
    &&& i < layout.sell_count ==> g.side@ == "sell"@ && g.amount == layout.sell_amount
        && g.buy_price@ == layout.p_floor@ + layout.spacing@ * i && g.sell_price@
        == layout.p_floor@ + layout.spacing@ * (i + 1)
    &&& i >= layout.sell_count ==> g.side@ == "buy"@ && g.amount == layout.buy_amount
        && g.buy_price@ == layout.p_floor@ - layout.spacing@ * down && g.sell_price@
        == layout.p_floor@ - layout.spacing@ * (down - 1)
}

/// Where no price is rounded off, grids are laid out if and only if every price and every
/// amount is positive; then there are as many as were asked for, each in its place.
pub proof fn law_grids_are_laid_out_side_by_side(
    layout: AutoGridLayout,
    symbol: &str,
    grids: Vec<NewUserGrid>,
)
    requires
        call_ensures(
            try_build_auto_grids,
            (layout, symbol),
            Ok::<Vec<NewUserGrid>, Overflow>(grids),
        ),
        exact_prices(layout),
    ensures
        ({
            let positive = {
                &&& layout.p_floor@ > 0
                &&& layout.spacing@ > 0
                &&& layout.buy_count > 0 ==> layout.buy_amount@ > 0 && layout.p_floor@
                    - layout.spacing@ * layout.buy_count > 0
                &&& layout.sell_count > 0 ==> layout.sell_amount@ > 0
            };
            &&& positive ==> grids.len() == layout.sell_count + layout.buy_count
            &&& !positive ==> grids.len() == 0
            &&& forall|i: int|
                0 <= i < grids.len() ==> stands_at(layout, symbol@, i, #[trigger] grids@[i])
        }),
{
    let p = layout.p_floor@;
    let d = layout.spacing@;
    let e = one();
    let most = layout.buy_count as int;
    assert(representable(d * most));
    assert(d * (most * e) == (d * most) * e) by (nonlinear_arith);
    law_product_exact(d, whole(most), d * most);
    assert(d * (-most) == -(d * most)) by (nonlinear_arith);
    assert(representable(p + d * (-most)));
    law_difference_exact(p, d * most);
    assert forall|i: int| 0 <= i < grids.len() implies stands_at(
        layout,
        symbol@,
        i,
        #[trigger] grids@[i],
    ) by {
        law_layout_does_not_overlap(layout, symbol@, grids@, i);
        if i < layout.sell_count {
            assert(layout.is_sell_grid(symbol@, i, grids@[i]));
        } else {
            assert(layout.is_buy_grid(symbol@, i - layout.sell_count + 1, grids@[i]));
        }
    }
}

/// Grids are laid out round the lowest multiple of the spacing that is not below a price, as
/// long as the two have few enough digits.
pub proof fn law_price_floors_are_the_next_multiple(
    price: Decimal,
    spacing: Decimal,
    r: Option<Decimal>,
    v: int,
    s: int,
    k: nat,
)
    requires
        call_ensures(try_price_floor, (price, spacing), r),
        short(v, s),
        k <= 28,
        price@ == v * pow10(k),
        spacing@ == s * pow10(k),
    ensures
        r matches Some(d) && d@ - spacing@ < price@ <= d@ && d@ % spacing@ == 0,
{
    lemma_next_multiple(price, spacing, r, v, s, k);
}

/// The lowest multiple that is not below a price.
pub proof fn lemma_next_multiple(
    price: Decimal,
    spacing: Decimal,
    r: Option<Decimal>,
    v: int,
    s: int,
    k: nat,
)
    requires
        is_price_floor(price, spacing, r),
        short(v, s),
        k <= 28,
        price@ == v * pow10(k),
        spacing@ == s * pow10(k),
    ensures
        r matches Some(d) && d@ - spacing@ < price@ <= d@ && d@ % spacing@ == 0,
{
    let p = pow10(k);
    let c = -((-v) / s);
    lemma_pow10_positive(k);
    law_short_price_floor_is_not_below(v, s, k, tie(price.form(), spacing.form()));
    assert((c * s) * p - s * p < v * p && v * p <= (c * s) * p && (c * s) * p == c * (s * p)) by (
    nonlinear_arith)
        requires
            c * s - s < v <= c * s,
            p > 0,
    ;
    assert(s * p > 0) by (nonlinear_arith)
        requires
            s > 0,
            p > 0,
    ;
    vstd::arithmetic::div_mod::lemma_mod_multiples_basic(c, s * p);
}

/// Whether grids are laid out round a price: the lowest sell buys back at a multiple of the
/// spacing that is less than a spacing above the price, or at it, and the highest buy sells
/// there, so that the price is where the two sides meet.
pub open spec fn laid_out_round(
    price: int,
    layout: AutoGridLayout,
    symbol: Seq<char>,
    grids: Seq<NewUserGrid>,
) -> bool {
    &&& layout.p_floor@ - layout.spacing@ < price <= layout.p_floor@
    &&& layout.p_floor@ % layout.spacing@ == 0
    &&& grids.len() == layout.sell_count + layout.buy_count || grids.len() == 0
    &&& exact_prices(layout) ==> forall|i: int|
        0 <= i < grids.len() ==> stands_at(layout, symbol, i, #[trigger] grids[i])
}

/// Grids round the lowest multiple that is not below a price are laid out round the price.
pub proof fn lemma_laid_out_round(
    price: Decimal,
    layout: AutoGridLayout,
    symbol: Seq<char>,
    grids: Seq<NewUserGrid>,
    v: int,
    s: int,
    k: nat,
)
    requires
        is_price_floor(price, layout.spacing, Some(layout.p_floor)),
        layout.laid_out(symbol, grids),
        short(v, s),
        k <= 28,
        price@ == v * pow10(k),
        layout.spacing@ == s * pow10(k),
    ensures
        laid_out_round(price@, layout, symbol, grids),
{
    lemma_next_multiple(price, layout.spacing, Some(layout.p_floor), v, s, k);
    if exact_prices(layout) {
        assert forall|i: int| 0 <= i < grids.len() implies stands_at(
            layout,
            symbol,
            i,
            #[trigger] grids[i],
        ) by {
            law_layout_does_not_overlap(layout, symbol, grids, i);
            if i < layout.sell_count {
                assert(layout.is_sell_grid(symbol, i, grids[i]));
            } else {
                assert(layout.is_buy_grid(symbol, i - layout.sell_count + 1, grids[i]));
            }
        }
    }
}

/// What each grid gets is its part of the balance even where it cannot be divided without a
/// rest: so many times that is the balance but for the last digit of each part. `j` says which
/// digit that is: the balance fits in a number whose last digit has the weight `10^j`.
pub proof fn law_the_parts_make_up_the_balance(
    a: Allocation,
    sells: u32,
    buys: u32,
    sold: Decimal,
    spent: Decimal,
    base_value: int,
    j: nat,
)
    requires
        call_ensures(
            try_allocate_grids,
            (a,),
            Ok::<Option<(u32, u32, Decimal, Decimal)>, Overflow>(Some((sells, buys, sold, spent))),
        ),
        representable(base_value),
        a.base@ * a.price@ == base_value * one(),
        base_value >= a.min_notional@,
        base_value >= 0,
        a.quote@ >= a.min_notional@,
        a.base@ >= 0,
        a.quote@ >= 0,
        j <= 28,
    ensures
        sells > 0 && a.base@ < MAX_MANTISSA * pow10(j) ==> -(sells * pow10(j)) <= sold@ * sells
            - a.base@ <= sells * pow10(j),
        buys > 0 && a.quote@ < MAX_MANTISSA * pow10(j) ==> -(buys * pow10(j)) <= spent@ * buys
            - a.quote@ <= buys * pow10(j),
{
    law_product_exact(a.base@, a.price@, base_value);
    if sells > 0 && a.base@ < MAX_MANTISSA * pow10(j) {
        lemma_part_is_near(a.base@, sells as int, j);
    }
    if buys > 0 && a.quote@ < MAX_MANTISSA * pow10(j) {
        lemma_part_is_near(a.quote@, buys as int, j);
    }
}

proof fn lemma_part_is_near(balance: int, n: int, j: nat)
    requires
        n > 0,
        balance >= 0,
        j <= 28,
        balance < MAX_MANTISSA * pow10(j),
    ensures
        -(n * pow10(j)) <= amount_each(balance, n) * n - balance <= n * pow10(j),
{
    let e = one();
    let u = pow10(j);
    let d = n * e;
    lemma_pow10_positive(28);
    lemma_pow10_positive(j);
    assert(d > 0 && d * u > 0 && balance * e >= 0) by (nonlinear_arith)
        requires
            n > 0,
            e > 0,
            u > 0,
            d == n * e,
            balance >= 0,
    ;
    let most = MAX_MANTISSA as int;
    let du = d * u;
    assert(balance * e < most * du) by (nonlinear_arith)
        requires
            balance < most * u,
            d == n * e,
            du == d * u,
            n >= 1,
            e > 0,
            u > 0,
            most > 0,
    ;
    assert((balance * e) / du < most) by (nonlinear_arith)
        requires
            balance * e < most * du,
            du > 0,
    ;
    lemma_nearest_is_near(balance * e, d, j, false);
    let w = amount_each(balance, n);
    let un = u * n;
    assert(w * n - balance <= un && -un <= w * n - balance) by (nonlinear_arith)
        requires
            balance * e - u * d <= w * d <= balance * e + u * d,
            d == n * e,
            un == u * n,
            e > 0,
    ;
    assert(un == n * u) by (nonlinear_arith)
        requires
            un == u * n,
    ;
}

} // verus!
