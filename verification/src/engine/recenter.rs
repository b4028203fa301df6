//! Laying the grids of a symbol out anew: cancel the orders, look at the balances, share
//! them out, and replace the grids.
//!
//! Nothing is deleted before it is certain that no order stands and that there are grids
//! to put in the place of the old ones.

use crate::decimal::{
    difference_of, law_difference_exact, minus, pow10, representable, short, Decimal, Overflow,
};
use crate::engine::error::EngineError;
use crate::engine::median::{
    are_the_middle, has_mean, is_median, lemma_median_is_the_mean, try_compute_median,
};
use crate::engine::state::GridEngine;
use crate::engine::strategy::{
    is_price_floor, laid_out_round, lemma_laid_out_round, shared_out, try_allocate_grids,
    try_build_auto_grids, try_price_floor, Allocation, AutoGridLayout,
};
use crate::exchange::error::BinanceError;
use crate::exchange::symbol::{assets_of, has_assets, split_symbol};
use crate::exchange::types::SymbolFilters;
use crate::models::user_grid::{NewUserGrid, UserGrid};
use crate::text::join;
use vstd::prelude::*;

verus! {

/// What the grids are laid out by.
pub struct Rebuild {
    pub symbol: String,
    pub base_asset: String,
    pub quote_asset: String,
    pub user_id: i32,
    pub spacing: Decimal,
    pub grid_count: u32,
    pub price: Decimal,
}

/// What is shared out among the grids.
#[derive(Clone, Copy, Debug)]
pub struct Counts {
    pub sell_count: u32,
    pub buy_count: u32,
    pub sell_amount: Decimal,
    pub buy_amount: Decimal,
}

impl Counts {
    /// The counts and the amounts.
    pub open spec fn shares(self) -> (u32, u32, Decimal, Decimal) {
        (self.sell_count, self.buy_count, self.sell_amount, self.buy_amount)
    }
}

/// Where laying the grids out stands.
pub enum RecenterStep {
    /// All orders of the symbol are to be cancelled.
    CancelAll(CancelAll),
    /// The exchange needs a while to release what the orders held.
    Settle(Settle),
    /// The free balances of both assets are wanted.
    Balances(Balances),
    /// The trading rules are wanted.
    Rules(Rules),
    /// The prices of the last day are wanted.
    Klines(Klines),
    /// The user's grids that are traded are to be replaced.
    ReplaceActive(ReplaceActive),
    /// It is over.
    Done,
    /// It failed.
    Failed(EngineError),
}

pub struct CancelAll {
    pub plan: Rebuild,
}

pub struct Settle {
    pub plan: Rebuild,
}

pub struct Balances {
    pub plan: Rebuild,
}

pub struct Rules {
    pub plan: Rebuild,
    pub base: Decimal,
    pub quote: Decimal,
}

pub struct Klines {
    pub plan: Rebuild,
    pub counts: Counts,
}

pub struct ReplaceActive {
    pub user_id: i32,
    pub symbol: String,
    pub grids: Vec<NewUserGrid>,
}

/// How laying the grids out begins: with the spacing of the first grid and the number of
/// grids, if there is one.
pub open spec fn recenter_begins(
    symbol: Seq<char>,
    grids: Seq<UserGrid>,
    price: Decimal,
    r: RecenterStep,
) -> bool {
    if grids.len() == 0 {
        r == RecenterStep::Done
    } else {
        match difference_of(grids[0].sell_price@, grids[0].buy_price@) {
            None => r == RecenterStep::Failed(EngineError::Overflow),
            Some(spacing) => if !has_assets(symbol) {
                r matches RecenterStep::Failed(EngineError::UnknownAssets { symbol: s }) && s@
                    == symbol
            } else {
                r matches RecenterStep::CancelAll(next) && next.plan.symbol@ == symbol && assets_of(
                    symbol,
                    next.plan.base_asset@,
                    next.plan.quote_asset@,
                ) && next.plan.user_id == grids[0].user_id && next.plan.spacing@ == spacing
                    && minus(grids[0].sell_price.form(), grids[0].buy_price.form()) == Some(
                    next.plan.spacing.form(),
                )
                    && next.plan.grid_count == grids.len() as u32 && next.plan.price == price
            },
        }
    }
}

/// Laying the grids out begins with nothing but cancelling their orders: no row is touched
/// while an order may stand.
pub proof fn law_recenter_begins_by_cancelling(
    symbol: Seq<char>,
    grids: Seq<UserGrid>,
    price: Decimal,
    r: RecenterStep,
)
    requires
        recenter_begins(symbol, grids, price, r),
    ensures
        r is CancelAll || r is Done || r is Failed,
        r is CancelAll ==> grids.len() > 0 && has_assets(symbol),
{
}

/// Begins to lay the grids of a symbol out anew, at a price.
pub fn recenter_grids(symbol: &str, grids: &Vec<UserGrid>, current_price: Decimal) -> (r:
    RecenterStep)
    ensures
        recenter_begins(symbol@, grids@, current_price, r),
{
    if grids.len() == 0 {
        return RecenterStep::Done;
    }
    let first = &grids[0];
    let spacing = match first.sell_price.checked_sub(first.buy_price) {
        Some(spacing) => spacing,
        None => {
            return RecenterStep::Failed(EngineError::Overflow);
        },
    };
    match split_symbol(symbol) {
        None => RecenterStep::Failed(EngineError::UnknownAssets { symbol: symbol.to_owned() }),
        Some((base, quote)) => {
            RecenterStep::CancelAll(
                CancelAll {
                    plan: Rebuild {
                        symbol: symbol.to_owned(),
                        base_asset: base.to_owned(),
                        quote_asset: quote.to_owned(),
                        user_id: first.user_id,
                        spacing,
                        grid_count: grids.len() as u32,
                        price: current_price,
                    },
                },
            )
        },
    }
}

impl CancelAll {
    /// Goes on with whether the orders were cancelled. If they were not, nothing else is
    /// done: the rows hold the only trace of the orders.
    pub fn resume(self, reply: Result<(), BinanceError>) -> (r: RecenterStep)
        ensures
            match reply {
                Ok(()) => r == RecenterStep::Settle(Settle { plan: self.plan }),
                Err(e) => r matches RecenterStep::Failed(EngineError::Context(what, source))
                    && what@ == self.plan.symbol@ + " 撤单失败，中止重建以免丢失挂单线索"@ && source
                    == e,
            },
    {
        match reply {
            Ok(()) => RecenterStep::Settle(Settle { plan: self.plan }),
            Err(e) => RecenterStep::Failed(
                EngineError::Context(
                    join(self.plan.symbol.as_str(), " 撤单失败，中止重建以免丢失挂单线索"),
                    e,
                ),
            ),
        }
    }
}

impl Settle {
    /// Goes on when the while is over.
    pub fn resume(self) -> (r: RecenterStep)
        ensures
            r == RecenterStep::Balances(Balances { plan: self.plan }),
    {
        RecenterStep::Balances(Balances { plan: self.plan })
    }
}

/// What is said when the balances could not be looked up.
pub open spec fn no_balances(base: Seq<char>, quote: Seq<char>) -> Seq<char> {
    "查询余额失败 ("@ + base + "/"@ + quote + ")"@
}

impl Balances {
    /// Goes on with the free balances of the base and of the quote asset.
    pub fn resume(self, reply: Result<(Decimal, Decimal), BinanceError>) -> (r: RecenterStep)
        ensures
            match reply {
                Ok((base, quote)) => r == RecenterStep::Rules(
                    Rules { plan: self.plan, base, quote },
                ),
                Err(e) => r matches RecenterStep::Failed(EngineError::Context(what, source))
                    && what@ == no_balances(self.plan.base_asset@, self.plan.quote_asset@)
                    && source == e,
            },
    {
        match reply {
            Ok((base, quote)) => RecenterStep::Rules(Rules { plan: self.plan, base, quote }),
            Err(e) => {
                let mut what = "查询余额失败 (".to_owned();
                what.append(self.plan.base_asset.as_str());
                what.append("/");
                what.append(self.plan.quote_asset.as_str());
                what.append(")");
                RecenterStep::Failed(EngineError::Context(what, e))
            },
        }
    }
}

impl Rules {
    /// What there is to share out under the trading rules.
    pub open spec fn allocation(self, rules: SymbolFilters) -> Allocation {
        Allocation {
            base: self.base,
            quote: self.quote,
            price: self.plan.price,
            grid_count: self.plan.grid_count,
            min_qty: rules.min_qty,
            min_notional: rules.min_notional,
        }
    }

    /// What comes of sharing the balances out. Only where there is nothing to trade with does
    /// anything change.
    pub open spec fn shares_out(
        self,
        before: GridEngine,
        rules: SymbolFilters,
        after: GridEngine,
        r: RecenterStep,
    ) -> bool {
        let allocation = self.allocation(rules);
        match shared_out(allocation, allocation.ties()) {
            Err(_) => r == RecenterStep::Failed(EngineError::Overflow) && after == before,
            Ok(None) => r == RecenterStep::Done && after.out_of_range_since@
                == before.out_of_range_since@.remove(self.plan.symbol@),
            Ok(Some(_)) => (r matches RecenterStep::Klines(next) && next.plan == self.plan
                && allocation.shares_as(Ok(Some(next.counts.shares())))) && after == before,
        }
    }

    /// Goes on with the trading rules: shares the balances out. Where there is nothing to
    /// trade with the grids stay as they are, and the price counts as in range again.
    pub fn resume(self, engine: &mut GridEngine, rules: Result<SymbolFilters, EngineError>) -> (r:
        RecenterStep)
        ensures
            final(engine).filters == old(engine).filters,
            match rules {
                Err(e) => r == RecenterStep::Failed(e) && *final(engine) == *old(engine),
                Ok(f) => self.shares_out(*old(engine), f, *final(engine), r),
            },
    {
        let filters = match rules {
            Ok(f) => f,
            Err(e) => {
                return RecenterStep::Failed(e);
            },
        };
        let allocation = Allocation {
            base: self.base,
            quote: self.quote,
            price: self.plan.price,
            grid_count: self.plan.grid_count,
            min_qty: filters.min_qty,
            min_notional: filters.min_notional,
        };
        match try_allocate_grids(allocation) {
            Err(_) => RecenterStep::Failed(EngineError::Overflow),
            Ok(None) => {
                engine.clear_out_of_range(self.plan.symbol.as_str());
                RecenterStep::Done
            },
            Ok(Some((sell_count, buy_count, sell_amount, buy_amount))) => RecenterStep::Klines(
                Klines {
                    plan: self.plan,
                    counts: Counts { sell_count, buy_count, sell_amount, buy_amount },
                },
            ),
        }
    }
}

/// Whether this is the price that the grids are laid out round: the median of the last day,
/// or the last price if there is none; `None` where it cannot be computed.
pub open spec fn is_anchor(
    price: Decimal,
    closes: Result<Vec<Decimal>, BinanceError>,
    r: Option<Decimal>,
) -> bool {
    match closes {
        Ok(prices) => if prices.len() > 0 {
            is_median(prices@, r)
        } else {
            r == Some(price)
        },
        Err(_) => r == Some(price),
    }
}

/// The price that the grids are laid out round.
pub fn resolve_anchor(current_price: Decimal, closes: Result<Vec<Decimal>, BinanceError>) -> (r:
    Result<Decimal, Overflow>)
    ensures
        is_anchor(
            current_price,
            closes,
            match r {
                Ok(anchor) => Some(anchor),
                Err(_) => None,
            },
        ),
{
    match closes {
        Ok(prices) => match try_compute_median(&prices) {
            Ok(Some(median)) => Ok(median),
            Ok(None) => Ok(current_price),
            Err(e) => Err(e),
        },
        Err(_) => Ok(current_price),
    }
}

/// Which past prices are wanted: the closing prices of so many spans of time.
pub struct KlinesRequest {
    pub symbol: String,
    pub interval: String,
    pub limit: u32,
}

impl Klines {
    /// What to ask for: the closing prices of the last 24 hours.
    pub fn request(&self) -> (r: KlinesRequest)
        ensures
            r.symbol == self.plan.symbol,
            r.interval@ == "1h"@,
            r.limit == 24,
    {
        KlinesRequest { symbol: self.plan.symbol.clone(), interval: "1h".to_owned(), limit: 24 }
    }

    /// The layout round a price.
    pub open spec fn layout(self, p_floor: Decimal) -> AutoGridLayout {
        AutoGridLayout {
            user_id: self.plan.user_id,
            p_floor,
            spacing: self.plan.spacing,
            sell_count: self.counts.sell_count,
            buy_count: self.counts.buy_count,
            sell_amount: self.counts.sell_amount,
            buy_amount: self.counts.buy_amount,
        }
    }

    /// What comes of the layout round a price.
    pub open spec fn lays_out(self, p_floor: Decimal, r: RecenterStep) -> bool {
        let layout = self.layout(p_floor);
        if !layout.computable() {
            r == RecenterStep::Failed(EngineError::Overflow)
        } else {
            match r {
                RecenterStep::ReplaceActive(next) => next.user_id == self.plan.user_id
                    && next.symbol == self.plan.symbol && next.grids.len() > 0 && layout.laid_out(
                    self.plan.symbol@,
                    next.grids@,
                ),
                RecenterStep::Failed(EngineError::NoLayout { symbol }) => symbol
                    == self.plan.symbol && layout.laid_out(
                    self.plan.symbol@,
                    Seq::<NewUserGrid>::empty(),
                ),
                _ => false,
            }
        }
    }

    /// What comes of the layout round an anchor.
    pub open spec fn anchored(self, anchor: Decimal, r: RecenterStep) -> bool {
        exists|p_floor: Option<Decimal>| #[trigger]
            is_price_floor(anchor, self.plan.spacing, p_floor) && match p_floor {
                None => r == RecenterStep::Failed(EngineError::Overflow),
                Some(p_floor) => self.lays_out(p_floor, r),
            }
    }

    /// What comes of the closing prices of the last day.
    pub open spec fn goes_on(
        self,
        closes: Result<Vec<Decimal>, BinanceError>,
        r: RecenterStep,
    ) -> bool {
        exists|anchor: Option<Decimal>| #[trigger]
            is_anchor(self.plan.price, closes, anchor) && match anchor {
                None => r == RecenterStep::Failed(EngineError::Overflow),
                Some(anchor) => self.anchored(anchor, r),
            }
    }

    /// Goes on with the closing prices of the last day, if there are any: lays the grids
    /// out round their median. It fails where no grid can be laid out.
    pub fn resume(self, reply: Result<Vec<Decimal>, BinanceError>) -> (r: RecenterStep)
        ensures
            self.goes_on(reply, r),
    {
        let anchor = match resolve_anchor(self.plan.price, reply) {
            Ok(anchor) => anchor,
            Err(_) => {
                assert(is_anchor(self.plan.price, reply, None));
                return RecenterStep::Failed(EngineError::Overflow);
            },
        };
        assert(is_anchor(self.plan.price, reply, Some(anchor)));
        let ghost begun = self;
        let r = self.lay_out(anchor);
        assert(begun.anchored(anchor, r));
        r
    }

    fn lay_out(self, anchor: Decimal) -> (r: RecenterStep)
        ensures
            self.anchored(anchor, r),
    {
        let found = try_price_floor(anchor, self.plan.spacing);
        assert(is_price_floor(anchor, self.plan.spacing, found));
        let p_floor = match found {
            Some(p_floor) => p_floor,
            None => {
                return RecenterStep::Failed(EngineError::Overflow);
            },
        };
        let layout = AutoGridLayout {
            user_id: self.plan.user_id,
            p_floor,
            spacing: self.plan.spacing,
            sell_count: self.counts.sell_count,
            buy_count: self.counts.buy_count,
            sell_amount: self.counts.sell_amount,
            buy_amount: self.counts.buy_amount,
        };
        match try_build_auto_grids(layout, self.plan.symbol.as_str()) {
            Err(_) => RecenterStep::Failed(EngineError::Overflow),
            Ok(grids) => if grids.len() == 0 {
                assert(grids@ =~= Seq::<NewUserGrid>::empty());
                RecenterStep::Failed(EngineError::NoLayout { symbol: self.plan.symbol })
            } else {
                RecenterStep::ReplaceActive(
                    ReplaceActive { user_id: self.plan.user_id, symbol: self.plan.symbol, grids },
                )
            },
        }
    }
}

impl ReplaceActive {
    /// Ends it, with whether the grids were replaced. If so the price counts as in range
    /// again.
    pub fn resume(symbol: &str, engine: &mut GridEngine, reply: Result<(), String>) -> (r:
        RecenterStep)
        ensures
            final(engine).filters == old(engine).filters,
            match reply {
                Ok(()) => r == RecenterStep::Done && final(engine).out_of_range_since@
                    == old(engine).out_of_range_since@.remove(symbol@),
                Err(reason) => r == RecenterStep::Failed(EngineError::Database(reason))
                    && *final(engine) == *old(engine),
            },
    {
        match reply {
            Ok(()) => {
                engine.clear_out_of_range(symbol);
                RecenterStep::Done
            },
            Err(reason) => RecenterStep::Failed(EngineError::Database(reason)),
        }
    }
}

/// Where a user's request to lay the grids out anew stands.
pub enum TriggerStep {
    /// The last price is wanted.
    Ticker(TriggerTicker),
    /// It failed.
    Failed(EngineError),
}

pub struct TriggerTicker {
    pub symbol: String,
    pub grids: Vec<UserGrid>,
}

/// The grids of one user.
pub open spec fn grids_of_user(grids: Seq<UserGrid>, user_id: i32) -> Seq<UserGrid> {
    grids.filter(|g: UserGrid| g.user_id == user_id)
}

impl GridEngine {
    /// Begins a user's request to lay the grids of a symbol out anew, with the grids that are
    /// traded. Only the user's own are touched; it fails if there is none.
    pub fn trigger_recenter_now(
        user_id: i32,
        symbol: &str,
        grids: Result<Vec<UserGrid>, String>,
    ) -> (r: TriggerStep)
        ensures
            match grids {
                Err(reason) => r == TriggerStep::Failed(EngineError::Database(reason)),
                Ok(all) => if grids_of_user(all@, user_id).len() == 0 {
                    r matches TriggerStep::Failed(EngineError::NoActiveGrids { symbol: s }) && s@
                        == symbol@
                } else {
                    r matches TriggerStep::Ticker(next) && next.symbol@ == symbol@ && next.grids@
                        == grids_of_user(all@, user_id)
                },
            },
    {
        let all = match grids {
            Ok(all) => all,
            Err(reason) => {
                return TriggerStep::Failed(EngineError::Database(reason));
            },
        };
        let ghost keep = |g: UserGrid| g.user_id == user_id;
        let mut own: Vec<UserGrid> = Vec::new();
        let mut i: usize = 0;
        while i < all.len()
            invariant
                i <= all.len(),
                keep == (|g: UserGrid| g.user_id == user_id),
                own@ == all@.take(i as int).filter(keep),
            decreases all.len() - i,
        {
            proof {
                reveal(Seq::filter);
                assert(all@.take(i + 1).drop_last() =~= all@.take(i as int));
            }
            if all[i].user_id == user_id {
                own.push(all[i].clone());
            }
            i = i + 1;
        }
        assert(all@.take(i as int) =~= all@);
        if own.len() == 0 {
            TriggerStep::Failed(EngineError::NoActiveGrids { symbol: symbol.to_owned() })
        } else {
            TriggerStep::Ticker(TriggerTicker { symbol: symbol.to_owned(), grids: own })
        }
    }
}

impl TriggerTicker {
    /// Goes on with the last price.
    pub fn resume(self, reply: Result<Decimal, BinanceError>) -> (r: RecenterStep)
        ensures
            match reply {
                Ok(price) => recenter_begins(self.symbol@, self.grids@, price, r),
                Err(e) => r matches RecenterStep::Failed(EngineError::Context(what, source))
                    && what@ == self.symbol@ + " 获取当前价格失败"@ && source == e,
            },
    {
        match reply {
            Ok(price) => recenter_grids(self.symbol.as_str(), &self.grids, price),
            Err(e) => RecenterStep::Failed(
                EngineError::Context(join(self.symbol.as_str(), " 获取当前价格失败"), e),
            ),
        }
    }
}

/// The layout of grids that were shared out, round some price.
pub open spec fn layout_of(klines: Klines, p_floor: Decimal) -> AutoGridLayout {
    AutoGridLayout {
        user_id: klines.plan.user_id,
        p_floor,
        spacing: klines.plan.spacing,
        sell_count: klines.counts.sell_count,
        buy_count: klines.counts.buy_count,
        sell_amount: klines.counts.sell_amount,
        buy_amount: klines.counts.buy_amount,
    }
}

/// Whether grids are laid out round a price.
pub open spec fn round_price(klines: Klines, price: int, grids: Seq<NewUserGrid>) -> bool {
    exists|p_floor: Decimal|
        laid_out_round(
            price,
            #[trigger] layout_of(klines, p_floor),
            klines.plan.symbol@,
            grids,
        )
}

proof fn lemma_anchored(
    klines: Klines,
    anchor: Decimal,
    next: ReplaceActive,
    v: int,
    s: int,
    k: nat,
)
    requires
        klines.anchored(anchor, RecenterStep::ReplaceActive(next)),
        short(v, s),
        k <= 28,
        anchor@ == v * pow10(k),
        klines.plan.spacing@ == s * pow10(k),
    ensures
        next.user_id == klines.plan.user_id,
        next.symbol@ == klines.plan.symbol@,
        next.grids.len() == klines.counts.sell_count + klines.counts.buy_count,
        round_price(klines, anchor@, next.grids@),
{
    let found = choose|p_floor: Option<Decimal>| #[trigger]
        is_price_floor(anchor, klines.plan.spacing, p_floor) && match p_floor {
            None => false,
            Some(p_floor) => klines.lays_out(p_floor, RecenterStep::ReplaceActive(next)),
        };
    let layout = layout_of(klines, found->0);
    lemma_laid_out_round(anchor, layout, klines.plan.symbol@, next.grids@, v, s, k);
}

/// Where the closing prices could not be had, or there are none, the grids are laid out round
/// the last price, as long as it and the spacing have few enough digits.
pub proof fn law_without_prices_grids_stand_round_the_last_one(
    klines: Klines,
    closes: Result<Vec<Decimal>, BinanceError>,
    next: ReplaceActive,
    v: int,
    s: int,
    k: nat,
)
    requires
        call_ensures(Klines::resume, (klines, closes), RecenterStep::ReplaceActive(next)),
        closes matches Ok(prices) ==> prices.len() == 0,
        short(v, s),
        k <= 28,
        klines.plan.price@ == v * pow10(k),
        klines.plan.spacing@ == s * pow10(k),
    ensures
        next.user_id == klines.plan.user_id,
        next.symbol@ == klines.plan.symbol@,
        next.grids.len() == klines.counts.sell_count + klines.counts.buy_count,
        round_price(klines, klines.plan.price@, next.grids@),
{
    lemma_anchored(klines, klines.plan.price, next, v, s, k);
}

/// The grids are laid out round the mean of the two middle closing prices, `low` and `high`,
/// not round the last price, as long as it and the spacing have few enough digits.
pub proof fn law_grids_stand_round_the_middle_of_the_prices(
    klines: Klines,
    prices: Vec<Decimal>,
    next: ReplaceActive,
    low: int,
    high: int,
    v: int,
    s: int,
    k: nat,
)
    requires
        call_ensures(
            Klines::resume,
            (klines, Ok::<Vec<Decimal>, BinanceError>(prices)),
            RecenterStep::ReplaceActive(next),
        ),
        prices.len() > 0,
        are_the_middle(prices@, low, high),
        has_mean(low, high),
        short(v, s),
        k <= 28,
        low + high == 2 * (v * pow10(k)),
        klines.plan.spacing@ == s * pow10(k),
    ensures
        round_price(klines, v * pow10(k), next.grids@),
        next.user_id == klines.plan.user_id,
        next.symbol@ == klines.plan.symbol@,
        next.grids.len() == klines.counts.sell_count + klines.counts.buy_count,
{
    let found = choose|anchor: Option<Decimal>| #[trigger]
        is_anchor(
            klines.plan.price,
            Ok::<Vec<Decimal>, BinanceError>(prices),
            anchor,
        ) && match anchor {
            None => false,
            Some(anchor) => klines.anchored(anchor, RecenterStep::ReplaceActive(next)),
        };
    let anchor = found->0;
    lemma_median_is_the_mean(prices@, anchor@, low, high);
    lemma_anchored(klines, anchor, next, v, s, k);
}

/// The anchor is the mean of the two middle prices; the last price only where there is none.
pub proof fn law_the_anchor_is_in_the_middle(
    price: Decimal,
    closes: Result<Vec<Decimal>, BinanceError>,
    r: Result<Decimal, Overflow>,
    low: int,
    high: int,
)
    requires
        call_ensures(resolve_anchor, (price, closes), r),
    ensures
        closes is Err ==> r == Ok::<Decimal, Overflow>(price),
        closes matches Ok(prices) ==> prices.len() == 0 ==> r == Ok::<Decimal, Overflow>(price),
        closes matches Ok(prices) ==> prices.len() > 0 && are_the_middle(prices@, low, high)
            && has_mean(low, high) ==> (r matches Ok(anchor) ==> 2 * anchor@ == low + high),
{
    if let Ok(prices) = closes {
        if let Ok(anchor) = r {
            if prices.len() > 0 && are_the_middle(prices@, low, high) && has_mean(low, high) {
                lemma_median_is_the_mean(prices@, anchor@, low, high);
            }
        }
    }
}

/// The balances that were looked up are those of the base and of the quote asset, in this order,
/// and orders that could not be cancelled stop everything.
pub proof fn law_balances_are_taken_in_order(
    cancel: CancelAll,
    cancelled: Result<(), BinanceError>,
    after: RecenterStep,
    balances: Balances,
    base: Decimal,
    quote: Decimal,
    r: RecenterStep,
)
    requires
        call_ensures(CancelAll::resume, (cancel, cancelled), after),
        call_ensures(
            Balances::resume,
            (balances, Ok::<(Decimal, Decimal), BinanceError>((base, quote))),
            r,
        ),
    ensures
        after is Settle <==> cancelled is Ok,
        after matches RecenterStep::Settle(next) ==> next.plan == cancel.plan,
        after is Settle || after is Failed,
        r matches RecenterStep::Rules(next) && next.base == base && next.quote == quote
            && next.plan == balances.plan,
{
}

/// The past prices that are asked for are those of the last 24 hours, one for each hour.
pub proof fn law_the_last_day_is_asked_for(klines: &Klines, r: KlinesRequest)
    requires
        call_ensures(Klines::request, (klines,), r),
    ensures
        r.symbol@ == klines.plan.symbol@,
        r.interval@ == "1h"@,
        r.limit == 24,
{
}

/// The grids that are laid out anew are as many, as far apart and of the same user as those that
/// there are, and the two assets are the two parts of the symbol. `spacing` is the distance of
/// the legs of the first grid, where it is a number.
pub proof fn law_new_grids_are_like_the_old_ones(
    symbol: &str,
    grids: &Vec<UserGrid>,
    price: Decimal,
    r: RecenterStep,
    spacing: int,
)
    requires
        call_ensures(recenter_grids, (symbol, grids, price), r),
        grids.len() > 0,
        representable(spacing),
        spacing == grids@[0].sell_price@ - grids@[0].buy_price@,
    ensures
        r is CancelAll || r is Failed,
        r matches RecenterStep::CancelAll(next) ==> {
            &&& next.plan.symbol@ == symbol@
            &&& next.plan.base_asset@ + next.plan.quote_asset@ == symbol@
            &&& next.plan.base_asset@.len() > 0
            &&& next.plan.user_id == grids@[0].user_id
            &&& next.plan.spacing@ == spacing
            &&& grids.len() <= u32::MAX ==> next.plan.grid_count == grids.len()
            &&& next.plan.price == price
        },
{
    law_difference_exact(grids@[0].sell_price@, grids@[0].buy_price@);
}

/// What is shared out under the trading rules is what was looked up: the free balances, at the
/// price, among as many grids as before, with the smallest quantity and value of the rules.
pub proof fn law_balances_are_shared_out_under_the_rules(
    rules: Rules,
    engine: &mut GridEngine,
    filters: SymbolFilters,
    klines: Klines,
)
    requires
        call_ensures(
            Rules::resume,
            (rules, engine, Ok::<SymbolFilters, EngineError>(filters)),
            RecenterStep::Klines(klines),
        ),
    ensures
        klines.plan == rules.plan,
        (Allocation {
            base: rules.base,
            quote: rules.quote,
            price: rules.plan.price,
            grid_count: rules.plan.grid_count,
            min_qty: filters.min_qty,
            min_notional: filters.min_notional,
        }).shares_as(
            Ok(
                Some(
                    (
                        klines.counts.sell_count,
                        klines.counts.buy_count,
                        klines.counts.sell_amount,
                        klines.counts.buy_amount,
                    ),
                ),
            ),
        ),
        *final(engine) == *old(engine),
{
}

/// A user's request to lay grids out anew touches all of that user's grids and no others.
pub proof fn law_only_the_users_own_grids_are_laid_out_anew(
    user_id: i32,
    symbol: &str,
    all: Vec<UserGrid>,
    r: TriggerStep,
    i: int,
)
    requires
        call_ensures(
            GridEngine::trigger_recenter_now,
            (user_id, symbol, Ok::<Vec<UserGrid>, String>(all)),
            r,
        ),
        0 <= i < all.len(),
    ensures
        all@[i].user_id == user_id ==> (r matches TriggerStep::Ticker(next) && next.grids@.contains(
            all@[i],
        )),
        r matches TriggerStep::Ticker(next) ==> next.symbol@ == symbol@ && next.grids.len() > 0
            && forall|j: int|
            0 <= j < next.grids.len() ==> (#[trigger] next.grids@[j]).user_id == user_id
                && all@.contains(next.grids@[j]),
{
    let keep = |g: UserGrid| g.user_id == user_id;
    let own = all@.filter(keep);
    if all@[i].user_id == user_id {
        assert(keep(all@[i]));
        all@.lemma_filter_contains(keep, i);
        assert(own.contains(all@[i]));
    }
    assert forall|j: int| 0 <= j < own.len() implies (#[trigger] own[j]).user_id == user_id
        && all@.contains(own[j]) by {
        all@.lemma_filter_pred(keep, j);
        all@.lemma_filter_contains_rev(keep, own[j]);
    }
}

/// Where there is nothing to trade with, laying out ends without touching a grid, and the price
/// counts as in range again, but no other symbol's does. Otherwise nothing is forgotten.
pub proof fn law_nothing_to_trade_with_touches_no_grid(
    rules: Rules,
    engine: &mut GridEngine,
    filters: SymbolFilters,
    r: RecenterStep,
    other: Seq<char>,
)
    requires
        call_ensures(
            Rules::resume,
            (rules, engine, Ok::<SymbolFilters, EngineError>(filters)),
            r,
        ),
        other != rules.plan.symbol@,
    ensures
        r is Klines || r is Done || r is Failed,
        ({
            let before = old(engine).out_of_range_since@;
            let after = final(engine).out_of_range_since@;
            &&& r is Done ==> !after.contains_key(rules.plan.symbol@)
            &&& !(r is Done) ==> after == before
            &&& before.contains_key(other) == after.contains_key(other)
            &&& before.contains_key(other) ==> before[other] == after[other]
        }),
        final(engine).filters == old(engine).filters,
{
}

/// When the grids were replaced the price counts as in range again, and only then.
pub proof fn law_replaced_grids_start_the_count_anew(
    symbol: &str,
    engine: &mut GridEngine,
    reply: Result<(), String>,
    r: RecenterStep,
)
    requires
        call_ensures(ReplaceActive::resume, (symbol, engine, reply), r),
    ensures
        reply is Ok ==> r == RecenterStep::Done && !final(engine).out_of_range_since@.contains_key(
            symbol@,
        ),
        reply is Err ==> r is Failed && *final(engine) == *old(engine),
{
}

} // verus!
