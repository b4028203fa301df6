//! Laying out a user's grids round the current price.

use crate::decimal::{decimal_text, pow10, short, Decimal};
use crate::engine::error::{engine_error_text, EngineError};
use crate::engine::recenter::Counts;
use crate::engine::strategy::{
    is_price_floor, laid_out_round, lemma_laid_out_round, shared_out, try_allocate_grids,
    try_build_auto_grids, try_price_floor, Allocation, AutoGridLayout,
};
use crate::exchange::error::{error_text, BinanceError};
use crate::exchange::symbol::{assets_of, has_assets, split_symbol};
use crate::exchange::types::SymbolFilters;
use crate::models::user_grid::NewUserGrid;
use crate::text::join;
use crate::web::account::bad_request;
use crate::web::error::AppError;
use vstd::prelude::*;

verus! {

/// A wish to have grids laid out.
#[derive(Debug)]
pub struct AutoCenterRequest {
    pub symbol: String,
    /// How many grids there may be, from 1 to 20.
    pub grid_count: u32,
    /// The distance from one grid to the next.
    pub spacing: Decimal,
}

/// The answer: the grids that were stored, and what they are.
#[derive(Debug)]
pub struct AutoCenterResponse {
    pub ids: Vec<i32>,
    pub sell_count: u32,
    pub buy_count: u32,
    pub current_price: String,
    pub sell_amount: String,
    pub buy_amount: String,
}

/// What is known when everything has been looked up.
#[derive(Clone, Copy, Debug)]
pub struct Gathered {
    pub base: Decimal,
    pub quote: Decimal,
    pub price: Decimal,
    pub filters: SymbolFilters,
}

/// What the grids are laid out by.
pub struct CenterPlan {
    pub user_id: i32,
    pub symbol: String,
    pub base_asset: String,
    pub quote_asset: String,
    pub grid_count: u32,
    pub spacing: Decimal,
}

/// Grids that are to take the place of those that were laid out before.
pub struct CenterReplace {
    pub user_id: i32,
    pub symbol: String,
    pub grids: Vec<NewUserGrid>,
    pub counts: Counts,
    pub price: Decimal,
}

/// Where laying the grids out stands.
pub enum CenterStep {
    /// The symbol is to be locked.
    Lock(CenterPlan),
    /// All orders of the symbol are to be cancelled.
    CancelAll(CenterPlan),
    /// The exchange needs a while to release what the orders held.
    Settle(CenterPlan),
    /// The balances, the price and the trading rules are wanted.
    Gather(CenterPlan),
    /// The user's grids that were laid out before are to be replaced.
    ReplaceAuto(CenterReplace),
    /// It is over.
    Done(AutoCenterResponse),
    /// A number is too large.
    Overflow,
    /// It failed.
    Failed(AppError),
}

/// What comes of a wish to have grids laid out.
pub open spec fn center_begins(user_id: i32, req: AutoCenterRequest, r: CenterStep) -> bool {
    if req.symbol@.len() == 0 {
        r matches CenterStep::Failed(e) && bad_request(e, "symbol 不能为空"@)
    } else if req.grid_count == 0 || req.grid_count > 20 {
        r matches CenterStep::Failed(e) && bad_request(e, "grid_count 必须在 1-20 之间"@)
    } else if req.spacing@ <= 0 {
        r matches CenterStep::Failed(e) && bad_request(e, "spacing 必须大于 0"@)
    } else if !has_assets(req.symbol@) {
        r matches CenterStep::Failed(e) && bad_request(
            e,
            "无法解析 symbol 的 base/quote: "@ + req.symbol@,
        )
    } else {
        r matches CenterStep::Lock(plan) && plan.user_id == user_id && plan.symbol == req.symbol
            && assets_of(req.symbol@, plan.base_asset@, plan.quote_asset@) && plan.grid_count
            == req.grid_count && plan.spacing == req.spacing
    }
}

fn refused(words: &str) -> (r: CenterStep)
    ensures
        r matches CenterStep::Failed(e) && bad_request(e, words@),
{
    CenterStep::Failed(AppError::BadRequest(words.to_owned()))
}

/// Begins to lay grids out.
pub fn auto_center_grids(user_id: i32, req: AutoCenterRequest) -> (r: CenterStep)
    ensures
        center_begins(user_id, req, r),
{
    if req.symbol.as_str().unicode_len() == 0 {
        return refused("symbol 不能为空");
    }
    if req.grid_count == 0 || req.grid_count > 20 {
        return refused("grid_count 必须在 1-20 之间");
    }
    if req.spacing <= Decimal::zero() {
        return refused("spacing 必须大于 0");
    }
    let (base_asset, quote_asset) = match split_symbol(req.symbol.as_str()) {
        Some((base, quote)) => (base.to_owned(), quote.to_owned()),
        None => {
            return refused(join("无法解析 symbol 的 base/quote: ", req.symbol.as_str()).as_str());
        },
    };
    CenterStep::Lock(
        CenterPlan {
            user_id,
            symbol: req.symbol,
            base_asset,
            quote_asset,
            grid_count: req.grid_count,
            spacing: req.spacing,
        },
    )
}

/// What is said when there is not enough to lay grids out with.
pub open spec fn too_little(plan: CenterPlan, known: Gathered) -> Seq<char> {
    "账户余额不足以建仓："@ + plan.base_asset@ + "="@ + known.base.text() + ", "@ + plan.quote_asset@
        + "="@ + known.quote.text()
}

impl CenterPlan {
    /// What there is to share out.
    pub open spec fn allocation(self, known: Gathered) -> Allocation {
        Allocation {
            base: known.base,
            quote: known.quote,
            price: known.price,
            grid_count: self.grid_count,
            min_qty: known.filters.min_qty,
            min_notional: known.filters.min_notional,
        }
    }

    /// The layout round a price.
    pub open spec fn layout(self, counts: Counts, p_floor: Decimal) -> AutoGridLayout {
        AutoGridLayout {
            user_id: self.user_id,
            p_floor,
            spacing: self.spacing,
            sell_count: counts.sell_count,
            buy_count: counts.buy_count,
            sell_amount: counts.sell_amount,
            buy_amount: counts.buy_amount,
        }
    }

    /// What comes of the layout round a price.
    pub open spec fn lays_out(
        self,
        counts: Counts,
        price: Decimal,
        p_floor: Decimal,
        r: CenterStep,
    ) -> bool {
        let layout = self.layout(counts, p_floor);
        if !layout.computable() {
            r == CenterStep::Overflow
        } else {
            match r {
                CenterStep::ReplaceAuto(next) => next.user_id == self.user_id && next.symbol
                    == self.symbol && next.grids.len() > 0 && layout.laid_out(
                    self.symbol@,
                    next.grids@,
                ) && next.counts == counts && next.price == price,
                CenterStep::Failed(e) => bad_request(
                    e,
                    "当前 spacing、余额与价格会生成无效网格，请减小 spacing 或格子数量"@,
                ) && layout.laid_out(self.symbol@, Seq::<NewUserGrid>::empty()),
                _ => false,
            }
        }
    }

    /// What comes of sharing the balances out.
    pub open spec fn shares_out(self, counts: Counts, known: Gathered, r: CenterStep) -> bool {
        exists|p_floor: Option<Decimal>| #[trigger]
            is_price_floor(known.price, self.spacing, p_floor) && match p_floor {
                None => r == CenterStep::Overflow,
                Some(p_floor) => self.lays_out(counts, known.price, p_floor, r),
            }
    }

    /// What comes when everything has been looked up.
    pub open spec fn gathers(self, known: Gathered, r: CenterStep) -> bool {
        let allocation = self.allocation(known);
        match shared_out(allocation, allocation.ties()) {
            Err(_) => r == CenterStep::Overflow,
            Ok(None) => r matches CenterStep::Failed(e) && bad_request(e, too_little(self, known)),
            Ok(Some(_)) => exists|counts: Counts| #[trigger]
                self.shares_out(counts, known, r) && allocation.shares_as(
                    Ok(Some(counts.shares())),
                ),
        }
    }

    /// Goes on when the symbol is locked.
    pub fn locked(self) -> (r: CenterStep)
        ensures
            r == CenterStep::CancelAll(self),
    {
        CenterStep::CancelAll(self)
    }

    /// Goes on with whether the orders were cancelled. If they were not, nothing else is
    /// done.
    pub fn cancelled(self, reply: Result<(), BinanceError>) -> (r: CenterStep)
        ensures
            match reply {
                Ok(()) => r == CenterStep::Settle(self),
                Err(e) => r matches CenterStep::Failed(AppError::Internal(reason)) && reason@
                    == "撤单失败，中止自动居中: "@ + error_text(e),
            },
    {
        match reply {
            Ok(()) => CenterStep::Settle(self),
            Err(e) => CenterStep::Failed(
                AppError::Internal(join("撤单失败，中止自动居中: ", e.to_text().as_str())),
            ),
        }
    }

    /// Goes on when the while is over.
    pub fn settled(self) -> (r: CenterStep)
        ensures
            r == CenterStep::Gather(self),
    {
        CenterStep::Gather(self)
    }

    /// Goes on with everything that was looked up: shares the balances out and lays the
    /// grids out.
    pub fn gathered(self, reply: Result<Gathered, EngineError>) -> (r: CenterStep)
        ensures
            match reply {
                Err(e) => r matches CenterStep::Failed(AppError::Internal(reason)) && reason@
                    == engine_error_text(e),
                Ok(known) => self.gathers(known, r),
            },
    {
        let known = match reply {
            Ok(known) => known,
            Err(e) => {
                return CenterStep::Failed(AppError::Internal(e.to_text()));
            },
        };
        let allocation = Allocation {
            base: known.base,
            quote: known.quote,
            price: known.price,
            grid_count: self.grid_count,
            min_qty: known.filters.min_qty,
            min_notional: known.filters.min_notional,
        };
        let ghost plan = self;
        match try_allocate_grids(allocation) {
            Err(_) => CenterStep::Overflow,
            Ok(None) => {
                let mut words = join("账户余额不足以建仓：", self.base_asset.as_str());
                words.append("=");
                words.append(known.base.to_text().as_str());
                words.append(", ");
                words.append(self.quote_asset.as_str());
                words.append("=");
                words.append(known.quote.to_text().as_str());
                CenterStep::Failed(AppError::BadRequest(words))
            },
            Ok(Some((sell_count, buy_count, sell_amount, buy_amount))) => {
                let counts = Counts { sell_count, buy_count, sell_amount, buy_amount };
                let r = self.lay_out(counts, known);
                assert(plan.shares_out(counts, known, r));
                r
            },
        }
    }

    fn lay_out(self, counts: Counts, known: Gathered) -> (r: CenterStep)
        ensures
            self.shares_out(counts, known, r),
    {
        let found = try_price_floor(known.price, self.spacing);
        assert(is_price_floor(known.price, self.spacing, found));
        let p_floor = match found {
            Some(p_floor) => p_floor,
            None => {
                return CenterStep::Overflow;
            },
        };
        let layout = AutoGridLayout {
            user_id: self.user_id,
            p_floor,
            spacing: self.spacing,
            sell_count: counts.sell_count,
            buy_count: counts.buy_count,
            sell_amount: counts.sell_amount,
            buy_amount: counts.buy_amount,
        };
        match try_build_auto_grids(layout, self.symbol.as_str()) {
            Err(_) => CenterStep::Overflow,
            Ok(grids) => if grids.len() == 0 {
                assert(grids@ =~= Seq::<NewUserGrid>::empty());
                refused("当前 spacing、余额与价格会生成无效网格，请减小 spacing 或格子数量")
            } else {
                CenterStep::ReplaceAuto(
                    CenterReplace {
                        user_id: self.user_id,
                        symbol: self.symbol,
                        grids,
                        counts,
                        price: known.price,
                    },
                )
            },
        }
    }
}

/// Ends it, with the ids of the grids that were stored.
pub fn replaced(counts: Counts, price: Decimal, reply: Result<Vec<i32>, String>) -> (r: CenterStep)
    ensures
        match reply {
            Err(reason) => r == CenterStep::Failed(AppError::Database(reason)),
            Ok(ids) => r matches CenterStep::Done(answer) && answer.ids == ids && answer.sell_count
                == counts.sell_count && answer.buy_count == counts.buy_count
                && answer.current_price@ == price.text() && answer.sell_amount@
                == counts.sell_amount.text() && answer.buy_amount@ == counts.buy_amount.text(),
        },
{
    match reply {
        Err(reason) => CenterStep::Failed(AppError::Database(reason)),
        Ok(ids) => CenterStep::Done(
            AutoCenterResponse {
                ids,
                sell_count: counts.sell_count,
                buy_count: counts.buy_count,
                current_price: price.to_text(),
                sell_amount: counts.sell_amount.to_text(),
                buy_amount: counts.buy_amount.to_text(),
            },
        ),
    }
}

/// Grids are laid out for a user exactly if there are to be 1 to 20 of them, the spacing is
/// positive and the two assets of the symbol are known; what was wished for is kept.
pub proof fn law_wishes_for_grids_are_kept(user_id: i32, req: AutoCenterRequest, r: CenterStep)
    requires
        call_ensures(auto_center_grids, (user_id, req), r),
    ensures
        r is Lock || r is Failed,
        r is Lock ==> 1 <= req.grid_count <= 20 && req.spacing@ > 0 && req.symbol@.len() > 0,
        1 <= req.grid_count <= 20 && req.spacing@ > 0 && req.symbol@.len() > 0 && has_assets(
            req.symbol@,
        ) ==> r is Lock,
        r matches CenterStep::Lock(plan) ==> {
            &&& plan.user_id == user_id
            &&& plan.symbol@ == req.symbol@
            &&& plan.base_asset@ + plan.quote_asset@ == req.symbol@
            &&& plan.base_asset@.len() > 0
            &&& plan.grid_count == req.grid_count
            &&& plan.spacing == req.spacing
        },
{
}

/// The layout of grids that were shared out, round some price.
pub open spec fn layout_for(plan: CenterPlan, counts: Counts, p_floor: Decimal) -> AutoGridLayout {
    AutoGridLayout {
        user_id: plan.user_id,
        p_floor,
        spacing: plan.spacing,
        sell_count: counts.sell_count,
        buy_count: counts.buy_count,
        sell_amount: counts.sell_amount,
        buy_amount: counts.buy_amount,
    }
}

/// Whether grids are laid out round the price.
pub open spec fn round_the_price(
    plan: CenterPlan,
    counts: Counts,
    price: int,
    grids: Seq<NewUserGrid>,
) -> bool {
    exists|p_floor: Decimal|
        laid_out_round(price, #[trigger] layout_for(plan, counts, p_floor), plan.symbol@, grids)
}

/// The grids that a user wishes for are laid out round the current price, as long as it and the
/// spacing have few enough digits, and share out the free balances at that price, with the
/// smallest quantity and value of the trading rules.
pub proof fn law_grids_stand_round_the_current_price(
    plan: CenterPlan,
    known: Gathered,
    next: CenterReplace,
    v: int,
    s: int,
    k: nat,
)
    requires
        call_ensures(
            CenterPlan::gathered,
            (plan, Ok::<Gathered, EngineError>(known)),
            CenterStep::ReplaceAuto(next),
        ),
        short(v, s),
        k <= 28,
        known.price@ == v * pow10(k),
        plan.spacing@ == s * pow10(k),
    ensures
        next.user_id == plan.user_id,
        next.symbol@ == plan.symbol@,
        next.price == known.price,
        round_the_price(plan, next.counts, known.price@, next.grids@),
        (Allocation {
            base: known.base,
            quote: known.quote,
            price: known.price,
            grid_count: plan.grid_count,
            min_qty: known.filters.min_qty,
            min_notional: known.filters.min_notional,
        }).shares_as(
            Ok(
                Some(
                    (
                        next.counts.sell_count,
                        next.counts.buy_count,
                        next.counts.sell_amount,
                        next.counts.buy_amount,
                    ),
                ),
            ),
        ),
{
    let r = CenterStep::ReplaceAuto(next);
    let allocation = plan.allocation(known);
    let counts = choose|counts: Counts| #[trigger]
        plan.shares_out(counts, known, r) && allocation.shares_as(Ok(Some(counts.shares())));
    let found = choose|p_floor: Option<Decimal>| #[trigger]
        is_price_floor(known.price, plan.spacing, p_floor) && match p_floor {
            None => false,
            Some(p_floor) => plan.lays_out(counts, known.price, p_floor, r),
        };
    let layout = layout_for(plan, counts, found->0);
    assert(next.counts == counts);
    lemma_laid_out_round(known.price, layout, plan.symbol@, next.grids@, v, s, k);
}

/// The answer tells how many grids there are and what each trades, at which price.
pub proof fn law_the_answer_tells_what_was_laid_out(
    counts: Counts,
    price: Decimal,
    ids: Vec<i32>,
    r: CenterStep,
)
    requires
        call_ensures(replaced, (counts, price, Ok::<Vec<i32>, String>(ids)), r),
    ensures
        r matches CenterStep::Done(answer) && answer.ids == ids && answer.sell_count
            == counts.sell_count && answer.buy_count == counts.buy_count
            && answer.current_price@ == decimal_text(price.coefficient(), price.places())
            && answer.sell_amount@ == decimal_text(
            counts.sell_amount.coefficient(),
            counts.sell_amount.places(),
        ) && answer.buy_amount@ == decimal_text(
            counts.buy_amount.coefficient(),
            counts.buy_amount.places(),
        ),
{
}

/// Nothing is looked up, let alone replaced, before all orders of the symbol were cancelled.
pub proof fn law_orders_are_cancelled_before_grids_are_laid_out(
    plan: CenterPlan,
    reply: Result<(), BinanceError>,
    r: CenterStep,
)
    requires
        call_ensures(CenterPlan::cancelled, (plan, reply), r),
    ensures
        r == CenterStep::Settle(plan) <==> reply is Ok,
        r == CenterStep::Settle(plan) || r is Failed,
{
}

} // verus!
