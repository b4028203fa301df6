//! Following the price: when it has been out of the range of the grids for long enough,
//! the outermost grid on the far side is moved to the side where the price is.

use crate::decimal::{
    difference_of, law_difference_exact, law_sum_exact, lemma_same_form, minus, plus,
    representable, sum_of, Decimal,
};
use crate::engine::error::EngineError;
use crate::engine::recenter::{recenter_begins, recenter_grids, CancelAll, RecenterStep};
use crate::engine::state::{seconds_between, GridEngine, RANGE_DELAY_SECS};
use crate::exchange::error::BinanceError;
use crate::models::user_grid::{lemma_status_names, NewUserGrid, UserGrid};
use crate::text::{int_text, join, law_int_text_reads_back, parse_i64, parsed_i64, same_text};
use vstd::prelude::*;

verus! {

/// Where the look at the range stands.
pub enum RangeStep {
    /// The last price is wanted.
    Ticker(RangeCheck),
    /// The grid that is to be moved is to be read again: it may have got an order since.
    FindGrid(Slide),
    /// The order of the grid that is to be moved is to be cancelled.
    CancelOrder(SlideCancel),
    /// The grid is to be replaced by the one at the other end.
    ReplaceOne(Slide),
    /// No grid can be moved: all are laid out anew.
    Recenter(RecenterStep),
    /// It is over.
    Done,
    /// It failed.
    Failed(EngineError),
}

/// A look at the range of the grids.
pub struct RangeCheck {
    pub symbol: String,
    pub grids: Vec<UserGrid>,
    pub min_buy: Decimal,
    pub max_sell: Decimal,
}

/// A grid that is to be moved, and the one that takes its place.
pub struct Slide {
    pub symbol: String,
    pub remove_id: i32,
    pub replacement: NewUserGrid,
}

/// A grid that is to be moved, and its order.
pub struct SlideCancel {
    pub slide: Slide,
    pub order_id: i64,
}

/// Whether this is the lowest price at which a grid buys, that of the first of several.
pub open spec fn is_min_buy(grids: Seq<UserGrid>, price: Decimal) -> bool {
    exists|i: int| #[trigger] buys_lowest(grids, i) && grids[i].buy_price == price
}

/// Whether a grid buys at the lowest price, the first of several.
pub open spec fn buys_lowest(grids: Seq<UserGrid>, i: int) -> bool {
    &&& 0 <= i < grids.len()
    &&& forall|j: int|
        0 <= j < grids.len() ==> grids[i].buy_price@ <= (#[trigger] grids[j]).buy_price@ && (j < i
            ==> grids[i].buy_price@ != grids[j].buy_price@)
}

/// Whether this is the highest price at which a grid sells, that of the first of several.
pub open spec fn is_max_sell(grids: Seq<UserGrid>, price: Decimal) -> bool {
    exists|i: int| #[trigger] sells_highest(grids, i) && grids[i].sell_price == price
}

/// Whether a grid sells at the highest price, the first of several.
pub open spec fn sells_highest(grids: Seq<UserGrid>, i: int) -> bool {
    &&& 0 <= i < grids.len()
    &&& forall|j: int|
        0 <= j < grids.len() ==> (#[trigger] grids[j]).sell_price@ <= grids[i].sell_price@ && (j < i
            ==> grids[j].sell_price@ != grids[i].sell_price@)
}

/// Looks whether the price is in the range of the grids.
pub fn check_and_recenter_if_needed(symbol: &str, grids: Vec<UserGrid>) -> (r: RangeStep)
    ensures
        if grids.len() == 0 {
            r == RangeStep::Done
        } else {
            r matches RangeStep::Ticker(next) && next.symbol@ == symbol@ && next.grids == grids
                && is_min_buy(grids@, next.min_buy) && is_max_sell(grids@, next.max_sell)
        },
{
    if grids.len() == 0 {
        return RangeStep::Done;
    }
    let mut min_buy = grids[0].buy_price;
    let mut max_sell = grids[0].sell_price;
    let mut i: usize = 1;
    let ghost (mut low, mut high) = (0int, 0int);
    while i < grids.len()
        invariant
            1 <= i <= grids.len(),
            buys_lowest(grids@.take(i as int), low),
            sells_highest(grids@.take(i as int), high),
            min_buy == grids@[low].buy_price,
            max_sell == grids@[high].sell_price,
        decreases grids.len() - i,
    {
        let ghost before = grids@.take(i as int);
        let ghost after = grids@.take(i + 1);
        proof {
            assert(forall|j: int| 0 <= j < i ==> #[trigger] after[j] == before[j]);
            assert(before[low] == grids@[low] && before[high] == grids@[high]);
            if grids@[i as int].buy_price@ < min_buy@ {
                low = i as int;
            }
            if max_sell@ < grids@[i as int].sell_price@ {
                high = i as int;
            }
        }
        min_buy = min_buy.min(grids[i].buy_price);
        max_sell = max_sell.max(grids[i].sell_price);
        i = i + 1;
    }
    proof {
        assert(grids@.take(i as int) =~= grids@);
        assert(buys_lowest(grids@, low) && sells_highest(grids@, high));
    }
    RangeStep::Ticker(RangeCheck { symbol: symbol.to_owned(), grids, min_buy, max_sell })
}

/// Whether a grid has no fill yet.
pub open spec fn unfilled(g: UserGrid, side: Seq<char>) -> bool {
    g.side@ == side && (g.status@ == "open"@ || g.status@ == "new"@)
}

/// Whether a grid is the one to move when the price is above the range: the lowest of the
/// buy grids without a fill, the first of several.
pub open spec fn lowest_buy(grids: Seq<UserGrid>, k: int) -> bool {
    &&& 0 <= k < grids.len()
    &&& unfilled(grids[k], "buy"@)
    &&& forall|i: int|
        0 <= i < grids.len() && unfilled(#[trigger] grids[i], "buy"@) ==> grids[k].buy_price@
            <= grids[i].buy_price@ && (grids[i].buy_price@ == grids[k].buy_price@ ==> k <= i)
}

/// Whether a grid is the one to move when the price is below the range: the highest of
/// the sell grids without a fill, the last of several.
pub open spec fn highest_sell(grids: Seq<UserGrid>, k: int) -> bool {
    &&& 0 <= k < grids.len()
    &&& unfilled(grids[k], "sell"@)
    &&& forall|i: int|
        0 <= i < grids.len() && unfilled(#[trigger] grids[i], "sell"@) ==> grids[i].sell_price@
            <= grids[k].sell_price@ && (grids[i].sell_price@ == grids[k].sell_price@ ==> i <= k)
}

/// Whether a grid is the one to move.
pub open spec fn to_move(grids: Seq<UserGrid>, up: bool, k: int) -> bool {
    if up {
        lowest_buy(grids, k)
    } else {
        highest_sell(grids, k)
    }
}

/// The side of the grids that are moved.
pub open spec fn moved_side(up: bool) -> Seq<char> {
    if up {
        "buy"@
    } else {
        "sell"@
    }
}

/// The side of the grid that takes the place.
pub open spec fn placed_side(up: bool) -> Seq<char> {
    if up {
        "sell"@
    } else {
        "buy"@
    }
}

/// Whether there is a grid to move.
pub open spec fn can_move(grids: Seq<UserGrid>, up: bool) -> bool {
    exists|i: int| 0 <= i < grids.len() && unfilled(#[trigger] grids[i], moved_side(up))
}

/// The amount of the grid that takes the place: that of the first grid of its side
/// without a fill, else that of the grid that is moved.
pub open spec fn placed_amount(grids: Seq<UserGrid>, up: bool, k: int, from: int) -> Decimal
    decreases grids.len() - from,
{
    if from >= grids.len() {
        grids[k].amount
    } else if unfilled(grids[from], placed_side(up)) {
        grids[from].amount
    } else {
        placed_amount(grids, up, k, from + 1)
    }
}

/// Whether a grid has no fill yet.
fn is_unfilled(g: &UserGrid, side: &str) -> (r: bool)
    ensures
        r == unfilled(*g, side@),
{
    same_text(g.side.as_str(), side) && (same_text(g.status.as_str(), "open") || same_text(
        g.status.as_str(),
        "new",
    ))
}

/// The grid to move, if there is one.
fn find_to_move(grids: &Vec<UserGrid>, up: bool) -> (r: Option<usize>)
    ensures
        match r {
            Some(k) => to_move(grids@, up, k as int) && can_move(grids@, up),
            None => !can_move(grids@, up),
        },
{
    let side = if up {
        "buy"
    } else {
        "sell"
    };
    let mut best: Option<usize> = None;
    let mut i: usize = 0;
    while i < grids.len()
        invariant
            i <= grids.len(),
            side@ == moved_side(up),
            match best {
                None => forall|j: int|
                    0 <= j < i ==> !unfilled(#[trigger] grids@[j], moved_side(up)),
                Some(k) => {
                    &&& k < i
                    &&& unfilled(grids@[k as int], moved_side(up))
                    &&& forall|j: int|
                        0 <= j < i && unfilled(#[trigger] grids@[j], moved_side(up)) ==> if up {
                            grids@[k as int].buy_price@ <= grids@[j].buy_price@ && (
                            grids@[j].buy_price@ == grids@[k as int].buy_price@ ==> k <= j)
                        } else {
                            grids@[j].sell_price@ <= grids@[k as int].sell_price@ && (
                            grids@[j].sell_price@ == grids@[k as int].sell_price@ ==> j <= k)
                        }
                },
            },
        decreases grids.len() - i,
    {
        if is_unfilled(&grids[i], side) {
            match best {
                None => {
                    best = Some(i);
                },
                Some(k) => {
                    if up {
                        if grids[i].buy_price < grids[k].buy_price {
                            best = Some(i);
                        }
                    } else if grids[i].sell_price >= grids[k].sell_price {
                        best = Some(i);
                    }
                },
            }
        }
        i = i + 1;
    }
    if let Some(k) = best {
        assert(unfilled(grids@[k as int], moved_side(up)));
    }
    best
}

/// The amount of the grid that takes the place of another.
fn find_amount(grids: &Vec<UserGrid>, up: bool, k: usize) -> (r: Decimal)
    requires
        k < grids.len(),
    ensures
        r == placed_amount(grids@, up, k as int, 0),
{
    let side = if up {
        "sell"
    } else {
        "buy"
    };
    let mut i: usize = 0;
    while i < grids.len()
        invariant
            i <= grids.len(),
            side@ == placed_side(up),
            placed_amount(grids@, up, k as int, 0) == placed_amount(grids@, up, k as int, i as int),
        decreases grids.len() - i,
    {
        if is_unfilled(&grids[i], side) {
            return grids[i].amount;
        }
        i = i + 1;
    }
    grids[k].amount
}

/// Whether this is the grid that takes the place: one spacing beyond the range, on the
/// side where the price is.
pub open spec fn replaces(
    symbol: Seq<char>,
    grids: Seq<UserGrid>,
    up: bool,
    k: int,
    buy_price: int,
    sell_price: int,
    forms: ((i128, u32), (i128, u32)),
    new: NewUserGrid,
) -> bool {
    &&& new.user_id == grids[0].user_id
    &&& new.symbol@ == symbol
    &&& new.amount == placed_amount(grids, up, k, 0)
    &&& new.buy_price@ == buy_price
    &&& new.sell_price@ == sell_price
    &&& (new.buy_price.form(), new.sell_price.form()) == forms
    &&& new.side@ == placed_side(up)
    &&& new.source@ == "auto"@
}

/// The prices of the grid that takes the place.
pub open spec fn placed_prices(min_buy: int, max_sell: int, spacing: int, up: bool) -> Option<
    (int, int),
> {
    if up {
        match sum_of(max_sell, spacing) {
            Some(top) => Some((max_sell, top)),
            None => None,
        }
    } else {
        match difference_of(min_buy, spacing) {
            Some(bottom) => Some((bottom, min_buy)),
            None => None,
        }
    }
}

/// The prices of the grid that takes the place, as they are written.
pub open spec fn placed_forms(check: RangeCheck, up: bool) -> ((i128, u32), (i128, u32)) {
    let first = check.grids@[0];
    let spacing = minus(first.sell_price.form(), first.buy_price.form())->0;
    if up {
        (check.max_sell.form(), plus(check.max_sell.form(), spacing)->0)
    } else {
        (minus(check.min_buy.form(), spacing)->0, check.min_buy.form())
    }
}

/// What comes of a price that is out of range. With no grid to move all are laid out
/// anew.
pub open spec fn slides(check: RangeCheck, price: Decimal, up: bool, r: RangeStep) -> bool {
    let grids = check.grids@;
    let spacing = difference_of(grids[0].sell_price@, grids[0].buy_price@);
    if grids.len() == 0 {
        r == RangeStep::Done
    } else {
        match spacing {
            None => r == RangeStep::Failed(EngineError::Overflow),
            Some(spacing) => if !can_move(grids, up) {
                r matches RangeStep::Recenter(step) && recenter_begins(
                    check.symbol@,
                    grids,
                    price,
                    step,
                )
            } else {
                match placed_prices(check.min_buy@, check.max_sell@, spacing, up) {
                    None => r == RangeStep::Failed(EngineError::Overflow),
                    Some((buy, sell)) => r matches RangeStep::FindGrid(slide) && slide.symbol
                        == check.symbol && exists|k: int| #[trigger]
                        to_move(grids, up, k) && slide.remove_id == grids[k].id && replaces(
                            check.symbol@,
                            grids,
                            up,
                            k,
                            buy,
                            sell,
                            placed_forms(check, up),
                            slide.replacement,
                        ),
                }
            },
        }
    }
}

/// A grid that is to be moved is read again before anything is done to it, and it is one of
/// the grids without a fill on the side that the price has left.
pub proof fn law_moved_grids_are_read_again(
    check: RangeCheck,
    price: Decimal,
    up: bool,
    r: RangeStep,
)
    requires
        slides(check, price, up, r),
    ensures
        r is FindGrid || r is Recenter || r is Done || r is Failed,
        r matches RangeStep::FindGrid(slide) ==> exists|k: int|
            0 <= k < check.grids.len() && (#[trigger] check.grids@[k]).id == slide.remove_id
                && unfilled(check.grids@[k], moved_side(up)),
{
    if let RangeStep::FindGrid(slide) = r {
        let k = choose|k: int| #[trigger]
            to_move(check.grids@, up, k) && slide.remove_id == check.grids@[k].id;
        assert(check.grids@[k].id == slide.remove_id);
    }
}

impl RangeCheck {
    /// Whether a price is in range.
    pub open spec fn contains(self, price: int) -> bool {
        self.min_buy@ <= price <= self.max_sell@
    }

    /// Begins to move a grid after the price, which is above the range or below it. A price
    /// that is in range after all is not followed.
    pub fn slide_window(self, engine: &mut GridEngine, current_price: Decimal) -> (r: RangeStep)
        ensures
            final(engine).filters == old(engine).filters,
            if self.grids.len() > 0 && self.contains(current_price@) && difference_of(
                self.grids@[0].sell_price@,
                self.grids@[0].buy_price@,
            ) is Some {
                r == RangeStep::Done && final(engine).out_of_range_since@
                    == old(engine).out_of_range_since@.remove(self.symbol@)
            } else {
                slides(self, current_price, current_price@ > self.max_sell@, r) && *final(engine)
                    == *old(engine)
            },
    {
        if self.grids.len() == 0 {
            return RangeStep::Done;
        }
        let first = &self.grids[0];
        let spacing = match first.sell_price.checked_sub(first.buy_price) {
            Some(spacing) => spacing,
            None => {
                return RangeStep::Failed(EngineError::Overflow);
            },
        };
        let up = current_price > self.max_sell;
        if !up && current_price >= self.min_buy {
            engine.clear_out_of_range(self.symbol.as_str());
            return RangeStep::Done;
        }
        let k = match find_to_move(&self.grids, up) {
            Some(k) => k,
            None => {
                return RangeStep::Recenter(
                    recenter_grids(self.symbol.as_str(), &self.grids, current_price),
                );
            },
        };
        let amount = find_amount(&self.grids, up, k);
        let prices = if up {
            match self.max_sell.checked_add(spacing) {
                Some(top) => Some((self.max_sell, top)),
                None => None,
            }
        } else {
            match self.min_buy.checked_sub(spacing) {
                Some(bottom) => Some((bottom, self.min_buy)),
                None => None,
            }
        };
        let (buy_price, sell_price) = match prices {
            Some(prices) => prices,
            None => {
                return RangeStep::Failed(EngineError::Overflow);
            },
        };
        let side = if up {
            "sell"
        } else {
            "buy"
        };
        let replacement = NewUserGrid {
            user_id: first.user_id,
            amount,
            buy_price,
            sell_price,
            side: side.to_owned(),
            symbol: self.symbol.clone(),
            source: "auto".to_owned(),
        };
        let remove_id = self.grids[k].id;
        assert(to_move(self.grids@, up, k as int));
        RangeStep::FindGrid(Slide { symbol: self.symbol, remove_id, replacement })
    }

    /// Goes on with the last price. A price that has been out of range for long enough is
    /// followed.
    pub fn resume(self, engine: &mut GridEngine, reply: Result<Decimal, BinanceError>, now: u64)
        -> (r: RangeStep)
        ensures
            final(engine).filters == old(engine).filters,
            match reply {
                Err(e) => (r matches RangeStep::Failed(EngineError::Context(what, source)) && what@
                    == self.symbol@ + " 获取当前价格失败"@ && source == e) && *final(engine)
                    == *old(engine),
                Ok(price) => {
                    let above = price@ > self.max_sell@;
                    let out = !self.contains(price@);
                    let before = old(engine).out_of_range_since@;
                    let since = if before.contains_key(self.symbol@) {
                        before[self.symbol@]
                    } else {
                        now
                    };
                    &&& final(engine).out_of_range_since@ == if out {
                        before.insert(self.symbol@, since)
                    } else {
                        before.remove(self.symbol@)
                    }
                    &&& if out && seconds_between(since, now) >= RANGE_DELAY_SECS {
                        slides(self, price, above, r)
                    } else {
                        r == RangeStep::Done
                    }
                },
            },
    {
        let price = match reply {
            Ok(price) => price,
            Err(e) => {
                return RangeStep::Failed(
                    EngineError::Context(join(self.symbol.as_str(), " 获取当前价格失败"), e),
                );
            },
        };
        let out_of_range = price < self.min_buy || price > self.max_sell;
        if engine.note_range(self.symbol.as_str(), out_of_range, now) {
            self.slide_window(engine, price)
        } else {
            RangeStep::Done
        }
    }
}

impl Slide {
    /// Goes on with the grid as it is now. If it is gone nothing is done; if it has an
    /// order, that is cancelled first.
    pub fn resume(self, reply: Result<Option<UserGrid>, String>) -> (r: RangeStep)
        ensures
            match reply {
                Err(reason) => r == RangeStep::Failed(EngineError::Database(reason)),
                Ok(None) => r == RangeStep::Done,
                Ok(Some(grid)) => if grid.status@ == "deleted"@ {
                    r == RangeStep::Done
                } else if grid.status@ == "open"@ && grid.order_id is Some && parsed_i64(
                    grid.order_id->0@,
                ) is Some {
                    r matches RangeStep::CancelOrder(next) && next.slide == self && Some(
                        next.order_id as int,
                    ) == parsed_i64(grid.order_id->0@)
                } else {
                    r == RangeStep::ReplaceOne(self)
                },
            },
    {
        let grid = match reply {
            Err(reason) => {
                return RangeStep::Failed(EngineError::Database(reason));
            },
            Ok(None) => {
                return RangeStep::Done;
            },
            Ok(Some(grid)) => grid,
        };
        if same_text(grid.status.as_str(), "deleted") {
            return RangeStep::Done;
        }
        if same_text(grid.status.as_str(), "open") {
            if let Some(text) = &grid.order_id {
                if let Some(order_id) = parse_i64(text.as_str()) {
                    return RangeStep::CancelOrder(SlideCancel { slide: self, order_id });
                }
            }
        }
        RangeStep::ReplaceOne(self)
    }

    /// Ends it, with whether the grid was replaced. If so the price counts as in range
    /// again.
    pub fn replaced(symbol: &str, engine: &mut GridEngine, reply: Result<Option<i32>, String>)
        -> (r: RangeStep)
        ensures
            final(engine).filters == old(engine).filters,
            match reply {
                Err(reason) => r == RangeStep::Failed(EngineError::Database(reason))
                    && *final(engine) == *old(engine),
                Ok(None) => r == RangeStep::Done && *final(engine) == *old(engine),
                Ok(Some(_)) => r == RangeStep::Done && final(engine).out_of_range_since@
                    == old(engine).out_of_range_since@.remove(symbol@),
            },
    {
        match reply {
            Err(reason) => RangeStep::Failed(EngineError::Database(reason)),
            Ok(None) => RangeStep::Done,
            Ok(Some(_)) => {
                engine.clear_out_of_range(symbol);
                RangeStep::Done
            },
        }
    }
}

/// Whether an order certainly does not stand any more after it was cancelled: it was, or
/// the exchange knows of none (-2011, -2013).
pub open spec fn surely_gone(reply: Result<(), BinanceError>) -> bool {
    match reply {
        Ok(()) => true,
        Err(BinanceError::Api { code, .. }) => code == -2011 || code == -2013,
        Err(_) => false,
    }
}

/// Tells a cancelled order, or one that does not exist, from one that may still stand.
pub fn cancel_or_abort(reply: Result<(), BinanceError>) -> (r: Result<(), BinanceError>)
    ensures
        r is Ok <==> surely_gone(reply),
        r matches Err(e) ==> reply == Err::<(), BinanceError>(e),
{
    match reply {
        Ok(()) => Ok(()),
        Err(e) => if e.has_code(-2011) || e.has_code(-2013) {
            Ok(())
        } else {
            Err(e)
        },
    }
}

impl SlideCancel {
    /// Goes on with what became of the order. Where it may still stand, the grid is not
    /// replaced: its row holds the only trace of the order.
    pub fn resume(self, reply: Result<(), BinanceError>) -> (r: RangeStep)
        ensures
            if surely_gone(reply) {
                r == RangeStep::ReplaceOne(self.slide)
            } else {
                r == RangeStep::Failed(EngineError::Exchange(reply->Err_0))
            },
    {
        match cancel_or_abort(reply) {
            Ok(()) => RangeStep::ReplaceOne(self.slide),
            Err(e) => RangeStep::Failed(EngineError::Exchange(e)),
        }
    }
}

/// Whether a grid of some side has no fill yet, so that it can be moved.
pub open spec fn waits(g: UserGrid, side: Seq<char>) -> bool {
    g.side@ == side && (g.status@ == "open"@ || g.status@ == "new"@)
}

/// What is so of a grid that takes the place of another, whichever way the price has gone: it
/// is as wide as the first grid and stands next to the range on the side where the price is.
pub open spec fn next_to_the_range(check: RangeCheck, up: bool, new: NewUserGrid) -> bool {
    &&& new.sell_price@ - new.buy_price@ == check.grids@[0].sell_price@
        - check.grids@[0].buy_price@
    &&& up ==> new.buy_price == check.max_sell && new.side@ == "sell"@
    &&& !up ==> new.sell_price == check.min_buy && new.side@ == "buy"@
    &&& new.user_id == check.grids@[0].user_id
    &&& new.symbol@ == check.symbol@
    &&& new.source@ == "auto"@
}

/// Whether no price of the grid that takes the place has to be rounded off.
pub open spec fn slides_exactly(check: RangeCheck) -> bool {
    let spacing = check.grids@[0].sell_price@ - check.grids@[0].buy_price@;
    &&& representable(spacing)
    &&& representable(check.max_sell@ + spacing)
    &&& representable(check.min_buy@ - spacing)
}

/// Whether a grid is the outermost on the side that the price has left: of several at the same
/// price the first one below and the last one above.
pub open spec fn outermost(grids: Seq<UserGrid>, up: bool, k: int) -> bool {
    &&& 0 <= k < grids.len()
    &&& up ==> waits(grids[k], "buy"@) && forall|i: int|
        0 <= i < grids.len() && i != k && waits(#[trigger] grids[i], "buy"@)
            ==> grids[k].buy_price@ < grids[i].buy_price@ || (grids[k].buy_price@
            == grids[i].buy_price@ && k < i)
    &&& !up ==> waits(grids[k], "sell"@) && forall|i: int|
        0 <= i < grids.len() && i != k && waits(#[trigger] grids[i], "sell"@)
            ==> grids[i].sell_price@ < grids[k].sell_price@ || (grids[i].sell_price@
            == grids[k].sell_price@ && i < k)
}

/// Whether the grid that is moved is the outermost, and the one that takes its place trades as
/// much as the first grid of its side, or as the moved one if there is none.
pub open spec fn moves_outermost(check: RangeCheck, up: bool, slide: Slide, k: int) -> bool {
    let grids = check.grids@;
    let side = if up {
        "sell"@
    } else {
        "buy"@
    };
    &&& outermost(grids, up, k)
    &&& slide.remove_id == grids[k].id
    &&& (forall|i: int| 0 <= i < grids.len() ==> !waits(#[trigger] grids[i], side))
        ==> slide.replacement.amount == grids[k].amount
    &&& forall|j: int|
        0 <= j < grids.len() && waits(#[trigger] grids[j], side) && (forall|i: int|
            0 <= i < j ==> !waits(#[trigger] grids[i], side)) ==> slide.replacement.amount
            == grids[j].amount
}

/// Whether the outermost grid is moved.
pub open spec fn moves_the_outermost(check: RangeCheck, up: bool, slide: Slide) -> bool {
    exists|k: int| #[trigger] moves_outermost(check, up, slide, k)
}

proof fn lemma_placed_amount(grids: Seq<UserGrid>, up: bool, k: int, from: int)
    requires
        0 <= from <= grids.len(),
        forall|i: int| 0 <= i < from ==> !unfilled(#[trigger] grids[i], placed_side(up)),
    ensures
        ({
            let amount = placed_amount(grids, up, k, from);
            &&& (forall|i: int|
                0 <= i < grids.len() ==> !unfilled(#[trigger] grids[i], placed_side(up)))
                ==> amount == grids[k].amount
            &&& forall|j: int|
                0 <= j < grids.len() && unfilled(#[trigger] grids[j], placed_side(up)) && (forall|
                    i: int,
                |
                    0 <= i < j ==> !unfilled(#[trigger] grids[i], placed_side(up))) ==> amount
                    == grids[j].amount
        }),
    decreases grids.len() - from,
{
    if from < grids.len() {
        if unfilled(grids[from], placed_side(up)) {
            assert forall|j: int|
                0 <= j < grids.len() && unfilled(#[trigger] grids[j], placed_side(up)) && (forall|
                    i: int,
                |
                    0 <= i < j ==> !unfilled(#[trigger] grids[i], placed_side(up)))
                implies placed_amount(grids, up, k, from) == grids[j].amount by {
                if from < j {
                    assert(!unfilled(grids[from], placed_side(up)));
                }
                if j < from {
                    assert(!unfilled(grids[j], placed_side(up)));
                }
            }
        } else {
            lemma_placed_amount(grids, up, k, from + 1);
        }
    }
}

proof fn lemma_slide(check: RangeCheck, price: Decimal, up: bool, slide: Slide)
    requires
        slides(check, price, up, RangeStep::FindGrid(slide)),
        slides_exactly(check),
    ensures
        check.grids.len() > 0,
        slide.symbol@ == check.symbol@,
        next_to_the_range(check, up, slide.replacement),
        moves_the_outermost(check, up, slide),
{
    let grids = check.grids@;
    let spacing = grids[0].sell_price@ - grids[0].buy_price@;
    law_difference_exact(grids[0].sell_price@, grids[0].buy_price@);
    law_sum_exact(check.max_sell@, spacing);
    law_difference_exact(check.min_buy@, spacing);
    let k = choose|k: int| #[trigger]
        to_move(grids, up, k) && slide.remove_id == grids[k].id && slide.replacement.amount
            == placed_amount(grids, up, k, 0) && slide.replacement.user_id == grids[0].user_id
            && slide.replacement.symbol@ == check.symbol@ && slide.replacement.side@ == placed_side(
            up,
        ) && slide.replacement.source@ == "auto"@;
    lemma_placed_amount(grids, up, k, 0);
    if up {
        lemma_same_form(slide.replacement.buy_price, check.max_sell);
    } else {
        lemma_same_form(slide.replacement.sell_price, check.min_buy);
    }
    assert forall|i: int, side: Seq<char>| 0 <= i < grids.len() implies waits(
        #[trigger] grids[i],
        side,
    ) == #[trigger] unfilled(grids[i], side) by {}
    assert(moves_outermost(check, up, slide, k));
}

/// Where no price is rounded off, the grid that takes the place of another is exactly as wide
/// as the first grid and stands next to the range, above it if the price is above and below it
/// if the price is below; beyond that the price makes no difference to it. The grid that is
/// moved is the outermost on the side that the price has left.
pub proof fn law_moved_grids_stand_next_to_the_range(
    check: RangeCheck,
    engine: &mut GridEngine,
    price: Decimal,
    slide: Slide,
)
    requires
        call_ensures(
            RangeCheck::slide_window,
            (check, engine, price),
            RangeStep::FindGrid(slide),
        ),
        slides_exactly(check),
    ensures
        price@ > check.max_sell@ || price@ < check.min_buy@,
        slide.symbol@ == check.symbol@,
        next_to_the_range(check, price@ > check.max_sell@, slide.replacement),
        moves_the_outermost(check, price@ > check.max_sell@, slide),
{
    law_difference_exact(check.grids@[0].sell_price@, check.grids@[0].buy_price@);
    lemma_slide(check, price, price@ > check.max_sell@, slide);
}

/// A price that is out of range is followed by moving a grid if one can be moved, and only if
/// not by laying all of them out anew.
pub proof fn law_grids_are_moved_if_one_can_be(
    check: RangeCheck,
    engine: &mut GridEngine,
    price: Decimal,
    r: RangeStep,
)
    requires
        call_ensures(RangeCheck::slide_window, (check, engine, price), r),
        check.grids.len() > 0,
        slides_exactly(check),
        check.min_buy@ <= check.max_sell@,
    ensures
        ({
            let side = if price@ > check.max_sell@ {
                "buy"@
            } else {
                "sell"@
            };
            let can = exists|i: int|
                0 <= i < check.grids.len() && waits(#[trigger] check.grids@[i], side);
            if check.min_buy@ <= price@ <= check.max_sell@ {
                r == RangeStep::Done
            } else if can {
                r is FindGrid
            } else {
                r is Recenter
            }
        }),
{
    let grids = check.grids@;
    let up = price@ > check.max_sell@;
    let spacing = grids[0].sell_price@ - grids[0].buy_price@;
    law_difference_exact(grids[0].sell_price@, grids[0].buy_price@);
    law_sum_exact(check.max_sell@, spacing);
    law_difference_exact(check.min_buy@, spacing);
    assert forall|i: int| 0 <= i < grids.len() implies waits(#[trigger] grids[i], moved_side(up))
        == unfilled(grids[i], moved_side(up)) by {}
    if exists|i: int| 0 <= i < grids.len() && waits(#[trigger] grids[i], moved_side(up)) {
        let i = choose|i: int| 0 <= i < grids.len() && waits(#[trigger] grids[i], moved_side(up));
        assert(unfilled(grids[i], moved_side(up)));
        assert(can_move(grids, up));
    } else if can_move(grids, up) {
        let i = choose|i: int|
            0 <= i < grids.len() && unfilled(#[trigger] grids[i], moved_side(up));
        assert(waits(grids[i], moved_side(up)));
    }
}

/// A price in range is not followed, and forgotten to have been out. A price that is out of
/// range is remembered since when it is, and followed only when it has been for 300 seconds.
/// Other symbols are left alone.
pub proof fn law_prices_are_followed_after_five_minutes(
    check: RangeCheck,
    engine: &mut GridEngine,
    price: Decimal,
    now: u64,
    r: RangeStep,
    other: Seq<char>,
)
    requires
        call_ensures(
            RangeCheck::resume,
            (check, engine, Ok::<Decimal, BinanceError>(price), now),
            r,
        ),
        check.grids.len() > 0,
        other != check.symbol@,
    ensures
        ({
            let before = old(engine).out_of_range_since@;
            let after = final(engine).out_of_range_since@;
            let symbol = check.symbol@;
            &&& before.contains_key(other) == after.contains_key(other)
            &&& before.contains_key(other) ==> before[other] == after[other]
            &&& check.min_buy@ <= price@ <= check.max_sell@ ==> r == RangeStep::Done
                && !after.contains_key(symbol)
            &&& price@ < check.min_buy@ || price@ > check.max_sell@ ==> {
                &&& after.contains_key(symbol)
                &&& !before.contains_key(symbol) ==> after[symbol] == now && r == RangeStep::Done
                &&& before.contains_key(symbol) ==> after[symbol] == before[symbol]
                &&& before.contains_key(symbol) && now - before[symbol] < 300_000_000_000
                    ==> r == RangeStep::Done
                &&& before.contains_key(symbol) && now - before[symbol] >= 300_000_000_000
                    ==> r is FindGrid || r is Recenter || r is Failed
            }
        }),
{
}

/// A grid that is moved because the price has been out of range for long enough is moved just
/// as it is when the price is followed at once.
pub proof fn law_followed_prices_move_the_outermost_grid(
    check: RangeCheck,
    engine: &mut GridEngine,
    price: Decimal,
    now: u64,
    slide: Slide,
)
    requires
        call_ensures(
            RangeCheck::resume,
            (check, engine, Ok::<Decimal, BinanceError>(price), now),
            RangeStep::FindGrid(slide),
        ),
        slides_exactly(check),
    ensures
        price@ > check.max_sell@ || price@ < check.min_buy@,
        slide.symbol@ == check.symbol@,
        next_to_the_range(check, price@ > check.max_sell@, slide.replacement),
        moves_the_outermost(check, price@ > check.max_sell@, slide),
{
    lemma_slide(check, price, price@ > check.max_sell@, slide);
}

/// The range reaches from the lowest price at which a grid buys to the highest at which one
/// sells.
pub proof fn law_the_range_holds_every_grid(symbol: &str, grids: Vec<UserGrid>, check: RangeCheck)
    requires
        call_ensures(check_and_recenter_if_needed, (symbol, grids), RangeStep::Ticker(check)),
    ensures
        check.symbol@ == symbol@,
        check.grids == grids,
        grids.len() > 0,
        forall|i: int|
            0 <= i < grids.len() ==> check.min_buy@ <= (#[trigger] grids@[i]).buy_price@
                && grids@[i].sell_price@ <= check.max_sell@,
        exists|i: int| 0 <= i < grids.len() && (#[trigger] grids@[i]).buy_price == check.min_buy,
        exists|i: int| 0 <= i < grids.len() && (#[trigger] grids@[i]).sell_price == check.max_sell,
{
    let low = choose|i: int| #[trigger]
        buys_lowest(grids@, i) && grids@[i].buy_price == check.min_buy;
    let high = choose|i: int| #[trigger]
        sells_highest(grids@, i) && grids@[i].sell_price == check.max_sell;
    assert(grids@[low].buy_price == check.min_buy);
    assert(grids@[high].sell_price == check.max_sell);
}

/// A grid that is to be moved and has an order by now has just that order cancelled first, and
/// is replaced only when the order certainly does not stand any more.
pub proof fn law_moved_grids_lose_their_order_first(
    slide: Slide,
    grid: UserGrid,
    r: RangeStep,
    order_id: i64,
    reply: Result<(), BinanceError>,
    after: RangeStep,
)
    requires
        call_ensures(Slide::resume, (slide, Ok::<Option<UserGrid>, String>(Some(grid))), r),
        call_ensures(SlideCancel::resume, (SlideCancel { slide, order_id }, reply), after),
    ensures
        grid.status@ == "deleted"@ ==> r == RangeStep::Done,
        grid.status@ == "open"@ && (grid.order_id matches Some(text) && text@ == int_text(
            order_id as int,
        )) ==> r == RangeStep::CancelOrder(SlideCancel { slide, order_id }),
        grid.status@ == "new"@ ==> r == RangeStep::ReplaceOne(slide),
        after == RangeStep::ReplaceOne(slide) <==> match reply {
            Ok(()) => true,
            Err(BinanceError::Api { code, .. }) => code == -2011 || code == -2013,
            Err(_) => false,
        },
        after != RangeStep::ReplaceOne(slide) ==> (reply matches Err(e) && after
            == RangeStep::Failed(EngineError::Exchange(e))),
{
    law_int_text_reads_back(order_id);
    lemma_status_names();
}

/// Where no grid can be moved all grids are laid out anew at the current price: as many, as far
/// apart and of the same user as the grids that there are.
pub proof fn law_without_a_grid_to_move_all_are_laid_out_anew(
    check: RangeCheck,
    engine: &mut GridEngine,
    price: Decimal,
    next: CancelAll,
)
    requires
        call_ensures(
            RangeCheck::slide_window,
            (check, engine, price),
            RangeStep::Recenter(RecenterStep::CancelAll(next)),
        ),
        slides_exactly(check),
    ensures
        next.plan.symbol@ == check.symbol@,
        next.plan.price == price,
        next.plan.user_id == check.grids@[0].user_id,
        next.plan.spacing@ == check.grids@[0].sell_price@ - check.grids@[0].buy_price@,
        check.grids.len() <= u32::MAX ==> next.plan.grid_count == check.grids.len(),
{
    law_difference_exact(check.grids@[0].sell_price@, check.grids@[0].buy_price@);
}

/// When a grid was moved the price counts as in range again, and only then.
pub proof fn law_moved_grids_start_the_count_anew(
    symbol: &str,
    engine: &mut GridEngine,
    reply: Result<Option<i32>, String>,
    r: RangeStep,
)
    requires
        call_ensures(Slide::replaced, (symbol, engine, reply), r),
    ensures
        (reply matches Ok(Some(_))) ==> !final(engine).out_of_range_since@.contains_key(symbol@),
        !(reply matches Ok(Some(_))) ==> *final(engine) == *old(engine),
        r == RangeStep::Done <==> reply is Ok,
        r == RangeStep::Done || r is Failed,
{
}

} // verus!
