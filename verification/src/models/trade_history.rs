//! Trades: what a grid has earned.

use crate::decimal::{
    difference_of, law_difference_exact, law_product_exact, lemma_nearest_sign,
    lemma_pow10_positive, minus, one, product_of, representable, times, Decimal,
};
use crate::models::user_grid::{
    change_rows, copy_table, rows, selected, selected_count, updated, versions_exhausted, Change,
    GridRow, GridStatus, UserGrid, Which,
};
use vstd::prelude::*;

verus! {

/// A trade that was recorded. The time counts microseconds.
#[derive(Debug)]
pub struct TradeHistory {
    pub id: i32,
    pub user_id: i32,
    pub symbol: String,
    pub order_id: Option<String>,
    pub amount: Decimal,
    pub buy_price: Decimal,
    pub sell_price: Decimal,
    pub profit: Option<Decimal>,
    pub source: Option<String>,
    pub source_id: Option<i32>,
    pub filled_at: Option<i64>,
}

/// A trade that is to be recorded.
#[derive(Debug)]
pub struct NewTradeHistory {
    pub user_id: i32,
    pub symbol: String,
    pub order_id: String,
    pub amount: Decimal,
    pub buy_price: Decimal,
    pub sell_price: Decimal,
    pub source: String,
    pub source_id: i32,
}

/// A trade that is to be recorded, with what it has earned.
#[derive(Debug)]
pub struct TradeRecord {
    pub trade: NewTradeHistory,
    pub profit: Decimal,
}

/// What all trades of a user have earned.
#[derive(Clone, Copy, Debug)]
pub struct ProfitStats {
    pub total_profit: Decimal,
    pub trade_count: i64,
}

impl Default for ProfitStats {
    /// Nothing was traded.
    fn default() -> (r: ProfitStats)
        ensures
            r.total_profit@ == 0,
            r.total_profit.form() == (0i128, 0u32),
            r.trade_count == 0,
    {
        ProfitStats { total_profit: Decimal::zero(), trade_count: 0 }
    }
}

/// The difference of the prices, times the amount; `None` where that is too large.
pub open spec fn profit_of(sell_price: int, buy_price: int, amount: int) -> Option<int> {
    match difference_of(sell_price, buy_price) {
        Some(margin) => product_of(margin, amount),
        None => None,
    }
}

/// The difference of the prices, times the amount, as it is written.
pub open spec fn profit_form(t: NewTradeHistory) -> (i128, u32) {
    times(minus(t.sell_price.form(), t.buy_price.form())->0, t.amount.form())->0
}

/// Selling an amount at no less than it was bought for earns nothing negative.
pub proof fn law_profit_is_not_negative(sell_price: int, buy_price: int, amount: int)
    requires
        sell_price >= buy_price,
        amount >= 0,
        profit_of(sell_price, buy_price, amount) is Some,
    ensures
        profit_of(sell_price, buy_price, amount)->0 >= 0,
{
    lemma_pow10_positive(28);
    lemma_nearest_sign(sell_price - buy_price, 1, false);
    let margin = difference_of(sell_price, buy_price)->0;
    assert(margin * amount >= 0) by (nonlinear_arith)
        requires
            margin >= 0,
            amount >= 0,
    ;
    lemma_nearest_sign(margin * amount, one(), false);
}

/// Why a grid could not be closed.
#[derive(Clone, Copy, Debug, PartialEq, Eq, Structural)]
pub enum CloseError {
    /// The version of the row is the largest there is.
    VersionOutOfRange,
    /// The profit is too large.
    Overflow,
}

/// What closing a grid comes to.
#[derive(Debug)]
pub enum Closing {
    /// The row is no longer as it was read.
    Lost,
    /// The grid is closed, and this is to be recorded with it.
    Closed(Option<TradeRecord>),
}

/// What closing a grid comes to, for the table and for the trade.
pub open spec fn closed_as(
    before: Seq<UserGrid>,
    after: Seq<UserGrid>,
    grid_id: i32,
    version: i64,
    trade: Option<NewTradeHistory>,
    settled_amount: Option<Decimal>,
    now: i64,
    r: Result<Closing, CloseError>,
) -> bool {
    let which = Which::AsRead { id: grid_id, version, status: GridStatus::Open };
    let profit = match trade {
        Some(t) => profit_of(t.sell_price@, t.buy_price@, t.amount@),
        None => Some(0int),
    };
    let exhausted = versions_exhausted(rows(before), which);
    let found = selected_count(rows(before), which) == 1;
    match r {
        Err(CloseError::VersionOutOfRange) => exhausted && after == before,
        Err(CloseError::Overflow) => !exhausted && found && profit is None && after == before,
        Ok(Closing::Lost) => !exhausted && !found && after == before,
        Ok(Closing::Closed(record)) => {
            &&& !exhausted
            &&& found
            &&& profit is Some
            &&& rows(after) == updated(
                rows(before),
                which,
                (Change::Close { settled: settled_amount }),
                now,
            )
            &&& match (trade, record) {
                (Some(t), Some(rec)) => rec.trade == t && rec.profit@ == profit->0
                    && rec.profit.form() == profit_form(t),
                (None, None) => true,
                _ => false,
            }
        },
    }
}

/// Closes a grid whose order was filled, and hands out the trade that is to be recorded
/// with it, if there is one. Either both is done or nothing: where the row is no longer as
/// it was read, or the profit cannot be computed, the table stays as it is. The amount
/// of the grid becomes what was settled, if that is given.
pub fn close_grid_with_trade_amount(
    table: &mut Vec<UserGrid>,
    grid_id: i32,
    version: i64,
    trade: Option<NewTradeHistory>,
    settled_amount: Option<Decimal>,
    now: i64,
) -> (r: Result<Closing, CloseError>)
    ensures
        closed_as(old(table)@, final(table)@, grid_id, version, trade, settled_amount, now, r),
{
    let which = Which::AsRead { id: grid_id, version, status: GridStatus::Open };
    let mut after = copy_table(table);
    let change = Change::Close { settled: settled_amount };
    let count = match change_rows(&mut after, which, change, now) {
        Ok(count) => count,
        Err(_) => {
            return Err(CloseError::VersionOutOfRange);
        },
    };
    if count != 1 {
        return Ok(Closing::Lost);
    }
    let record = match trade {
        Some(t) => {
            let profit = match t.sell_price.checked_sub(t.buy_price) {
                Some(margin) => margin.checked_mul(t.amount),
                None => None,
            };
            match profit {
                Some(profit) => Some(TradeRecord { trade: t, profit }),
                None => {
                    return Err(CloseError::Overflow);
                },
            }
        },
        None => None,
    };
    *table = after;
    Ok(Closing::Closed(record))
}

/// Closes a grid whose order was filled for its whole amount.
pub fn close_grid_with_trade(
    table: &mut Vec<UserGrid>,
    grid_id: i32,
    version: i64,
    trade: Option<NewTradeHistory>,
    now: i64,
) -> (r: Result<Closing, CloseError>)
    ensures
        closed_as(old(table)@, final(table)@, grid_id, version, trade, None, now, r),
{
    close_grid_with_trade_amount(table, grid_id, version, trade, None, now)
}

/// Closing a grid whose order was filled closes just that grid, if it is open and of the
/// version that was read, with the amount that was settled if there is one; every other row
/// stays exactly as it is. What it earned is the difference of the prices times the amount,
/// where the two are numbers: `margin` and `profit`.
pub proof fn law_closing_a_grid(
    table: &mut Vec<UserGrid>,
    grid_id: i32,
    version: i64,
    trade: Option<NewTradeHistory>,
    settled_amount: Option<Decimal>,
    now: i64,
    r: Result<Closing, CloseError>,
    i: int,
    margin: int,
    profit: int,
)
    requires
        call_ensures(
            close_grid_with_trade_amount,
            (table, grid_id, version, trade, settled_amount, now),
            r,
        ),
        0 <= i < old(table).len(),
    ensures
        ({
            let before = old(table)@;
            let row = before[i]@;
            let hit = |row: GridRow|
                row.id == grid_id && row.version == version && row.status == "open"@;
            let closed = GridRow {
                version: (row.version + 1) as i64,
                updated_at: now,
                status: "closed"@,
                amount: match settled_amount {
                    Some(amount) => amount,
                    None => row.amount,
                },
                ..row
            };
            &&& final(table).len() == old(table).len()
            &&& final(table)@[i]@ == if hit(row) && (r matches Ok(Closing::Closed(_))) {
                closed
            } else {
                row
            }
            &&& r matches Ok(Closing::Closed(record)) ==> rows(before).filter(hit).len() == 1 && (
            record is Some <==> trade is Some)
            &&& r == Ok::<Closing, CloseError>(Closing::Lost) ==> rows(before).filter(hit).len()
                != 1
            &&& (r matches Ok(Closing::Closed(record)) && record is Some && representable(margin)
                && representable(profit) && margin == trade->0.sell_price@ - trade->0.buy_price@
                && profit * one() == margin * trade->0.amount@) ==> (r matches Ok(
                Closing::Closed(Some(record)),
            ) && record.profit@ == profit && record.trade == trade->0)
        }),
{
    let before = old(table)@;
    let hit = |row: GridRow| row.id == grid_id && row.version == version && row.status == "open"@;
    let which = Which::AsRead { id: grid_id, version, status: GridStatus::Open };
    assert(forall|row: GridRow| selected(which, row) == #[trigger] hit(row));
    assert((|row: GridRow| selected(which, row)) =~= hit);
    assert(rows(before)[i] == before[i]@);
    assert(final(table).len() == rows(final(table)@).len());
    if final(table).len() == before.len() {
        assert(rows(final(table)@)[i] == final(table)@[i]@);
    }
    if let Some(t) = trade {
        if representable(margin) && representable(profit) && margin == t.sell_price@ - t.buy_price@
            && profit * one() == margin * t.amount@ {
            law_difference_exact(t.sell_price@, t.buy_price@);
            law_product_exact(margin, t.amount@, profit);
        }
    }
}

/// Closing a grid that was filled for its whole amount leaves the amount as it is, and every
/// other row.
pub proof fn law_closing_a_grid_for_its_whole_amount(
    table: &mut Vec<UserGrid>,
    grid_id: i32,
    version: i64,
    trade: Option<NewTradeHistory>,
    now: i64,
    r: Result<Closing, CloseError>,
    i: int,
)
    requires
        call_ensures(close_grid_with_trade, (table, grid_id, version, trade, now), r),
        0 <= i < old(table).len(),
    ensures
        ({
            let row = old(table)@[i]@;
            let hit = row.id == grid_id && row.version == version && row.status == "open"@;
            &&& final(table).len() == old(table).len()
            &&& final(table)@[i]@ == if hit && (r matches Ok(Closing::Closed(_))) {
                GridRow {
                    version: (row.version + 1) as i64,
                    updated_at: now,
                    status: "closed"@,
                    ..row
                }
            } else {
                row
            }
        }),
{
    let before = old(table)@;
    assert(rows(before)[i] == before[i]@);
    assert(final(table).len() == rows(final(table)@).len());
    if final(table).len() == before.len() {
        assert(rows(final(table)@)[i] == final(table)@[i]@);
    }
}

} // verus!
