//! A user's grids: showing them, making one, editing, deleting and pausing one.
//!
//! A grid that has an order is changed only when the order certainly does not stand any
//! more: the row holds the only trace of it.

use crate::decimal::{sum_of, Decimal};
use crate::engine::range::surely_gone;
use crate::engine::strategy::{
    exact_prices, law_layout_does_not_overlap, law_layout_has_positive_prices, AutoGridLayout,
};
use crate::exchange::error::{error_text, BinanceError};
use crate::models::user_grid::{rows, GridRow, NewUserGrid, UpdateUserGrid, UserGrid};
use crate::names::named;
use crate::text::{
    before, i64_failure, i64_text, int_text, law_int_text_reads_back, lemma_before_connected,
    lemma_before_transitive, outside_i64_failure, parse_i64, parsed_i64, same_text, text_before,
};
use crate::web::account::bad_request;
use crate::web::error::AppError;
use vstd::prelude::*;

verus! {

/// A wish to make a grid.
#[derive(Debug)]
pub struct CreateGridRequest {
    pub symbol: String,
    pub amount: Decimal,
    pub buy_price: Decimal,
    pub sell_price: Decimal,
    pub side: String,
}

/// A wish to edit a grid.
#[derive(Debug)]
pub struct UpdateGridRequest {
    pub amount: Decimal,
    pub buy_price: Decimal,
    pub sell_price: Decimal,
    pub side: String,
}

/// What a grid has to be: positive prices, the one to buy at below the other, a positive
/// amount, and a side.
pub open spec fn in_order(amount: int, buy_price: int, sell_price: int, side: Seq<char>) -> bool {
    &&& buy_price > 0
    &&& sell_price > 0
    &&& buy_price < sell_price
    &&& amount > 0
    &&& side == "buy"@ || side == "sell"@
}

/// What is said of a grid that is not in order.
pub open spec fn objection(
    amount: int,
    buy_price: int,
    sell_price: int,
    side: Seq<char>,
) -> Seq<char> {
    if buy_price <= 0 || sell_price <= 0 {
        "buy_price 和 sell_price 必须大于 0"@
    } else if buy_price >= sell_price {
        "buy_price 必须小于 sell_price"@
    } else if amount <= 0 {
        "amount 必须大于 0"@
    } else {
        "side 只能为 buy 或 sell"@
    }
}

/// Whether a grid is in order.
pub fn validate_grid_input(
    amount: Decimal,
    buy_price: Decimal,
    sell_price: Decimal,
    side: &str,
) -> (r: Result<(), AppError>)
    ensures
        r is Ok <==> in_order(amount@, buy_price@, sell_price@, side@),
        r matches Err(e) ==> bad_request(e, objection(amount@, buy_price@, sell_price@, side@)),
{
    let zero = Decimal::zero();
    if buy_price <= zero || sell_price <= zero {
        return Err(AppError::BadRequest("buy_price 和 sell_price 必须大于 0".to_owned()));
    }
    if buy_price >= sell_price {
        return Err(AppError::BadRequest("buy_price 必须小于 sell_price".to_owned()));
    }
    if amount <= zero {
        return Err(AppError::BadRequest("amount 必须大于 0".to_owned()));
    }
    if !same_text(side, "buy") && !same_text(side, "sell") {
        return Err(AppError::BadRequest("side 只能为 buy 或 sell".to_owned()));
    }
    Ok(())
}

/// Every grid that is laid out is in order, unless the spacing is so small beside the price
/// that it is lost when the two are added and rounded off.
pub proof fn law_laid_out_grids_are_in_order(
    layout: AutoGridLayout,
    symbol: Seq<char>,
    grids: Seq<NewUserGrid>,
    i: int,
)
    requires
        layout.computable(),
        layout.laid_out(symbol, grids),
        0 <= i < grids.len(),
        sum_of(grids[i].buy_price@, layout.spacing@) != Some(grids[i].buy_price@),
    ensures
        in_order(
            grids[i].amount@,
            grids[i].buy_price@,
            grids[i].sell_price@,
            grids[i].side@,
        ),
{
    law_layout_has_positive_prices(layout, symbol, grids, i);
    if i < layout.sell_count {
        assert(layout.is_sell_grid(symbol, i, grids[i]));
    } else {
        assert(layout.is_buy_grid(symbol, i - layout.sell_count + 1, grids[i]));
    }
}

/// Where no price has to be rounded off, every grid that is laid out is in order.
pub proof fn law_exactly_laid_out_grids_are_in_order(
    layout: AutoGridLayout,
    symbol: Seq<char>,
    grids: Seq<NewUserGrid>,
    i: int,
)
    requires
        exact_prices(layout),
        layout.laid_out(symbol, grids),
        0 <= i < grids.len(),
    ensures
        in_order(
            grids[i].amount@,
            grids[i].buy_price@,
            grids[i].sell_price@,
            grids[i].side@,
        ),
{
    law_layout_does_not_overlap(layout, symbol, grids, i);
    if i < layout.sell_count {
        assert(layout.is_sell_grid(symbol, i, grids[i]));
    } else {
        assert(layout.is_buy_grid(symbol, i - layout.sell_count + 1, grids[i]));
    }
}

/// The grid that a user wishes to make, if it is in order.
pub fn create_grid(user_id: i32, req: CreateGridRequest) -> (r: Result<NewUserGrid, AppError>)
    ensures
        match r {
            Ok(grid) => {
                &&& in_order(req.amount@, req.buy_price@, req.sell_price@, req.side@)
                &&& grid.user_id == user_id
                &&& grid.symbol == req.symbol
                &&& grid.amount == req.amount
                &&& grid.buy_price == req.buy_price
                &&& grid.sell_price == req.sell_price
                &&& grid.side == req.side
                &&& grid.source@ == "manual"@
            },
            Err(e) => !in_order(req.amount@, req.buy_price@, req.sell_price@, req.side@)
                && bad_request(
                e,
                objection(req.amount@, req.buy_price@, req.sell_price@, req.side@),
            ),
        },
{
    match validate_grid_input(req.amount, req.buy_price, req.sell_price, req.side.as_str()) {
        Ok(()) => Ok(
            NewUserGrid {
                user_id,
                amount: req.amount,
                buy_price: req.buy_price,
                sell_price: req.sell_price,
                side: req.side,
                symbol: req.symbol,
                source: "manual".to_owned(),
            },
        ),
        Err(e) => Err(e),
    }
}

/// The grid that was found, if it is the user's. A grid of somebody else is answered like
/// one that does not exist.
pub fn owned_grid(found: Result<Option<UserGrid>, String>, user_id: i32) -> (r: Result<
    UserGrid,
    AppError,
>)
    ensures
        r == match found {
            Err(reason) => Err(AppError::Database(reason)),
            Ok(None) => Err(AppError::NotFound),
            Ok(Some(grid)) => if grid.user_id == user_id {
                Ok(grid)
            } else {
                Err(AppError::NotFound)
            },
        },
{
    match found {
        Err(reason) => Err(AppError::Database(reason)),
        Ok(None) => Err(AppError::NotFound),
        Ok(Some(grid)) => if grid.user_id == user_id {
            Ok(grid)
        } else {
            Err(AppError::NotFound)
        },
    }
}

/// What is to be done with a grid.
#[derive(Debug)]
pub enum Edit {
    /// It gets new values.
    Update(UpdateUserGrid),
    /// It is given up.
    Delete,
    /// It is paused, or traded again if it is.
    TogglePause,
}

/// What is to be written.
#[derive(Debug)]
pub enum Write {
    Update { id: i32, user_id: i32, update: UpdateUserGrid },
    Delete { id: i32 },
    Pause { id: i32 },
    Resume { id: i32 },
}

/// The answer to an edit.
#[derive(Clone, Copy, Debug, PartialEq, Eq, Structural)]
pub enum EditAnswer {
    Nothing,
    Paused(bool),
}

/// Where an edit stands.
pub enum EditStep {
    /// The grid is to be read, so that it is known which symbol to lock.
    Find(Editing),
    /// The symbol is to be locked: until the edit is over the engine leaves it alone.
    Lock(String, Editing),
    /// The grid is to be read again: before the lock it may have changed.
    FindLocked(Editing),
    /// The order of the grid is to be cancelled.
    CancelOrder(EditCancel),
    /// The grid is to be written.
    Write(Write),
    /// It is over.
    Done(EditAnswer),
    /// It failed.
    Failed(AppError),
}

/// An edit of a grid by a user.
pub struct Editing {
    pub id: i32,
    pub user_id: i32,
    pub edit: Edit,
}

/// An edit of a grid that has an order.
pub struct EditCancel {
    pub grid_id: i32,
    pub symbol: String,
    pub order_id: i64,
    pub write: Write,
}

/// Begins to edit a grid. Values that are not in order are refused at once.
pub fn update_grid(id: i32, user_id: i32, req: UpdateGridRequest) -> (r: EditStep)
    ensures
        if in_order(req.amount@, req.buy_price@, req.sell_price@, req.side@) {
            r == EditStep::Find(
                Editing {
                    id,
                    user_id,
                    edit: Edit::Update(
                        UpdateUserGrid {
                            amount: req.amount,
                            buy_price: req.buy_price,
                            sell_price: req.sell_price,
                            side: req.side,
                        },
                    ),
                },
            )
        } else {
            r matches EditStep::Failed(e) && bad_request(
                e,
                objection(req.amount@, req.buy_price@, req.sell_price@, req.side@),
            )
        },
{
    match validate_grid_input(req.amount, req.buy_price, req.sell_price, req.side.as_str()) {
        Ok(()) => EditStep::Find(
            Editing {
                id,
                user_id,
                edit: Edit::Update(
                    UpdateUserGrid {
                        amount: req.amount,
                        buy_price: req.buy_price,
                        sell_price: req.sell_price,
                        side: req.side,
                    },
                ),
            },
        ),
        Err(e) => EditStep::Failed(e),
    }
}

/// Begins to delete a grid.
pub fn delete_grid(id: i32, user_id: i32) -> (r: EditStep)
    ensures
        r == EditStep::Find(Editing { id, user_id, edit: Edit::Delete }),
{
    EditStep::Find(Editing { id, user_id, edit: Edit::Delete })
}

/// Begins to pause a grid, or to let it be traded again.
pub fn toggle_grid_pause(id: i32, user_id: i32) -> (r: EditStep)
    ensures
        r == EditStep::Find(Editing { id, user_id, edit: Edit::TogglePause }),
{
    EditStep::Find(Editing { id, user_id, edit: Edit::TogglePause })
}

/// What is to be written for an edit. A grid that is paused is not paused again.
pub open spec fn write_for(editing: Editing, paused: bool) -> Write {
    match editing.edit {
        Edit::Update(update) => Write::Update { id: editing.id, user_id: editing.user_id, update },
        Edit::Delete => Write::Delete { id: editing.id },
        Edit::TogglePause => if paused {
            Write::Resume { id: editing.id }
        } else {
            Write::Pause { id: editing.id }
        },
    }
}

/// What is said of an order whose number cannot be read, with why it cannot.
pub open spec fn bad_order_id(grid_id: i32, order_id: Seq<char>, failure: Seq<char>) -> Seq<char> {
    "grid_id="@ + int_text(grid_id as int) + " 存储了非法 order_id="@ + order_id + ": "@ + failure
}

/// Says that the number of an order cannot be read, and why.
pub fn bad_order(grid_id: i32, order_id: &str, failure: &str) -> (r: String)
    ensures
        r@ == bad_order_id(grid_id, order_id@, failure@),
{
    let mut r = "grid_id=".to_owned();
    r.append(i64_text(grid_id as i64).as_str());
    r.append(" 存储了非法 order_id=");
    r.append(order_id);
    r.append(": ");
    r.append(failure);
    r
}

/// What is said of an order that may still stand.
pub open spec fn cancel_failed(grid_id: i32, e: BinanceError) -> Seq<char> {
    "grid_id="@ + int_text(grid_id as int) + " 撤单失败，保留数据库订单追踪: "@ + error_text(e)
}

/// What comes when the grid is locked: its order is cancelled first, if it has one and is
/// not merely to be traded again.
pub open spec fn edit_goes_on(editing: Editing, row: GridRow, r: EditStep) -> bool {
    let write = write_for(editing, row.is_paused);
    if write is Resume || row.status != "open"@ || row.order_id is None {
        r == EditStep::Write(write)
    } else {
        match parsed_i64(row.order_id->0) {
            None => r matches EditStep::Failed(AppError::Internal(reason)) && reason@
                == bad_order_id(row.id, row.order_id->0, i64_failure(row.order_id->0)),
            Some(order_id) => r matches EditStep::CancelOrder(next) && next.grid_id == row.id
                && next.symbol@ == row.symbol && next.order_id == order_id && next.write == write,
        }
    }
}

/// A grid that has an order is not written before the order is cancelled, unless it is only
/// to be traded again.
pub proof fn law_orders_are_cancelled_before_edits(editing: Editing, row: GridRow, r: EditStep)
    requires
        edit_goes_on(editing, row, r),
        row.status == "open"@,
        row.order_id is Some,
        !(editing.edit is TogglePause && row.is_paused),
    ensures
        r is CancelOrder || r is Failed,
{
}

impl Editing {
    /// Goes on with the grid, if it is the user's: its symbol is to be locked.
    pub fn found(self, found: Result<Option<UserGrid>, String>) -> (r: EditStep)
        ensures
            match found {
                Err(reason) => r == EditStep::Failed(AppError::Database(reason)),
                Ok(None) => r == EditStep::Failed(AppError::NotFound),
                Ok(Some(grid)) => if grid.user_id == self.user_id {
                    r == EditStep::Lock(grid.symbol, self)
                } else {
                    r == EditStep::Failed(AppError::NotFound)
                },
            },
    {
        match owned_grid(found, self.user_id) {
            Ok(grid) => EditStep::Lock(grid.symbol, self),
            Err(e) => EditStep::Failed(e),
        }
    }

    /// Goes on when the symbol is locked.
    pub fn locked(self) -> (r: EditStep)
        ensures
            r == EditStep::FindLocked(self),
    {
        EditStep::FindLocked(self)
    }

    /// Goes on with the grid as it is now.
    pub fn found_locked(self, found: Result<Option<UserGrid>, String>) -> (r: EditStep)
        ensures
            match found {
                Err(reason) => r == EditStep::Failed(AppError::Database(reason)),
                Ok(None) => r == EditStep::Failed(AppError::NotFound),
                Ok(Some(grid)) => if grid.user_id == self.user_id {
                    edit_goes_on(self, grid@, r)
                } else {
                    r == EditStep::Failed(AppError::NotFound)
                },
            },
    {
        let grid = match owned_grid(found, self.user_id) {
            Ok(grid) => grid,
            Err(e) => {
                return EditStep::Failed(e);
            },
        };
        let write = match self.edit {
            Edit::Update(update) => Write::Update { id: self.id, user_id: self.user_id, update },
            Edit::Delete => Write::Delete { id: self.id },
            Edit::TogglePause => if grid.is_paused {
                return EditStep::Write(Write::Resume { id: self.id });
            } else {
                Write::Pause { id: self.id }
            },
        };
        cancel_grid_order(grid, write)
    }
}

/// Cancels the order of a grid, if it has one, before the grid is written.
pub fn cancel_grid_order(grid: UserGrid, write: Write) -> (r: EditStep)
    ensures
        if grid.status@ != "open"@ || grid.order_id is None {
            r == EditStep::Write(write)
        } else {
            match parsed_i64(grid.order_id->0@) {
                None => r matches EditStep::Failed(AppError::Internal(reason)) && reason@
                    == bad_order_id(
                    grid.id,
                    grid.order_id->0@,
                    i64_failure(grid.order_id->0@),
                ),
                Some(order_id) => r matches EditStep::CancelOrder(next) && next.grid_id == grid.id
                    && next.symbol == grid.symbol && next.order_id == order_id && next.write
                    == write,
            }
        },
{
    if !same_text(grid.status.as_str(), "open") {
        return EditStep::Write(write);
    }
    match &grid.order_id {
        None => EditStep::Write(write),
        Some(text) => match parse_i64(text.as_str()) {
            Some(order_id) => EditStep::CancelOrder(
                EditCancel { grid_id: grid.id, symbol: grid.symbol, order_id, write },
            ),
            None => {
                let failure = outside_i64_failure(text.as_str()).unwrap();
                let reason = bad_order(grid.id, text.as_str(), failure.as_str());
                EditStep::Failed(AppError::Internal(reason))
            },
        },
    }
}

impl EditCancel {
    /// Goes on with what became of the order. Where it may still stand nothing is
    /// written.
    pub fn resume(self, reply: Result<(), BinanceError>) -> (r: EditStep)
        ensures
            if surely_gone(reply) {
                r == EditStep::Write(self.write)
            } else {
                r matches EditStep::Failed(AppError::Internal(reason)) && reason@ == cancel_failed(
                    self.grid_id,
                    reply->Err_0,
                )
            },
    {
        match reply {
            Ok(()) => EditStep::Write(self.write),
            Err(e) => if e.has_code(-2011) || e.has_code(-2013) {
                EditStep::Write(self.write)
            } else {
                let mut reason = "grid_id=".to_owned();
                reason.append(i64_text(self.grid_id as i64).as_str());
                reason.append(" 撤单失败，保留数据库订单追踪: ");
                reason.append(e.to_text().as_str());
                EditStep::Failed(AppError::Internal(reason))
            },
        }
    }
}

impl Write {
    /// Ends the edit, with whether exactly one row was written.
    pub fn resume(&self, reply: Result<bool, String>) -> (r: EditStep)
        ensures
            r == match reply {
                Err(reason) => EditStep::Failed(AppError::Database(reason)),
                Ok(written) => match *self {
                    Write::Pause { .. } => EditStep::Done(EditAnswer::Paused(true)),
                    Write::Resume { .. } => EditStep::Done(EditAnswer::Paused(false)),
                    _ => if written {
                        EditStep::Done(EditAnswer::Nothing)
                    } else {
                        EditStep::Failed(AppError::NotFound)
                    },
                },
            },
    {
        match reply {
            Err(reason) => EditStep::Failed(AppError::Database(reason)),
            Ok(written) => match self {
                Write::Pause { .. } => EditStep::Done(EditAnswer::Paused(true)),
                Write::Resume { .. } => EditStep::Done(EditAnswer::Paused(false)),
                _ => if written {
                    EditStep::Done(EditAnswer::Nothing)
                } else {
                    EditStep::Failed(AppError::NotFound)
                },
            },
        }
    }
}

/// The grids of one symbol.
#[derive(Debug)]
pub struct GridGroup {
    pub name: String,
    pub grid: Vec<UserGrid>,
}

/// Whether names stand in the order of their text, none twice.
pub open spec fn rising(names: Seq<String>) -> bool {
    forall|i: int, j: int|
        0 <= i < j < names.len() ==> text_before(#[trigger] names[i]@, #[trigger] names[j]@)
}

/// The rows with a symbol.
pub open spec fn with_symbol(grids: Seq<GridRow>, symbol: Seq<char>) -> Seq<GridRow> {
    grids.filter(|row: GridRow| row.symbol == symbol)
}

/// Whether some row has a symbol.
pub open spec fn occurs(grids: Seq<GridRow>, symbol: Seq<char>) -> bool {
    exists|i: int| 0 <= i < grids.len() && (#[trigger] grids[i]).symbol == symbol
}

/// Puts a name in its place, unless it is there.
fn insert_name(names: &mut Vec<String>, name: &String)
    requires
        rising(old(names)@),
    ensures
        rising(final(names)@),
        forall|n: Seq<char>| #[trigger]
            named(final(names)@, n) <==> named(old(names)@, n) || n == name@,
{
    let ghost old_names = names@;
    let mut i: usize = 0;
    while i < names.len() && before(names[i].as_str(), name.as_str())
        invariant
            i <= names.len(),
            names@ == old_names,
            forall|j: int| 0 <= j < i ==> text_before(#[trigger] old_names[j]@, name@),
        decreases names.len() - i,
    {
        i = i + 1;
    }
    if i < names.len() && same_text(names[i].as_str(), name.as_str()) {
        assert(old_names[i as int]@ == name@);
        assert(named(old_names, name@));
        return;
    }
    names.insert(i, name.clone());
    proof {
        let after = names@;
        assert forall|j: int, k: int| 0 <= j < k < after.len() implies text_before(
            #[trigger] after[j]@,
            #[trigger] after[k]@,
        ) by {
            if i < old_names.len() {
                lemma_before_connected(old_names[i as int]@, name@);
            }
            if k < i {
                assert(text_before(old_names[j]@, old_names[k]@));
            } else if k == i {
                assert(text_before(old_names[j]@, name@));
            } else if j < i {
                assert(text_before(old_names[j]@, old_names[k - 1]@));
            } else if j == i {
                if k - 1 > i {
                    assert(text_before(old_names[i as int]@, old_names[k - 1]@));
                    lemma_before_transitive(name@, old_names[i as int]@, old_names[k - 1]@);
                }
            } else {
                assert(text_before(old_names[j - 1]@, old_names[k - 1]@));
            }
        }
        assert forall|n: Seq<char>| #[trigger]
            named(after, n) <==> named(old_names, n) || n == name@ by {
            if named(old_names, n) {
                let k = choose|k: int| 0 <= k < old_names.len() && #[trigger] old_names[k]@ == n;
                if k < i {
                    assert(after[k]@ == n);
                } else {
                    assert(after[k + 1]@ == n);
                }
            }
            if named(after, n) {
                let k = choose|k: int| 0 <= k < after.len() && #[trigger] after[k]@ == n;
                if k < i {
                    assert(old_names[k]@ == n);
                } else if k > i {
                    assert(old_names[k - 1]@ == n);
                }
            }
            assert(after[i as int]@ == name@);
        }
    }
}

/// The symbols that occur, in the order of their text.
fn symbols_of(grids: &Vec<UserGrid>) -> (r: Vec<String>)
    ensures
        rising(r@),
        forall|n: Seq<char>| #[trigger] named(r@, n) <==> occurs(rows(grids@), n),
{
    let mut r: Vec<String> = Vec::new();
    let mut i: usize = 0;
    let ghost all = rows(grids@);
    while i < grids.len()
        invariant
            i <= grids.len(),
            all == rows(grids@),
            rising(r@),
            forall|n: Seq<char>| #[trigger] named(r@, n) <==> occurs(all.take(i as int), n),
        decreases grids.len() - i,
    {
        insert_name(&mut r, &grids[i].symbol);
        proof {
            assert forall|n: Seq<char>| #[trigger] occurs(all.take(i + 1), n) <==> occurs(
                all.take(i as int),
                n,
            ) || n == all[i as int].symbol by {
                if occurs(all.take(i as int), n) {
                    let j = choose|j: int|
                        0 <= j < i && (#[trigger] all.take(i as int)[j]).symbol == n;
                    assert(all.take(i + 1)[j].symbol == n);
                }
                if occurs(all.take(i + 1), n) {
                    let j = choose|j: int|
                        0 <= j < i + 1 && (#[trigger] all.take(i + 1)[j]).symbol == n;
                    if j < i {
                        assert(all.take(i as int)[j].symbol == n);
                    }
                }
                assert(all.take(i + 1)[i as int].symbol == all[i as int].symbol);
            }
            assert forall|n: Seq<char>| #[trigger] named(r@, n) <==> occurs(
                all.take(i + 1),
                n,
            ) by {
                assert(occurs(all.take(i + 1), n) <==> occurs(all.take(i as int), n) || n
                    == all[i as int].symbol);
            }
        }
        i = i + 1;
    }
    assert(all.take(i as int) =~= all);
    r
}

/// The grids with a symbol.
fn grids_with(grids: &Vec<UserGrid>, symbol: &str) -> (r: Vec<UserGrid>)
    ensures
        rows(r@) == with_symbol(rows(grids@), symbol@),
{
    let ghost keep = |row: GridRow| row.symbol == symbol@;
    let ghost all = rows(grids@);
    let mut r: Vec<UserGrid> = Vec::new();
    let mut i: usize = 0;
    while i < grids.len()
        invariant
            i <= grids.len(),
            all == rows(grids@),
            keep == (|row: GridRow| row.symbol == symbol@),
            rows(r@) == all.take(i as int).filter(keep),
        decreases grids.len() - i,
    {
        proof {
            reveal(Seq::filter);
            assert(all.take(i + 1).drop_last() =~= all.take(i as int));
            assert(all.take(i + 1).last() == grids@[i as int]@);
        }
        if same_text(grids[i].symbol.as_str(), symbol) {
            let ghost before = r@;
            r.push(grids[i].clone());
            assert(rows(r@) =~= rows(before).push(all[i as int]));
        }
        i = i + 1;
    }
    assert(all.take(i as int) =~= all);
    r
}

/// The names of some groups.
pub open spec fn names_of(groups: Seq<GridGroup>) -> Seq<String> {
    groups.map_values(|g: GridGroup| g.name)
}

/// A user's grids, by symbol: each symbol once, in the order of their text, with its
/// grids in the order in which they were.
pub fn get_grids(grids: &Vec<UserGrid>) -> (r: Vec<GridGroup>)
    ensures
        rising(names_of(r@)),
        forall|n: Seq<char>| #[trigger] named(names_of(r@), n) <==> occurs(rows(grids@), n),
        forall|i: int|
            0 <= i < r.len() ==> rows((#[trigger] r@[i]).grid@) == with_symbol(
                rows(grids@),
                r@[i].name@,
            ),
{
    let names = symbols_of(grids);
    let mut r: Vec<GridGroup> = Vec::new();
    let mut i: usize = 0;
    while i < names.len()
        invariant
            i <= names.len(),
            r.len() == i,
            names_of(r@) == names@.take(i as int),
            forall|j: int|
                0 <= j < i ==> rows((#[trigger] r@[j]).grid@) == with_symbol(
                    rows(grids@),
                    r@[j].name@,
                ),
        decreases names.len() - i,
    {
        let ghost before = r@;
        let name = names[i].clone();
        let grid = grids_with(grids, name.as_str());
        r.push(GridGroup { name, grid });
        assert(names_of(r@) =~= names_of(before).push(names@[i as int]));
        i = i + 1;
        assert(names@.take(i as int) =~= names@.take(i - 1).push(names@[i - 1]));
    }
    assert(names@.take(i as int) =~= names@);
    r
}

/// A grid by hand is made exactly if both prices and the amount are positive, it buys below the
/// price at which it sells, and its side is to buy or to sell. It is the user's and just as it
/// was wished for.
pub proof fn law_grids_by_hand_are_made_as_wished(
    user_id: i32,
    req: CreateGridRequest,
    r: Result<NewUserGrid, AppError>,
)
    requires
        call_ensures(create_grid, (user_id, req), r),
    ensures
        r is Ok <==> {
            &&& 0 < req.buy_price@ < req.sell_price@
            &&& req.amount@ > 0
            &&& req.side@ == "buy"@ || req.side@ == "sell"@
        },
        r matches Ok(grid) ==> {
            &&& grid.user_id == user_id
            &&& grid.symbol@ == req.symbol@
            &&& grid.amount == req.amount
            &&& grid.buy_price == req.buy_price
            &&& grid.sell_price == req.sell_price
            &&& grid.side@ == req.side@
            &&& grid.source@ == "manual"@
        },
        r matches Err(e) ==> e is BadRequest,
{
}

/// An edit goes on exactly if its values are those of a grid that can be made, and it is to
/// write just those values to the grid that was named, for the user who wishes it.
pub proof fn law_edits_are_held_to_the_same_rule(
    id: i32,
    user_id: i32,
    req: UpdateGridRequest,
    r: EditStep,
)
    requires
        call_ensures(update_grid, (id, user_id, req), r),
    ensures
        r is Find <==> {
            &&& 0 < req.buy_price@ < req.sell_price@
            &&& req.amount@ > 0
            &&& req.side@ == "buy"@ || req.side@ == "sell"@
        },
        r is Find || r is Failed,
        r matches EditStep::Find(editing) ==> editing.id == id && editing.user_id == user_id && (
        editing.edit matches Edit::Update(update) && update.amount == req.amount
            && update.buy_price == req.buy_price && update.sell_price == req.sell_price
            && update.side@ == req.side@),
{
}

/// Whether this is what an edit writes: the new values, the deletion, or that the grid is paused
/// or traded again, the other way round than it is.
pub open spec fn writes_edit(editing: Editing, paused: bool, write: Write) -> bool {
    match (editing.edit, write) {
        (Edit::Update(update), Write::Update { id, user_id, update: written }) => id == editing.id
            && user_id == editing.user_id && written == update,
        (Edit::Delete, Write::Delete { id }) => id == editing.id,
        (Edit::TogglePause, Write::Resume { id }) => paused && id == editing.id,
        (Edit::TogglePause, Write::Pause { id }) => !paused && id == editing.id,
        _ => false,
    }
}

/// An edit of a grid of somebody else is answered as if there were no such grid. If the grid has
/// an order, just that order is cancelled before anything is written, unless the grid is only to
/// be traded again; otherwise what the edit wishes is written.
pub proof fn law_edits_cancel_the_order_first(
    editing: Editing,
    grid: UserGrid,
    r: EditStep,
    order_id: i64,
)
    requires
        call_ensures(
            Editing::found_locked,
            (editing, Ok::<Option<UserGrid>, String>(Some(grid))),
            r,
        ),
    ensures
        grid.user_id != editing.user_id ==> r == EditStep::Failed(AppError::NotFound),
        grid.user_id == editing.user_id ==> ({
            let resumes = editing.edit is TogglePause && grid.is_paused;
            let has_order = grid.status@ == "open"@ && grid.order_id is Some;
            &&& resumes || !has_order ==> (r matches EditStep::Write(write) && writes_edit(
                editing,
                grid.is_paused,
                write,
            ))
            &&& !resumes && has_order && grid.order_id->0@ == int_text(order_id as int) ==> (
            r matches EditStep::CancelOrder(next) && next.order_id == order_id && next.symbol@
                == grid.symbol@ && next.grid_id == grid.id && writes_edit(
                editing,
                grid.is_paused,
                next.write,
            ))
        }),
{
    law_int_text_reads_back(order_id);
}

/// What an edit wishes is written only when the order certainly does not stand any more: it was
/// cancelled, or the exchange knows of none.
pub proof fn law_nothing_is_written_while_an_order_may_stand(
    cancel: EditCancel,
    reply: Result<(), BinanceError>,
    r: EditStep,
)
    requires
        call_ensures(EditCancel::resume, (cancel, reply), r),
    ensures
        r == EditStep::Write(cancel.write) <==> match reply {
            Ok(()) => true,
            Err(BinanceError::Api { code, .. }) => code == -2011 || code == -2013,
            Err(_) => false,
        },
        r == EditStep::Write(cancel.write) || r is Failed,
{
}

/// A grid of somebody else cannot be edited, and is answered like one that does not exist.
pub proof fn law_only_own_grids_are_edited(
    editing: Editing,
    found: Option<UserGrid>,
    r: EditStep,
)
    requires
        call_ensures(Editing::found, (editing, Ok::<Option<UserGrid>, String>(found)), r),
    ensures
        found is None ==> r == EditStep::Failed(AppError::NotFound),
        found matches Some(grid) ==> if grid.user_id == editing.user_id {
            r matches EditStep::Lock(symbol, next) && symbol@ == grid.symbol@ && next == editing
        } else {
            r == EditStep::Failed(AppError::NotFound)
        },
{
}

/// A user's grids are shown by symbol: each symbol stands once, with all of its grids and no
/// others.
pub proof fn law_grids_are_shown_by_symbol(
    grids: &Vec<UserGrid>,
    r: Vec<GridGroup>,
    i: int,
    j: int,
    k: int,
)
    requires
        call_ensures(get_grids, (grids,), r),
    ensures
        0 <= i < j < r.len() ==> r@[i].name@ != r@[j].name@ && text_before(
            r@[i].name@,
            r@[j].name@,
        ),
        0 <= i < r.len() && 0 <= k < r@[i].grid.len() ==> r@[i].grid@[k].symbol@ == r@[i].name@
            && rows(grids@).contains(r@[i].grid@[k]@),
        0 <= k < grids.len() ==> exists|g: int|
            0 <= g < r.len() && (#[trigger] r@[g]).name@ == grids@[k].symbol@ && rows(
                r@[g].grid@,
            ).contains(grids@[k]@),
{
    let all = rows(grids@);
    let names = names_of(r@);
    if 0 <= i < j < r.len() {
        assert(text_before(names[i]@, names[j]@));
        lemma_before_connected(r@[i].name@, r@[j].name@);
    }
    if 0 <= i < r.len() && 0 <= k < r@[i].grid.len() {
        let keep = |row: GridRow| row.symbol == r@[i].name@;
        assert(rows(r@[i].grid@)[k] == r@[i].grid@[k]@);
        all.lemma_filter_pred(keep, k);
        all.lemma_filter_contains_rev(keep, rows(r@[i].grid@)[k]);
    }
    if 0 <= k < grids.len() {
        let symbol = grids@[k].symbol@;
        assert(all[k].symbol == symbol);
        assert(occurs(all, symbol));
        assert(named(names, symbol));
        let g = choose|g: int| 0 <= g < names.len() && #[trigger] names[g]@ == symbol;
        let keep = |row: GridRow| row.symbol == r@[g].name@;
        assert(keep(all[k]));
        all.lemma_filter_contains(keep, k);
        assert(r@[g].name@ == symbol);
    }
}

} // verus!
