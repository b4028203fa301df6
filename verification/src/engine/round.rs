//! One round over the grids of a symbol: the turn of each, then a look at the range.

use crate::decimal::{
    difference_of, form_of, law_difference_exact, lemma_nearest_sign, lemma_nearest_within,
    lemma_same_form, minus, representable, Decimal,
};
use crate::engine::error::EngineError;
use crate::engine::state::GridEngine;
use crate::engine::turn::{
    begins_with_its_leg, lemma_begins_with_its_leg, process_single_grid, turn_begins, GridStep,
};
use crate::exchange::error::BinanceError;
use crate::exchange::symbol::{assets_of, has_assets, split_symbol};
use crate::exchange::types::OpenOrder;
use crate::models::user_grid::UserGrid;
use crate::text::same_text;
use vstd::prelude::*;

verus! {

/// Where a round stands.
pub enum RoundStep {
    /// The orders of the symbol that stand are wanted.
    OpenOrders(OrdersWanted),
    /// What is free of the quote asset is wanted.
    QuoteFree(BudgetWanted),
    /// It is the turn of a grid.
    Turn(Round, GridStep),
    /// All grids have had their turn: the range is to be looked at.
    CheckRange(Round),
    /// The round failed.
    Failed(EngineError),
}

/// A round that has its grids.
pub struct OrdersWanted {
    pub symbol: String,
    pub grids: Vec<UserGrid>,
}

/// A round that has its grids and the orders that stand.
pub struct BudgetWanted {
    pub symbol: String,
    pub grids: Vec<UserGrid>,
    pub open_orders: Vec<OpenOrder>,
    /// The quote asset.
    pub asset: String,
}

/// A round under way.
pub struct Round {
    pub symbol: String,
    pub grids: Vec<UserGrid>,
    pub open_orders: Vec<OpenOrder>,
    /// What is left of the quote asset for the buys of this round, if it is known. All
    /// buys share it.
    pub budget: Option<Decimal>,
    /// The grid whose turn it is.
    pub next: usize,
}

/// Whether some grid has an order to look after.
pub open spec fn any_open(grids: Seq<UserGrid>) -> bool {
    exists|i: int| 0 <= i < grids.len() && (#[trigger] grids[i]).status@ == "open"@
}

/// Whether some grid is about to buy.
pub open spec fn any_new_buy(grids: Seq<UserGrid>) -> bool {
    exists|i: int|
        0 <= i < grids.len() && (#[trigger] grids[i]).status@ == "new"@ && grids[i].side@ == "buy"@
}

fn has_open(grids: &Vec<UserGrid>) -> (r: bool)
    ensures
        r == any_open(grids@),
{
    let mut i: usize = 0;
    while i < grids.len()
        invariant
            i <= grids.len(),
            forall|j: int| 0 <= j < i ==> (#[trigger] grids@[j]).status@ != "open"@,
        decreases grids.len() - i,
    {
        if same_text(grids[i].status.as_str(), "open") {
            assert(grids@[i as int].status@ == "open"@);
            return true;
        }
        i = i + 1;
    }
    false
}

fn has_new_buy(grids: &Vec<UserGrid>) -> (r: bool)
    ensures
        r == any_new_buy(grids@),
{
    let mut i: usize = 0;
    while i < grids.len()
        invariant
            i <= grids.len(),
            forall|j: int|
                0 <= j < i ==> !((#[trigger] grids@[j]).status@ == "new"@ && grids@[j].side@
                    == "buy"@),
        decreases grids.len() - i,
    {
        if same_text(grids[i].status.as_str(), "new") && same_text(grids[i].side.as_str(), "buy") {
            assert(grids@[i as int].status@ == "new"@);
            return true;
        }
        i = i + 1;
    }
    false
}

/// What comes next in a round: the turn of the next grid, or the look at the range. The
/// budget is given by its value and as it is written.
pub open spec fn goes_on(
    symbol: Seq<char>,
    grids: Vec<UserGrid>,
    open_orders: Vec<OpenOrder>,
    budget: Option<int>,
    written: Option<(i128, u32)>,
    next: int,
    r: RoundStep,
) -> bool {
    let same_round = |round: Round| round.symbol@ == symbol && round.grids == grids
        && round.open_orders == open_orders && round.next == next && match round.budget {
        Some(b) => budget == Some(b@),
        None => budget is None,
    } && form_of(round.budget) == written;
    if next < grids.len() {
        r matches RoundStep::Turn(round, step) && same_round(round) && turn_begins(
            grids@[next]@,
            open_orders@,
            round.budget,
            step,
        )
    } else {
        r matches RoundStep::CheckRange(round) && same_round(round)
    }
}

impl Round {
    /// Lets the next grid have its turn.
    fn advance(self) -> (r: RoundStep)
        requires
            self.next <= self.grids.len(),
        ensures
            goes_on(
                self.symbol@,
                self.grids,
                self.open_orders,
                match self.budget {
                    Some(b) => Some(b@),
                    None => None,
                },
                form_of(self.budget),
                self.next as int,
                r,
            ),
    {
        if self.next < self.grids.len() {
            let grid = self.grids[self.next].clone();
            let step = process_single_grid(grid, &self.open_orders, self.budget);
            RoundStep::Turn(self, step)
        } else {
            RoundStep::CheckRange(self)
        }
    }
}

/// What is left of a budget: never less than nothing.
pub open spec fn budget_left(budget: Option<Decimal>, spent: Option<Decimal>) -> Option<
    Option<int>,
> {
    match (budget, spent) {
        (Some(b), Some(s)) => match difference_of(b@, s@) {
            Some(rest) => Some(
                Some(
                    if rest < 0 {
                        0
                    } else {
                        rest
                    },
                ),
            ),
            None => None,
        },
        (Some(b), None) => Some(Some(b@)),
        (None, _) => Some(None),
    }
}

/// What is left of a budget, as it is written.
pub open spec fn left_form(budget: Option<Decimal>, spent: Option<Decimal>) -> Option<
    (i128, u32),
> {
    match (budget, spent) {
        (Some(b), Some(s)) => if difference_of(b@, s@)->0 < 0 {
            Some((0, 0))
        } else {
            minus(b.form(), s.form())
        },
        _ => form_of(budget),
    }
}

impl Round {
    /// Takes note of where the turn of a grid stands. When it is over, what it has spent
    /// leaves the budget and the next grid has its turn. A turn that failed leaves the
    /// budget as it was, and does not keep the others from theirs, unless a number was
    /// too large.
    pub fn turn_taken(self, step: GridStep) -> (r: RoundStep)
        requires
            self.next < self.grids.len(),
        ensures
            match step {
                GridStep::Done(spent) => match budget_left(self.budget, spent) {
                    None => r == RoundStep::Failed(EngineError::Overflow),
                    Some(budget) => goes_on(
                        self.symbol@,
                        self.grids,
                        self.open_orders,
                        budget,
                        left_form(self.budget, spent),
                        self.next + 1,
                        r,
                    ),
                },
                GridStep::Failed(EngineError::Overflow) => r == RoundStep::Failed(
                    EngineError::Overflow,
                ),
                GridStep::Failed(_) => goes_on(
                    self.symbol@,
                    self.grids,
                    self.open_orders,
                    match self.budget {
                        Some(b) => Some(b@),
                        None => None,
                    },
                    form_of(self.budget),
                    self.next + 1,
                    r,
                ),
                _ => r == RoundStep::Turn(self, step),
            },
    {
        match step {
            GridStep::Done(spent) => {
                let mut round = self;
                if let Some(b) = round.budget {
                    if let Some(s) = spent {
                        match b.checked_sub(s) {
                            Some(rest) => {
                                round.budget = Some(rest.max(Decimal::zero()));
                            },
                            None => {
                                return RoundStep::Failed(EngineError::Overflow);
                            },
                        }
                    }
                }
                round.next = round.next + 1;
                round.advance()
            },
            GridStep::Failed(EngineError::Overflow) => RoundStep::Failed(EngineError::Overflow),
            GridStep::Failed(_) => {
                let mut round = self;
                round.next = round.next + 1;
                round.advance()
            },
            other => RoundStep::Turn(self, other),
        }
    }
}

/// Whether this is the quote asset of a symbol.
pub open spec fn is_quote_asset(symbol: Seq<char>, quote: Seq<char>) -> bool {
    exists|base: Seq<char>| #[trigger] assets_of(symbol, base, quote)
}

/// What comes when the orders are known: the budget is looked up only if a grid is about
/// to buy and the assets of the symbol are known.
pub open spec fn orders_known(
    symbol: Seq<char>,
    grids: Vec<UserGrid>,
    open_orders: Vec<OpenOrder>,
    r: RoundStep,
) -> bool {
    if any_new_buy(grids@) && has_assets(symbol) {
        r matches RoundStep::QuoteFree(next) && next.symbol@ == symbol && next.grids == grids
            && next.open_orders == open_orders && is_quote_asset(symbol, next.asset@)
    } else {
        goes_on(symbol, grids, open_orders, None, None, 0, r)
    }
}

fn with_orders(symbol: String, grids: Vec<UserGrid>, open_orders: Vec<OpenOrder>) -> (r: RoundStep)
    ensures
        orders_known(symbol@, grids, open_orders, r),
{
    if has_new_buy(&grids) {
        if let Some((base, quote)) = split_symbol(symbol.as_str()) {
            let asset = quote.to_owned();
            assert(assets_of(symbol@, base@, asset@));
            assert(is_quote_asset(symbol@, asset@));
            return RoundStep::QuoteFree(BudgetWanted { symbol, grids, open_orders, asset });
        }
    }
    Round { symbol, grids, open_orders, budget: None, next: 0 }.advance()
}

impl GridEngine {
    /// Begins a round with the grids of the symbol that are traded. The orders that stand are
    /// looked up only if some grid has one.
    pub fn process_symbol(symbol: &str, grids: Result<Vec<UserGrid>, String>) -> (r: RoundStep)
        ensures
            match grids {
                Err(reason) => r == RoundStep::Failed(EngineError::Database(reason)),
                Ok(grids) => if any_open(grids@) {
                    r matches RoundStep::OpenOrders(next) && next.symbol@ == symbol@ && next.grids
                        == grids
                } else {
                    exists|none: Vec<OpenOrder>|
                        none.len() == 0 && #[trigger] orders_known(symbol@, grids, none, r)
                },
            },
    {
        let grids = match grids {
            Ok(grids) => grids,
            Err(reason) => {
                return RoundStep::Failed(EngineError::Database(reason));
            },
        };
        if has_open(&grids) {
            return RoundStep::OpenOrders(OrdersWanted { symbol: symbol.to_owned(), grids });
        }
        let none: Vec<OpenOrder> = Vec::new();
        let ghost g = none;
        let r = with_orders(symbol.to_owned(), grids, none);
        assert(orders_known(symbol@, grids, g, r));
        r
    }
}

impl OrdersWanted {
    /// Goes on with the orders that stand.
    pub fn resume(self, reply: Result<Vec<OpenOrder>, BinanceError>) -> (r: RoundStep)
        ensures
            match reply {
                Err(e) => r == RoundStep::Failed(EngineError::Exchange(e)),
                Ok(open_orders) => orders_known(self.symbol@, self.grids, open_orders, r),
            },
    {
        match reply {
            Err(e) => RoundStep::Failed(EngineError::Exchange(e)),
            Ok(open_orders) => with_orders(self.symbol, self.grids, open_orders),
        }
    }
}

impl BudgetWanted {
    /// Goes on with what is free of the quote asset. If that could not be looked up the
    /// buys go without a budget.
    pub fn resume(self, reply: Result<Decimal, BinanceError>) -> (r: RoundStep)
        ensures
            goes_on(
                self.symbol@,
                self.grids,
                self.open_orders,
                match reply {
                    Ok(free) => Some(free@),
                    Err(_) => None,
                },
                match reply {
                    Ok(free) => Some(free.form()),
                    Err(_) => None,
                },
                0,
                r,
            ),
    {
        let budget = match reply {
            Ok(free) => Some(free),
            Err(_) => None,
        };
        Round {
            symbol: self.symbol,
            grids: self.grids,
            open_orders: self.open_orders,
            budget,
            next: 0,
        }.advance()
    }
}

/// The budget of a round is never overdrawn: after a turn it is not negative, and not more
/// than before.
pub proof fn law_budget_is_never_overdrawn(budget: Decimal, spent: Decimal)
    requires
        representable(budget@),
        budget@ >= 0,
        spent@ >= 0,
        budget_left(Some(budget), Some(spent)) is Some,
    ensures
        budget_left(Some(budget), Some(spent)) matches Some(Some(left)) && 0 <= left <= budget@,
{
    if spent@ <= budget@ {
        lemma_nearest_within(budget@ - spent@, 1, budget@, false);
    } else {
        lemma_nearest_sign(budget@ - spent@, 1, false);
    }
}

/// What some buys have cost together.
pub open spec fn total(costs: Seq<Decimal>) -> int
    decreases costs.len(),
{
    if costs.len() == 0 {
        0
    } else {
        total(costs.drop_last()) + costs.last()@
    }
}

/// Where each buy of a round costs at most what is left of the budget, and no rest has to be
/// rounded off, the buys together cost exactly what has left the budget, and so never more
/// than there was.
pub proof fn law_buys_share_one_budget(budgets: Seq<Decimal>, costs: Seq<Decimal>)
    requires
        budgets.len() == costs.len() + 1,
        budgets[0]@ >= 0,
        forall|i: int|
            0 <= i < costs.len() ==> {
                &&& 0 <= (#[trigger] costs[i])@ <= budgets[i]@
                &&& representable(budgets[i]@ - costs[i]@)
                &&& budget_left(Some(budgets[i]), Some(costs[i])) == Some(Some(budgets[i + 1]@))
            },
    ensures
        total(costs) == budgets[0]@ - budgets.last()@,
        0 <= total(costs) <= budgets[0]@,
    decreases costs.len(),
{
    if costs.len() > 0 {
        let n = costs.len() - 1;
        let front = costs.drop_last();
        assert forall|i: int| 0 <= i < front.len() implies {
            &&& 0 <= (#[trigger] front[i])@ <= budgets.drop_last()[i]@
            &&& representable(budgets.drop_last()[i]@ - front[i]@)
            &&& budget_left(Some(budgets.drop_last()[i]), Some(front[i])) == Some(
                Some(budgets.drop_last()[i + 1]@),
            )
        } by {
            assert(front[i] == costs[i]);
        }
        law_buys_share_one_budget(budgets.drop_last(), front);
        assert(0 <= costs[n]@ <= budgets[n]@);
        law_difference_exact(budgets[n]@, costs[n]@);
    }
}

/// Whether a round goes on with the grid at a place: its turn begins there, and nothing else of
/// the round changes; after the last grid the range is looked at.
pub open spec fn goes_on_at(round: Round, place: int, r: RoundStep, left: Option<Decimal>) -> bool {
    let like = |next: Round| next.symbol@ == round.symbol@ && next.grids == round.grids
        && next.open_orders == round.open_orders && next.next == place && next.budget == left;
    if place < round.grids.len() {
        r matches RoundStep::Turn(next, step) && like(next) && begins_with_its_leg(
            round.grids@[place],
            left,
            step,
        )
    } else {
        r matches RoundStep::CheckRange(next) && like(next)
    }
}

/// Whether this is what is left of a budget when something was spent: the difference, or nothing
/// where that is negative. Without a budget there is none after either.
pub open spec fn is_left(budget: Option<Decimal>, spent: Option<Decimal>, left: Option<Decimal>)
    -> bool {
    match (budget, spent) {
        (None, _) => left is None,
        (Some(b), None) => left == Some(b),
        (Some(b), Some(s)) => representable(b@ - s@) ==> (left matches Some(rest) && rest@ == if b@
            >= s@ {
            b@ - s@
        } else {
            0
        }),
    }
}

proof fn lemma_same_budget(a: Option<Decimal>, b: Option<Decimal>)
    requires
        form_of(a) == form_of(b),
    ensures
        a == b,
{
    if let (Some(x), Some(y)) = (a, b) {
        lemma_same_form(x, y);
    }
}

/// The budget of a step of a round.
pub open spec fn budget_of(r: RoundStep) -> Option<Decimal> {
    match r {
        RoundStep::Turn(round, _) => round.budget,
        RoundStep::CheckRange(round) => round.budget,
        _ => None,
    }
}

/// When the turn of a grid is over the next grid has its turn, with what is left of the budget
/// after what this one has spent. So every grid has its turn, in the order of the grids.
pub proof fn law_turns_are_taken_in_order(round: Round, spent: Option<Decimal>, r: RoundStep)
    requires
        call_ensures(Round::turn_taken, (round, GridStep::Done(spent)), r),
        round.next < round.grids.len(),
    ensures
        r is Failed || goes_on_at(round, round.next + 1, r, budget_of(r)),
        !(r is Failed) ==> is_left(round.budget, spent, budget_of(r)),
        (round.budget is None || spent is None) ==> !(r is Failed),
        (round.budget matches Some(b) && spent matches Some(s) && representable(b@ - s@)) ==> !(
        r is Failed),
{
    if let (Some(b), Some(s)) = (round.budget, spent) {
        if representable(b@ - s@) {
            law_difference_exact(b@, s@);
        }
    } else {
        lemma_same_budget(round.budget, budget_of(r));
    }
    if let RoundStep::Turn(next, step) = r {
        lemma_begins_with_its_leg(
            round.grids@[round.next + 1],
            round.open_orders@,
            next.budget,
            step,
        );
    }
}

/// A turn that failed spends nothing of the budget and does not keep the other grids from
/// theirs.
pub proof fn law_failed_turns_do_not_stop_the_round(round: Round, e: EngineError, r: RoundStep)
    requires
        call_ensures(Round::turn_taken, (round, GridStep::Failed(e)), r),
        round.next < round.grids.len(),
        e != EngineError::Overflow,
    ensures
        goes_on_at(round, round.next + 1, r, round.budget),
{
    lemma_same_budget(round.budget, budget_of(r));
    if let RoundStep::Turn(next, step) = r {
        lemma_begins_with_its_leg(
            round.grids@[round.next + 1],
            round.open_orders@,
            next.budget,
            step,
        );
    }
}

/// The first grid has its turn with all that is free of the quote asset as the budget, or
/// without a budget where that could not be looked up.
pub proof fn law_rounds_begin_with_what_is_free(
    wanted: BudgetWanted,
    reply: Result<Decimal, BinanceError>,
    r: RoundStep,
)
    requires
        call_ensures(BudgetWanted::resume, (wanted, reply), r),
    ensures
        ({
            let budget = match reply {
                Ok(free) => Some(free),
                Err(_) => None,
            };
            goes_on_at(
                Round {
                    symbol: wanted.symbol,
                    grids: wanted.grids,
                    open_orders: wanted.open_orders,
                    budget,
                    next: 0,
                },
                0,
                r,
                budget,
            )
        }),
{
    let budget = match reply {
        Ok(free) => Some(free),
        Err(_) => None,
    };
    lemma_same_budget(budget, budget_of(r));
    if let RoundStep::Turn(next, step) = r {
        lemma_begins_with_its_leg(wanted.grids@[0], wanted.open_orders@, next.budget, step);
    }
}

/// The orders that stand are looked up if some grid is open, and what is free of the quote asset
/// if some grid is about to buy; the quote asset is the end of the symbol.
pub proof fn law_rounds_ask_for_what_they_need(
    symbol: &str,
    grids: Vec<UserGrid>,
    r: RoundStep,
    i: int,
)
    requires
        call_ensures(
            GridEngine::process_symbol,
            (symbol, Ok::<Vec<UserGrid>, String>(grids)),
            r,
        ),
        0 <= i < grids.len(),
    ensures
        grids@[i].status@ == "open"@ ==> (r matches RoundStep::OpenOrders(next) && next.symbol@
            == symbol@ && next.grids == grids),
        r is OpenOrders ==> exists|j: int|
            0 <= j < grids.len() && (#[trigger] grids@[j]).status@ == "open"@,
        r matches RoundStep::QuoteFree(next) ==> next.grids == grids && next.symbol@ == symbol@
            && ends_with(symbol@, next.asset@),
        r is QuoteFree ==> exists|j: int|
            0 <= j < grids.len() && (#[trigger] grids@[j]).status@ == "new"@ && grids@[j].side@
                == "buy"@,
{
    if grids@[i].status@ == "open"@ {
        assert(any_open(grids@));
    }
    if let RoundStep::QuoteFree(next) = r {
        let base = choose|base: Seq<char>| #[trigger] assets_of(symbol@, base, next.asset@);
        assert(symbol@ == base + next.asset@);
    }
}

/// Whether a piece of text ends with another and is longer.
pub open spec fn ends_with(text: Seq<char>, end: Seq<char>) -> bool {
    exists|front: Seq<char>| front.len() > 0 && #[trigger] (front + end) == text
}

/// When the orders that stand are known, what is free of the quote asset is asked for if some
/// grid is about to buy and the assets are known; otherwise the first grid has its turn, without
/// a budget.
pub proof fn law_rounds_go_on_when_the_orders_are_known(
    wanted: OrdersWanted,
    orders: Vec<OpenOrder>,
    r: RoundStep,
)
    requires
        call_ensures(
            OrdersWanted::resume,
            (wanted, Ok::<Vec<OpenOrder>, BinanceError>(orders)),
            r,
        ),
    ensures
        r matches RoundStep::QuoteFree(next) ==> next.symbol@ == wanted.symbol@ && next.grids
            == wanted.grids && next.open_orders == orders && ends_with(wanted.symbol@, next.asset@),
        !(r is QuoteFree) ==> goes_on_at(
            Round {
                symbol: wanted.symbol,
                grids: wanted.grids,
                open_orders: orders,
                budget: None,
                next: 0,
            },
            0,
            r,
            None,
        ),
        r is QuoteFree <==> has_assets(wanted.symbol@) && exists|j: int|
            0 <= j < wanted.grids.len() && (#[trigger] wanted.grids@[j]).status@ == "new"@
                && wanted.grids@[j].side@ == "buy"@,
{
    if let RoundStep::QuoteFree(next) = r {
        let base = choose|base: Seq<char>| #[trigger]
            assets_of(wanted.symbol@, base, next.asset@);
        assert(wanted.symbol@ == base + next.asset@);
    }
    if let RoundStep::Turn(next, step) = r {
        lemma_begins_with_its_leg(wanted.grids@[0], orders@, None, step);
    }
}

} // verus!
