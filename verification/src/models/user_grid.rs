//! Grids, and the table that holds them.
//!
//! A grid buys at one price and sells at another, in turns. Its row goes from `new`
//! (no order yet) to `open` (an order stands at the exchange) to `closed` (the order was
//! filled) and back to `new` with the other side. Every change of a row raises its
//! version, and a change that was decided on an older version is not made.

use crate::decimal::Decimal;
use crate::names::{contains, distinct, lemma_all_kept, lemma_named_push, named};
use crate::text::same_text;
use vstd::prelude::*;

verus! {

/// Which leg of a grid is next.
#[derive(Clone, Copy, Debug, PartialEq, Eq, Structural)]
pub enum GridSide {
    Buy,
    Sell,
}

/// The name of a side in the table.
pub open spec fn side_text(side: GridSide) -> Seq<char> {
    match side {
        GridSide::Buy => "buy"@,
        GridSide::Sell => "sell"@,
    }
}

/// The side that a name in the table stands for.
pub open spec fn side_of(name: Seq<char>) -> Option<GridSide> {
    if name == "buy"@ {
        Some(GridSide::Buy)
    } else if name == "sell"@ {
        Some(GridSide::Sell)
    } else {
        None
    }
}

/// The other side.
pub open spec fn reverse_of(side: GridSide) -> GridSide {
    match side {
        GridSide::Buy => GridSide::Sell,
        GridSide::Sell => GridSide::Buy,
    }
}

/// What is said of a side that has no meaning.
pub open spec fn unknown_side(name: Seq<char>) -> Seq<char> {
    "未知网格方向: "@ + name
}

/// A side is found again under its name.
pub proof fn law_side_reads_back(side: GridSide)
    ensures
        side_of(side_text(side)) == Some(side),
{
    reveal_strlit("buy");
    reveal_strlit("sell");
    assert("buy"@[0] == 'b');
    assert("sell"@[0] == 's');
}

impl GridSide {
    /// The name of the side in the table.
    pub fn as_str(self) -> (r: &'static str)
        ensures
            r@ == side_text(self),
    {
        match self {
            GridSide::Buy => "buy",
            GridSide::Sell => "sell",
        }
    }

    /// The side that a name in the table stands for.
    pub fn try_from(value: &str) -> (r: Result<GridSide, String>)
        ensures
            match r {
                Ok(side) => side_of(value@) == Some(side),
                Err(reason) => side_of(value@) is None && reason@ == unknown_side(value@),
            },
    {
        if same_text(value, "buy") {
            Ok(GridSide::Buy)
        } else if same_text(value, "sell") {
            Ok(GridSide::Sell)
        } else {
            let mut reason = "未知网格方向: ".to_owned();
            reason.append(value);
            Err(reason)
        }
    }

    /// The other side.
    pub fn reverse(self) -> (r: GridSide)
        ensures
            r == reverse_of(self),
    {
        match self {
            GridSide::Buy => GridSide::Sell,
            GridSide::Sell => GridSide::Buy,
        }
    }
}

/// How far a grid has come.
#[derive(Clone, Copy, Debug, PartialEq, Eq, Structural)]
pub enum GridStatus {
    New,
    Open,
    Closed,
    Deleted,
}

/// The status that a name in the table stands for.
pub open spec fn status_of(name: Seq<char>) -> Option<GridStatus> {
    if name == "new"@ {
        Some(GridStatus::New)
    } else if name == "open"@ {
        Some(GridStatus::Open)
    } else if name == "closed"@ {
        Some(GridStatus::Closed)
    } else if name == "deleted"@ {
        Some(GridStatus::Deleted)
    } else {
        None
    }
}

/// What is said of a status that has no meaning.
pub open spec fn unknown_status(name: Seq<char>) -> Seq<char> {
    "未知网格状态: "@ + name
}

impl GridStatus {
    /// The status that a name in the table stands for.
    pub fn try_from(value: &str) -> (r: Result<GridStatus, String>)
        ensures
            match r {
                Ok(status) => status_of(value@) == Some(status),
                Err(reason) => status_of(value@) is None && reason@ == unknown_status(value@),
            },
    {
        if same_text(value, "new") {
            Ok(GridStatus::New)
        } else if same_text(value, "open") {
            Ok(GridStatus::Open)
        } else if same_text(value, "closed") {
            Ok(GridStatus::Closed)
        } else if same_text(value, "deleted") {
            Ok(GridStatus::Deleted)
        } else {
            let mut reason = "未知网格状态: ".to_owned();
            reason.append(value);
            Err(reason)
        }
    }
}

/// The names of the statuses are four different words.
pub proof fn lemma_status_names()
    ensures
        "new"@ != "open"@,
        "new"@ != "closed"@,
        "new"@ != "deleted"@,
        "open"@ != "closed"@,
        "open"@ != "deleted"@,
        "closed"@ != "deleted"@,
        status_of("new"@) == Some(GridStatus::New),
        status_of("open"@) == Some(GridStatus::Open),
        status_of("closed"@) == Some(GridStatus::Closed),
        status_of("deleted"@) == Some(GridStatus::Deleted),
{
    reveal_strlit("new");
    reveal_strlit("open");
    reveal_strlit("closed");
    reveal_strlit("deleted");
    assert("new"@[0] == 'n');
    assert("open"@[0] == 'o');
    assert("closed"@[0] == 'c');
    assert("deleted"@[0] == 'd');
}

/// A row of the grid table. Points in time count microseconds.
#[derive(Debug)]
pub struct UserGrid {
    pub id: i32,
    pub user_id: i32,
    pub order_id: Option<String>,
    /// The amount to spend on a buy, in the quote asset; the quantity to sell, in the
    /// base asset.
    pub amount: Decimal,
    pub buy_price: Decimal,
    pub sell_price: Decimal,
    pub side: String,
    pub symbol: String,
    pub status: String,
    pub source: String,
    pub is_paused: bool,
    pub version: i64,
    pub created_at: i64,
    pub updated_at: i64,
}

/// What a row says.
pub struct GridRow {
    pub id: i32,
    pub user_id: i32,
    pub order_id: Option<Seq<char>>,
    pub amount: Decimal,
    pub buy_price: Decimal,
    pub sell_price: Decimal,
    pub side: Seq<char>,
    pub symbol: Seq<char>,
    pub status: Seq<char>,
    pub source: Seq<char>,
    pub is_paused: bool,
    pub version: i64,
    pub created_at: i64,
    pub updated_at: i64,
}

/// The text of an optional string.
pub open spec fn text_of(s: Option<String>) -> Option<Seq<char>> {
    match s {
        Some(t) => Some(t@),
        None => None,
    }
}

impl View for UserGrid {
    type V = GridRow;

    open spec fn view(&self) -> GridRow {
        GridRow {
            id: self.id,
            user_id: self.user_id,
            order_id: text_of(self.order_id),
            amount: self.amount,
            buy_price: self.buy_price,
            sell_price: self.sell_price,
            side: self.side@,
            symbol: self.symbol@,
            status: self.status@,
            source: self.source@,
            is_paused: self.is_paused,
            version: self.version,
            created_at: self.created_at,
            updated_at: self.updated_at,
        }
    }
}

/// A copy of an optional string.
pub fn copy_text(s: &Option<String>) -> (r: Option<String>)
    ensures
        r == *s,
{
    match s {
        Some(t) => Some(t.clone()),
        None => None,
    }
}

impl Clone for UserGrid {
    fn clone(&self) -> (r: UserGrid)
        ensures
            r == *self,
    {
        UserGrid {
            id: self.id,
            user_id: self.user_id,
            order_id: copy_text(&self.order_id),
            amount: self.amount,
            buy_price: self.buy_price,
            sell_price: self.sell_price,
            side: self.side.clone(),
            symbol: self.symbol.clone(),
            status: self.status.clone(),
            source: self.source.clone(),
            is_paused: self.is_paused,
            version: self.version,
            created_at: self.created_at,
            updated_at: self.updated_at,
        }
    }
}

/// A grid that is to be stored.
#[derive(Debug)]
pub struct NewUserGrid {
    pub user_id: i32,
    pub amount: Decimal,
    pub buy_price: Decimal,
    pub sell_price: Decimal,
    pub side: String,
    pub symbol: String,
    /// `manual` for a grid of the user's own making, `auto` for one that was laid out.
    pub source: String,
}

/// The new values of a grid that its user edits.
#[derive(Debug)]
pub struct UpdateUserGrid {
    pub amount: Decimal,
    pub buy_price: Decimal,
    pub sell_price: Decimal,
    pub side: String,
}

/// What the rows of a table say.
pub open spec fn rows(table: Seq<UserGrid>) -> Seq<GridRow> {
    table.map_values(|g: UserGrid| g@)
}

/// Whether the rows stand in the order of their ids.
pub open spec fn in_id_order(table: Seq<GridRow>) -> bool {
    forall|i: int, j: int| 0 <= i < j < table.len() ==> table[i].id < table[j].id
}

/// Whether a grid is traded: neither deleted nor paused.
pub open spec fn active(row: GridRow) -> bool {
    row.status != "deleted"@ && !row.is_paused
}

/// The rows that the engine trades for a symbol.
pub open spec fn rows_of_symbol(table: Seq<GridRow>, symbol: Seq<char>) -> Seq<GridRow> {
    table.filter(|row: GridRow| row.symbol == symbol && active(row))
}

/// The rows that a user sees.
pub open spec fn rows_of_user(table: Seq<GridRow>, user_id: i32) -> Seq<GridRow> {
    table.filter(|row: GridRow| row.user_id == user_id && row.status != "deleted"@)
}

/// The users who own a row that is not deleted.
pub open spec fn owners(table: Seq<GridRow>) -> Set<i32> {
    Set::new(
        |user: i32|
            exists|i: int|
                0 <= i < table.len() && #[trigger] table[i].user_id == user && table[i].status
                    != "deleted"@,
    )
}

/// Dropping rows keeps the others in the order of their ids.
proof fn lemma_filter_in_order(table: Seq<GridRow>, keep: spec_fn(GridRow) -> bool)
    requires
        in_id_order(table),
    ensures
        in_id_order(table.filter(keep)),
        forall|i: int|
            0 <= i < table.filter(keep).len() ==> exists|j: int|
                0 <= j < table.len() && #[trigger] table[j] == #[trigger] table.filter(keep)[i],
    decreases table.len(),
{
    reveal(Seq::filter);
    if table.len() > 0 {
        let front = table.drop_last();
        assert(in_id_order(front));
        lemma_filter_in_order(front, keep);
        let kept = front.filter(keep);
        assert forall|i: int| 0 <= i < kept.len() implies exists|j: int|
            0 <= j < table.len() - 1 && #[trigger] table[j] == #[trigger] kept[i] by {
            let j = choose|j: int| 0 <= j < front.len() && #[trigger] front[j] == kept[i];
            assert(table[j] == kept[i]);
        }
        assert forall|i: int| 0 <= i < kept.len() implies (#[trigger] kept[i]).id
            < table.last().id by {
            let j = choose|j: int| 0 <= j < table.len() - 1 && #[trigger] table[j] == kept[i];
            assert(table[j].id < table[table.len() - 1].id);
        }
        assert forall|i: int| 0 <= i < table.filter(keep).len() implies exists|j: int|
            0 <= j < table.len() && #[trigger] table[j] == #[trigger] table.filter(keep)[i] by {
            if i < kept.len() {
                assert(table.filter(keep)[i] == kept[i]);
            } else {
                assert(table[table.len() - 1] == table.filter(keep)[i]);
            }
        }
    }
}

/// Filtering one row more.
proof fn lemma_filter_step(table: Seq<GridRow>, i: int, keep: spec_fn(GridRow) -> bool)
    requires
        0 <= i < table.len(),
    ensures
        table.take(i + 1).filter(keep) == if keep(table[i]) {
            table.take(i).filter(keep).push(table[i])
        } else {
            table.take(i).filter(keep)
        },
{
    reveal(Seq::filter);
    assert(table.take(i + 1).drop_last() =~= table.take(i));
}

/// The rows that are traded for a symbol: not deleted, not paused.
pub fn find_by_symbol(table: &Vec<UserGrid>, symbol: &str) -> (r: Vec<UserGrid>)
    ensures
        rows(r@) == rows_of_symbol(rows(table@), symbol@),
        in_id_order(rows(table@)) ==> in_id_order(rows(r@)),
{
    let ghost keep = |row: GridRow| row.symbol == symbol@ && active(row);
    let mut r: Vec<UserGrid> = Vec::new();
    let mut i: usize = 0;
    while i < table.len()
        invariant
            i <= table.len(),
            keep == (|row: GridRow| row.symbol == symbol@ && active(row)),
            rows(r@) == rows(table@).take(i as int).filter(keep),
        decreases table.len() - i,
    {
        let row = &table[i];
        proof {
            lemma_filter_step(rows(table@), i as int, keep);
        }
        if same_text(row.symbol.as_str(), symbol) && !same_text(row.status.as_str(), "deleted")
            && !row.is_paused {
            let ghost before = r@;
            r.push(row.clone());
            assert(rows(r@) =~= rows(before).push(row@));
        }
        i = i + 1;
    }
    proof {
        assert(rows(table@).take(i as int) =~= rows(table@));
        if in_id_order(rows(table@)) {
            lemma_filter_in_order(rows(table@), keep);
        }
    }
    r
}

/// The rows that a user sees: not deleted, paused or not.
pub fn find_by_user(table: &Vec<UserGrid>, user_id: i32) -> (r: Vec<UserGrid>)
    ensures
        rows(r@) == rows_of_user(rows(table@), user_id),
        in_id_order(rows(table@)) ==> in_id_order(rows(r@)),
{
    let ghost keep = |row: GridRow| row.user_id == user_id && row.status != "deleted"@;
    let mut r: Vec<UserGrid> = Vec::new();
    let mut i: usize = 0;
    while i < table.len()
        invariant
            i <= table.len(),
            keep == (|row: GridRow| row.user_id == user_id && row.status != "deleted"@),
            rows(r@) == rows(table@).take(i as int).filter(keep),
        decreases table.len() - i,
    {
        let row = &table[i];
        proof {
            lemma_filter_step(rows(table@), i as int, keep);
        }
        if row.user_id == user_id && !same_text(row.status.as_str(), "deleted") {
            let ghost before = r@;
            r.push(row.clone());
            assert(rows(r@) =~= rows(before).push(row@));
        }
        i = i + 1;
    }
    proof {
        assert(rows(table@).take(i as int) =~= rows(table@));
        if in_id_order(rows(table@)) {
            lemma_filter_in_order(rows(table@), keep);
        }
    }
    r
}

/// The first row with this id, whatever its status.
pub fn find_by_id(table: &Vec<UserGrid>, id: i32) -> (r: Option<UserGrid>)
    ensures
        match r {
            Some(grid) => exists|i: int|
                0 <= i < table.len() && #[trigger] table@[i] == grid && grid.id == id && forall|
                    j: int,
                |
                    0 <= j < i ==> (#[trigger] table@[j]).id != id,
            None => forall|i: int| 0 <= i < table.len() ==> (#[trigger] table@[i]).id != id,
        },
{
    let mut i: usize = 0;
    while i < table.len()
        invariant
            i <= table.len(),
            forall|j: int| 0 <= j < i ==> (#[trigger] table@[j]).id != id,
        decreases table.len() - i,
    {
        if table[i].id == id {
            let grid = table[i].clone();
            assert(table@[i as int] == grid);
            return Some(grid);
        }
        i = i + 1;
    }
    None
}

/// Whether a symbol has a row to trade.
pub open spec fn traded(table: Seq<GridRow>, symbol: Seq<char>) -> bool {
    exists|i: int| 0 <= i < table.len() && #[trigger] table[i].symbol == symbol && active(table[i])
}

/// One row more.
proof fn lemma_traded_step(table: Seq<GridRow>, i: int)
    requires
        0 <= i < table.len(),
    ensures
        forall|symbol: Seq<char>| #[trigger]
            traded(table.take(i + 1), symbol) <==> traded(table.take(i), symbol) || (
            table[i].symbol == symbol && active(table[i])),
{
    assert forall|symbol: Seq<char>| #[trigger]
        traded(table.take(i + 1), symbol) <==> traded(table.take(i), symbol) || (table[i].symbol
            == symbol && active(table[i])) by {
        if traded(table.take(i), symbol) {
            let j = choose|j: int|
                0 <= j < i && #[trigger] table.take(i)[j].symbol == symbol && active(
                    table.take(i)[j],
                );
            assert(table.take(i + 1)[j].symbol == symbol);
        }
        if traded(table.take(i + 1), symbol) {
            let j = choose|j: int|
                0 <= j < i + 1 && #[trigger] table.take(i + 1)[j].symbol == symbol && active(
                    table.take(i + 1)[j],
                );
            if j < i {
                assert(table.take(i)[j].symbol == symbol);
            }
        }
        assert(table.take(i + 1)[i].symbol == table[i].symbol);
    }
}

/// The symbols that have a row to trade, each once.
pub fn get_active_symbols(table: &Vec<UserGrid>) -> (r: Vec<String>)
    ensures
        distinct(r@),
        forall|symbol: Seq<char>| #[trigger] named(r@, symbol) <==> traded(rows(table@), symbol),
{
    let mut r: Vec<String> = Vec::new();
    let mut i: usize = 0;
    while i < table.len()
        invariant
            i <= table.len(),
            distinct(r@),
            forall|symbol: Seq<char>| #[trigger]
                named(r@, symbol) <==> traded(rows(table@).take(i as int), symbol),
        decreases table.len() - i,
    {
        let row = &table[i];
        proof {
            lemma_traded_step(rows(table@), i as int);
        }
        if !same_text(row.status.as_str(), "deleted") && !row.is_paused && !contains(
            &r,
            row.symbol.as_str(),
        ) {
            let name = row.symbol.clone();
            proof {
                lemma_named_push(r@, name);
            }
            r.push(name);
        }
        i = i + 1;
    }
    assert(rows(table@).take(i as int) =~= rows(table@));
    r
}

/// How many different users own a row that is not deleted.
pub fn distinct_owner_count(table: &Vec<UserGrid>) -> (r: usize)
    ensures
        owners(rows(table@)).finite(),
        r == owners(rows(table@)).len(),
{
    let mut seen: Vec<i32> = Vec::new();
    let mut i: usize = 0;
    while i < table.len()
        invariant
            i <= table.len(),
            seen@.no_duplicates(),
            seen@.to_set() == owners(rows(table@).take(i as int)),
        decreases table.len() - i,
    {
        let row = &table[i];
        let ghost old_set = owners(rows(table@).take(i as int));
        let ghost new_set = owners(rows(table@).take(i + 1));
        let ghost all = rows(table@);
        proof {
            assert forall|user: i32| new_set.contains(user) implies old_set.contains(user) || (
            user == row.user_id && row.status@ != "deleted"@) by {
                let j = choose|j: int|
                    0 <= j < all.take(i + 1).len() && #[trigger] all.take(i + 1)[j].user_id == user
                        && all.take(i + 1)[j].status != "deleted"@;
                if j < i {
                    assert(all.take(i as int)[j].user_id == user);
                }
            }
            assert forall|user: i32| old_set.contains(user) implies new_set.contains(user) by {
                let j = choose|j: int|
                    0 <= j < all.take(i as int).len() && #[trigger] all.take(i as int)[j].user_id
                        == user && all.take(i as int)[j].status != "deleted"@;
                assert(all.take(i + 1)[j].user_id == user);
            }
            assert(all.take(i + 1)[i as int].user_id == row.user_id);
        }
        if !same_text(row.status.as_str(), "deleted") {
            let mut known = false;
            let mut k: usize = 0;
            while k < seen.len()
                invariant
                    k <= seen.len(),
                    known == (exists|j: int| 0 <= j < k && #[trigger] seen@[j] == row.user_id),
                decreases seen.len() - k,
            {
                if seen[k] == row.user_id {
                    known = true;
                    assert(seen@[k as int] == row.user_id);
                }
                k = k + 1;
            }
            let ghost before = seen@;
            if !known {
                seen.push(row.user_id);
                proof {
                    assert(!before.contains(row.user_id));
                    assert(seen@[seen.len() - 1] == row.user_id);
                    assert forall|user: i32| seen@.to_set().contains(user) implies new_set.contains(
                        user,
                    ) by {
                        let j = choose|j: int| 0 <= j < seen.len() && seen@[j] == user;
                        if j < before.len() {
                            assert(before[j] == user);
                            assert(before.to_set().contains(user));
                        }
                    }
                    assert forall|user: i32| new_set.contains(user) implies seen@.to_set().contains(
                        user,
                    ) by {
                        if old_set.contains(user) {
                            let j = choose|j: int| 0 <= j < before.len() && before[j] == user;
                            assert(seen@[j] == user);
                        }
                    }
                }
            } else {
                assert(before.contains(row.user_id));
            }
        }
        assert(seen@.to_set() =~= new_set);
        i = i + 1;
    }
    proof {
        assert(rows(table@).take(i as int) =~= rows(table@));
        seen@.unique_seq_to_set();
        vstd::seq_lib::seq_to_set_is_finite(seen@);
    }
    seen.len()
}

/// Why a change of the table is refused.
#[derive(Clone, Copy, Debug, PartialEq, Eq, Structural)]
pub enum TableError {
    /// A version that is to be raised is the largest there is.
    VersionOutOfRange,
}

/// Which rows a change is made to. None of them is deleted.
#[derive(Clone, Copy, Debug)]
pub enum Which<'a> {
    /// The row as it was read: with this id, this version and this status.
    AsRead { id: i32, version: i64, status: GridStatus },
    /// The row with this id.
    Id { id: i32 },
    /// The row with this id, if it is the user's.
    Owned { id: i32, user_id: i32 },
    /// The user's rows for a symbol.
    Symbol { user_id: i32, symbol: &'a str },
    /// The user's rows for a symbol that were laid out.
    AutoBySymbol { user_id: i32, symbol: &'a str },
    /// The user's rows for a symbol that are not paused.
    ActiveBySymbol { user_id: i32, symbol: &'a str },
    /// The user's rows for a symbol that are paused.
    PausedBySymbol { user_id: i32, symbol: &'a str },
}

/// What is changed in a row, besides its version and its time of change.
#[derive(Clone, Copy, Debug)]
pub enum Change<'a> {
    /// An order was placed.
    Open { order_id: &'a str },
    /// The order is gone.
    Reset,
    /// The order was filled, for another amount if there is one.
    Close { settled: Option<Decimal> },
    /// The other leg is next.
    Flip { side: &'a str, amount: Decimal },
    /// The user edited the grid.
    Edit(&'a UpdateUserGrid),
    /// The grid is given up.
    Delete,
    /// The grid is paused, and its order is no longer followed.
    Pause,
    /// The grid is paused, and its order is still followed.
    MarkPaused,
    /// The grid is traded again.
    Resume,
}

/// The name of a status in the table.
pub open spec fn status_text(status: GridStatus) -> Seq<char> {
    match status {
        GridStatus::New => "new"@,
        GridStatus::Open => "open"@,
        GridStatus::Closed => "closed"@,
        GridStatus::Deleted => "deleted"@,
    }
}

impl GridStatus {
    /// The name of the status in the table.
    pub fn as_str(self) -> (r: &'static str)
        ensures
            r@ == status_text(self),
    {
        match self {
            GridStatus::New => "new",
            GridStatus::Open => "open",
            GridStatus::Closed => "closed",
            GridStatus::Deleted => "deleted",
        }
    }
}

/// Whether a row is among those that a change is made to.
pub open spec fn selected(which: Which, row: GridRow) -> bool {
    match which {
        Which::AsRead { id, version, status } => row.id == id && row.version == version
            && row.status == status_text(status),
        Which::Id { id } => row.id == id && row.status != "deleted"@,
        Which::Owned { id, user_id } => row.id == id && row.user_id == user_id && row.status
            != "deleted"@,
        Which::Symbol { user_id, symbol } => row.user_id == user_id && row.symbol == symbol@
            && row.status != "deleted"@,
        Which::AutoBySymbol { user_id, symbol } => row.user_id == user_id && row.symbol == symbol@
            && row.source == "auto"@ && row.status != "deleted"@,
        Which::ActiveBySymbol { user_id, symbol } => row.user_id == user_id && row.symbol
            == symbol@ && row.status != "deleted"@ && !row.is_paused,
        Which::PausedBySymbol { user_id, symbol } => row.user_id == user_id && row.symbol
            == symbol@ && row.is_paused && row.status != "deleted"@,
    }
}

/// A row with its version raised and its time of change set.
pub open spec fn touched(row: GridRow, now: i64) -> GridRow {
    GridRow { version: (row.version + 1) as i64, updated_at: now, ..row }
}

/// A row after a change.
pub open spec fn changed(change: Change, row: GridRow, now: i64) -> GridRow {
    let row = touched(row, now);
    match change {
        Change::Open { order_id } => GridRow {
            status: "open"@,
            order_id: Some(order_id@),
            ..row
        },
        Change::Reset => GridRow { status: "new"@, order_id: None, ..row },
        Change::Close { settled } => GridRow {
            status: "closed"@,
            amount: match settled {
                Some(amount) => amount,
                None => row.amount,
            },
            ..row
        },
        Change::Flip { side, amount } => GridRow {
            side: side@,
            amount,
            status: "new"@,
            order_id: None,
            ..row
        },
        Change::Edit(update) => GridRow {
            amount: update.amount,
            buy_price: update.buy_price,
            sell_price: update.sell_price,
            side: update.side@,
            status: "new"@,
            order_id: None,
            ..row
        },
        Change::Delete => GridRow { status: "deleted"@, order_id: None, ..row },
        Change::Pause => if row.status == "open"@ {
            GridRow { is_paused: true, status: "new"@, order_id: None, ..row }
        } else {
            GridRow { is_paused: true, ..row }
        },
        Change::MarkPaused => GridRow { is_paused: true, ..row },
        Change::Resume => GridRow { is_paused: false, ..row },
    }
}

/// The table after a change of the selected rows.
pub open spec fn updated(table: Seq<GridRow>, which: Which, change: Change, now: i64) -> Seq<
    GridRow,
> {
    table.map_values(
        |row: GridRow|
            if selected(which, row) {
                changed(change, row, now)
            } else {
                row
            },
    )
}

/// How many rows are selected.
pub open spec fn selected_count(table: Seq<GridRow>, which: Which) -> nat {
    table.filter(|row: GridRow| selected(which, row)).len()
}

/// Whether some selected row has the largest version there is.
pub open spec fn versions_exhausted(table: Seq<GridRow>, which: Which) -> bool {
    exists|i: int|
        0 <= i < table.len() && selected(which, #[trigger] table[i]) && table[i].version
            == i64::MAX
}

/// What a change of the table comes to: all of it is made, or, where a version is
/// exhausted, none of it.
pub open spec fn change_made(
    before: Seq<GridRow>,
    after: Seq<GridRow>,
    which: Which,
    change: Change,
    now: i64,
    refused: bool,
) -> bool {
    refused == versions_exhausted(before, which) && after == if refused {
        before
    } else {
        updated(before, which, change, now)
    }
}

/// What a change that is to be made to one row comes to, and whether it was made to one.
pub open spec fn one_changed(
    before: Seq<UserGrid>,
    after: Seq<UserGrid>,
    which: Which,
    change: Change,
    now: i64,
    r: Result<bool, TableError>,
) -> bool {
    &&& change_made(rows(before), rows(after), which, change, now, r is Err)
    &&& r matches Ok(done) ==> done == (selected_count(rows(before), which) == 1)
}

/// What a change that is to be made to several rows comes to, and to how many it was made.
pub open spec fn all_changed(
    before: Seq<UserGrid>,
    after: Seq<UserGrid>,
    which: Which,
    change: Change,
    now: i64,
    r: Result<u64, TableError>,
) -> bool {
    &&& change_made(rows(before), rows(after), which, change, now, r is Err)
    &&& r matches Ok(count) ==> count == selected_count(rows(before), which)
}

/// Whether a row is among those that a change is made to.
fn is_selected(which: &Which, row: &UserGrid) -> (r: bool)
    ensures
        r == selected(*which, row@),
{
    let live = !same_text(row.status.as_str(), "deleted");
    match which {
        Which::AsRead { id, version, status } => row.id == *id && row.version == *version
            && same_text(row.status.as_str(), status.as_str()),
        Which::Id { id } => row.id == *id && live,
        Which::Owned { id, user_id } => row.id == *id && row.user_id == *user_id && live,
        Which::Symbol { user_id, symbol } => row.user_id == *user_id && same_text(
            row.symbol.as_str(),
            symbol,
        ) && live,
        Which::AutoBySymbol { user_id, symbol } => row.user_id == *user_id && same_text(
            row.symbol.as_str(),
            symbol,
        ) && same_text(row.source.as_str(), "auto") && live,
        Which::ActiveBySymbol { user_id, symbol } => row.user_id == *user_id && same_text(
            row.symbol.as_str(),
            symbol,
        ) && live && !row.is_paused,
        Which::PausedBySymbol { user_id, symbol } => row.user_id == *user_id && same_text(
            row.symbol.as_str(),
            symbol,
        ) && row.is_paused && live,
    }
}

/// The row after a change.
fn change_row(row: &UserGrid, change: &Change, now: i64) -> (r: UserGrid)
    requires
        row.version < i64::MAX,
    ensures
        r@ == changed(*change, row@, now),
{
    let mut r = row.clone();
    r.version = row.version + 1;
    r.updated_at = now;
    match change {
        Change::Open { order_id } => {
            r.status = "open".to_owned();
            r.order_id = Some((*order_id).to_owned());
        },
        Change::Reset => {
            r.status = "new".to_owned();
            r.order_id = None;
        },
        Change::Close { settled } => {
            r.status = "closed".to_owned();
            if let Some(amount) = settled {
                r.amount = *amount;
            }
        },
        Change::Flip { side, amount } => {
            r.side = (*side).to_owned();
            r.amount = *amount;
            r.status = "new".to_owned();
            r.order_id = None;
        },
        Change::Edit(update) => {
            r.amount = update.amount;
            r.buy_price = update.buy_price;
            r.sell_price = update.sell_price;
            r.side = update.side.clone();
            r.status = "new".to_owned();
            r.order_id = None;
        },
        Change::Delete => {
            r.status = "deleted".to_owned();
            r.order_id = None;
        },
        Change::Pause => {
            if same_text(row.status.as_str(), "open") {
                r.status = "new".to_owned();
                r.order_id = None;
            }
            r.is_paused = true;
        },
        Change::MarkPaused => {
            r.is_paused = true;
        },
        Change::Resume => {
            r.is_paused = false;
        },
    }
    r
}

/// Changes the selected rows and counts them.
pub fn change_rows(table: &mut Vec<UserGrid>, which: Which, change: Change, now: i64) -> (r: Result<
    u64,
    TableError,
>)
    ensures
        all_changed(old(table)@, final(table)@, which, change, now, r),
{
    let ghost before = rows(table@);
    let ghost keep = |row: GridRow| selected(which, row);
    let mut next: Vec<UserGrid> = Vec::new();
    let mut count: u64 = 0;
    let mut i: usize = 0;
    while i < table.len()
        invariant
            i <= table.len(),
            before == rows(table@),
            *table == *old(table),
            keep == (|row: GridRow| selected(which, row)),
            count <= i,
            count == before.take(i as int).filter(keep).len(),
            rows(next@) == updated(before.take(i as int), which, change, now),
            forall|j: int|
                0 <= j < i && selected(which, #[trigger] before[j]) ==> before[j].version
                    < i64::MAX,
        decreases table.len() - i,
    {
        let row = &table[i];
        let ghost made = next@;
        proof {
            lemma_filter_step(before, i as int, keep);
            assert(before[i as int] == row@);
        }
        if is_selected(&which, row) {
            if row.version == i64::MAX {
                return Err(TableError::VersionOutOfRange);
            }
            next.push(change_row(row, &change, now));
            count = count + 1;
        } else {
            next.push(row.clone());
        }
        assert(rows(next@) =~= rows(made).push(rows(next@)[i as int]));
        assert(rows(next@) =~= updated(before.take(i + 1), which, change, now));
        i = i + 1;
    }
    assert(before.take(i as int) =~= before);
    *table = next;
    Ok(count)
}

/// Changes the selected rows, and says whether it was exactly one.
fn change_one(table: &mut Vec<UserGrid>, which: Which, change: Change, now: i64) -> (r: Result<
    bool,
    TableError,
>)
    ensures
        one_changed(old(table)@, final(table)@, which, change, now, r),
{
    match change_rows(table, which, change, now) {
        Ok(count) => Ok(count == 1),
        Err(e) => Err(e),
    }
}

/// Records the order of a grid: `new` becomes `open`, if the row is still as it was
/// read. Says whether it was.
pub fn set_order_open(
    table: &mut Vec<UserGrid>,
    id: i32,
    order_id: &str,
    version: i64,
    now: i64,
) -> (r: Result<bool, TableError>)
    ensures
        one_changed(
            old(table)@,
            final(table)@,
            (Which::AsRead { id, version, status: GridStatus::New }),
            (Change::Open { order_id }),
            now,
            r,
        ),
{
    let which = Which::AsRead { id, version, status: GridStatus::New };
    change_one(table, which, Change::Open { order_id }, now)
}

/// Makes a grid place a new order: `open` becomes `new`, if the row is still as it was
/// read. Says whether it was.
pub fn reset_to_new(
    table: &mut Vec<UserGrid>,
    id: i32,
    version: i64,
    now: i64,
) -> (r: Result<bool, TableError>)
    ensures
        one_changed(
            old(table)@,
            final(table)@,
            (Which::AsRead { id, version, status: GridStatus::Open }),
            Change::Reset,
            now,
            r,
        ),
{
    change_one(table, Which::AsRead { id, version, status: GridStatus::Open }, Change::Reset, now)
}

/// Stores what a user edited, and gives up the order, which no longer fits.
pub fn update_full(
    table: &mut Vec<UserGrid>,
    id: i32,
    user_id: i32,
    update: &UpdateUserGrid,
    now: i64,
) -> (r: Result<bool, TableError>)
    ensures
        one_changed(
            old(table)@,
            final(table)@,
            (Which::Owned { id, user_id }),
            Change::Edit(update),
            now,
            r,
        ),
{
    change_one(table, Which::Owned { id, user_id }, Change::Edit(update), now)
}

/// Turns a filled grid round: `closed` becomes `new` with the other side and the amount
/// in the unit of that side, if the row is still as it was read. Says whether it was.
pub fn flip_to_reverse(
    table: &mut Vec<UserGrid>,
    id: i32,
    new_side: &str,
    new_amount: Decimal,
    version: i64,
    now: i64,
) -> (r: Result<bool, TableError>)
    ensures
        one_changed(
            old(table)@,
            final(table)@,
            (Which::AsRead { id, version, status: GridStatus::Closed }),
            (Change::Flip { side: new_side, amount: new_amount }),
            now,
            r,
        ),
{
    let which = Which::AsRead { id, version, status: GridStatus::Closed };
    change_one(table, which, Change::Flip { side: new_side, amount: new_amount }, now)
}

/// Gives up a grid. The row stays, without its order.
pub fn soft_delete(
    table: &mut Vec<UserGrid>,
    id: i32,
    now: i64,
) -> (r: Result<bool, TableError>)
    ensures
        one_changed(
            old(table)@,
            final(table)@,
            (Which::Id { id }),
            Change::Delete,
            now,
            r,
        ),
{
    change_one(table, Which::Id { id }, Change::Delete, now)
}

/// Marks a user's grids for a symbol as paused and leaves status and order alone, so
/// that orders that stand at the exchange are still followed.
pub fn mark_paused_flag_by_user_symbol(
    table: &mut Vec<UserGrid>,
    user_id: i32,
    symbol: &str,
    now: i64,
) -> (r: Result<u64, TableError>)
    ensures
        all_changed(
            old(table)@,
            final(table)@,
            (Which::Symbol { user_id, symbol }),
            Change::MarkPaused,
            now,
            r,
        ),
{
    change_rows(table, Which::Symbol { user_id, symbol }, Change::MarkPaused, now)
}

/// Pauses a user's grids for a symbol. An open grid becomes new and its order is no
/// longer followed, so the orders have to be cancelled first.
pub fn pause_by_user_symbol(
    table: &mut Vec<UserGrid>,
    user_id: i32,
    symbol: &str,
    now: i64,
) -> (r: Result<u64, TableError>)
    ensures
        all_changed(
            old(table)@,
            final(table)@,
            (Which::Symbol { user_id, symbol }),
            Change::Pause,
            now,
            r,
        ),
{
    change_rows(table, Which::Symbol { user_id, symbol }, Change::Pause, now)
}

/// Pauses one grid. If it is open it becomes new and its order is no longer followed, so
/// the order has to be cancelled first.
pub fn pause_single(
    table: &mut Vec<UserGrid>,
    id: i32,
    now: i64,
) -> (r: Result<u64, TableError>)
    ensures
        all_changed(
            old(table)@,
            final(table)@,
            (Which::Id { id }),
            Change::Pause,
            now,
            r,
        ),
{
    change_rows(table, Which::Id { id }, Change::Pause, now)
}

/// Lets one grid be traded again.
pub fn resume_single(
    table: &mut Vec<UserGrid>,
    id: i32,
    now: i64,
) -> (r: Result<u64, TableError>)
    ensures
        all_changed(
            old(table)@,
            final(table)@,
            (Which::Id { id }),
            Change::Resume,
            now,
            r,
        ),
{
    change_rows(table, Which::Id { id }, Change::Resume, now)
}

/// Lets a user's paused grids for a symbol be traded again.
pub fn resume_by_user_symbol(
    table: &mut Vec<UserGrid>,
    user_id: i32,
    symbol: &str,
    now: i64,
) -> (r: Result<u64, TableError>)
    ensures
        all_changed(
            old(table)@,
            final(table)@,
            (Which::PausedBySymbol { user_id, symbol }),
            Change::Resume,
            now,
            r,
        ),
{
    change_rows(table, Which::PausedBySymbol { user_id, symbol }, Change::Resume, now)
}

/// A grid as it is stored.
#[derive(Debug)]
pub struct StoredGrid {
    pub user_id: i32,
    pub amount: Decimal,
    pub buy_price: Decimal,
    pub sell_price: Decimal,
    pub side: String,
    pub symbol: String,
    pub status: String,
    pub source: String,
}

/// Whether a grid is stored as it was to be, and has no order yet.
pub open spec fn stored_as(new: NewUserGrid, r: StoredGrid) -> bool {
    &&& r.user_id == new.user_id
    &&& r.amount == new.amount
    &&& r.buy_price == new.buy_price
    &&& r.sell_price == new.sell_price
    &&& r.side == new.side
    &&& r.symbol == new.symbol
    &&& r.status@ == "new"@
    &&& r.source == new.source
}

/// A grid as it is stored.
pub fn create(new: NewUserGrid) -> (r: StoredGrid)
    ensures
        stored_as(new, r),
{
    StoredGrid {
        user_id: new.user_id,
        amount: new.amount,
        buy_price: new.buy_price,
        sell_price: new.sell_price,
        side: new.side,
        symbol: new.symbol,
        status: GridStatus::New.as_str().to_owned(),
        source: new.source,
    }
}

/// Grids as they are stored, in the same order.
pub fn create_batch(grids: Vec<NewUserGrid>) -> (r: Vec<StoredGrid>)
    ensures
        r.len() == grids.len(),
        forall|i: int| 0 <= i < grids.len() ==> stored_as(grids@[i], #[trigger] r@[i]),
{
    let mut grids = grids;
    let ghost all = grids@;
    let mut r: Vec<StoredGrid> = Vec::new();
    while grids.len() > 0
        invariant
            r.len() + grids.len() == all.len(),
            forall|i: int| 0 <= i < r.len() ==> stored_as(all[i], #[trigger] r@[i]),
            forall|i: int| 0 <= i < grids.len() ==> #[trigger] grids@[i] == all[r.len() + i],
        decreases grids.len(),
    {
        let new = grids.remove(0);
        r.push(create(new));
    }
    r
}

/// Which grids are replaced by others.
#[derive(Clone, Copy, Debug)]
pub enum ReplacementTarget<'a> {
    AutoByUserAndSymbol { user_id: i32, symbol: &'a str },
    ActiveByUserAndSymbol { user_id: i32, symbol: &'a str },
    One { id: i32 },
}

/// The rows of the grids that are replaced.
pub open spec fn replaced_rows(target: ReplacementTarget) -> Which {
    match target {
        ReplacementTarget::AutoByUserAndSymbol { user_id, symbol } => Which::AutoBySymbol {
            user_id,
            symbol,
        },
        ReplacementTarget::ActiveByUserAndSymbol { user_id, symbol } => Which::ActiveBySymbol {
            user_id,
            symbol,
        },
        ReplacementTarget::One { id } => Which::Id { id },
    }
}

impl<'a> ReplacementTarget<'a> {
    /// The rows of the grids that are replaced.
    fn which(self) -> (r: Which<'a>)
        ensures
            r == replaced_rows(self),
    {
        match self {
            ReplacementTarget::AutoByUserAndSymbol { user_id, symbol } => Which::AutoBySymbol {
                user_id,
                symbol,
            },
            ReplacementTarget::ActiveByUserAndSymbol {
                user_id,
                symbol,
            } => Which::ActiveBySymbol { user_id, symbol },
            ReplacementTarget::One { id } => Which::Id { id },
        }
    }

    /// Whether there has to be exactly one grid to replace.
    pub fn requires_single_match(self) -> (r: bool)
        ensures
            r == (self is One),
    {
        match self {
            ReplacementTarget::One { .. } => true,
            _ => false,
        }
    }
}

/// What replacing grids comes to.
#[derive(Debug)]
pub struct Replacement {
    /// How many rows were found to delete.
    pub deleted: u64,
    /// Whether they are deleted and the others stored, or nothing is done.
    pub kept: bool,
    /// The grids to store.
    pub insert: Vec<NewUserGrid>,
}

/// What replacing grids comes to, for the table and for what is handed out.
pub open spec fn replaced_as(
    before: Seq<UserGrid>,
    after: Seq<UserGrid>,
    target: ReplacementTarget,
    grids: Vec<NewUserGrid>,
    now: i64,
    r: Result<Replacement, TableError>,
) -> bool {
    let which = replaced_rows(target);
    &&& r is Err <==> versions_exhausted(rows(before), which)
    &&& match r {
        Ok(done) => {
            &&& done.deleted == selected_count(rows(before), which)
            &&& done.kept == (target is One ==> done.deleted == 1)
            &&& done.kept ==> done.insert == grids && rows(after) == updated(
                rows(before),
                which,
                Change::Delete,
                now,
            )
            &&& !done.kept ==> done.insert.len() == 0 && after == before
        },
        Err(_) => after == before,
    }
}

/// Deletes the target's rows and hands out what is to be stored in their place. Where
/// there has to be exactly one row and there is not, nothing is done.
pub fn replace_grids(
    table: &mut Vec<UserGrid>,
    target: ReplacementTarget,
    grids: Vec<NewUserGrid>,
    now: i64,
) -> (r: Result<Replacement, TableError>)
    ensures
        replaced_as(old(table)@, final(table)@, target, grids, now, r),
{
    let mut after = copy_table(table);
    match change_rows(&mut after, target.which(), Change::Delete, now) {
        Ok(deleted) => {
            if target.requires_single_match() && deleted != 1 {
                return Ok(Replacement { deleted, kept: false, insert: Vec::new() });
            }
            *table = after;
            Ok(Replacement { deleted, kept: true, insert: grids })
        },
        Err(e) => Err(e),
    }
}

/// A copy of the table.
pub fn copy_table(table: &Vec<UserGrid>) -> (r: Vec<UserGrid>)
    ensures
        r@ == table@,
{
    let mut r: Vec<UserGrid> = Vec::new();
    let mut i: usize = 0;
    while i < table.len()
        invariant
            i <= table.len(),
            r@ == table@.take(i as int),
        decreases table.len() - i,
    {
        r.push(table[i].clone());
        i = i + 1;
        assert(table@.take(i as int) =~= table@.take(i - 1).push(table@[i - 1]));
    }
    assert(table@.take(i as int) =~= table@);
    r
}

/// Replaces a user's laid out grids for a symbol, paused or not. Grids of the user's own
/// making stay.
pub fn replace_auto_by_user_and_symbol(
    table: &mut Vec<UserGrid>,
    user_id: i32,
    symbol: &str,
    grids: Vec<NewUserGrid>,
    now: i64,
) -> (r: Result<Replacement, TableError>)
    ensures
        replaced_as(
            old(table)@,
            final(table)@,
            (ReplacementTarget::AutoByUserAndSymbol { user_id, symbol }),
            grids,
            now,
            r,
        ),
{
    let target = ReplacementTarget::AutoByUserAndSymbol { user_id, symbol };
    replace_grids(table, target, grids, now)
}

/// Replaces a user's grids for a symbol that are traded. Paused grids stay.
pub fn replace_active_by_user_and_symbol(
    table: &mut Vec<UserGrid>,
    user_id: i32,
    symbol: &str,
    grids: Vec<NewUserGrid>,
    now: i64,
) -> (r: Result<Replacement, TableError>)
    ensures
        replaced_as(
            old(table)@,
            final(table)@,
            (ReplacementTarget::ActiveByUserAndSymbol { user_id, symbol }),
            grids,
            now,
            r,
        ),
{
    let target = ReplacementTarget::ActiveByUserAndSymbol { user_id, symbol };
    replace_grids(table, target, grids, now)
}

/// Replaces one grid by another. Where there is no such grid, or it is deleted, nothing
/// is done.
pub fn replace_one(table: &mut Vec<UserGrid>, old_id: i32, new_grid: NewUserGrid, now: i64) -> (r:
    Result<Option<NewUserGrid>, TableError>)
    ensures
        r is Err <==> versions_exhausted(rows(old(table)@), (Which::Id { id: old_id })),
        match r {
            Ok(Some(insert)) => {
                &&& selected_count(rows(old(table)@), (Which::Id { id: old_id })) == 1
                &&& insert == new_grid
                &&& rows(final(table)@) == updated(
                    rows(old(table)@),
                    (Which::Id { id: old_id }),
                    Change::Delete,
                    now,
                )
            },
            Ok(None) => selected_count(rows(old(table)@), (Which::Id { id: old_id })) != 1
                && final(table)@ == old(table)@,
            Err(_) => final(table)@ == old(table)@,
        },
{
    let mut grids: Vec<NewUserGrid> = Vec::new();
    grids.push(new_grid);
    match replace_grids(table, ReplacementTarget::One { id: old_id }, grids, now) {
        Ok(done) => if done.kept {
            let mut insert = done.insert;
            Ok(insert.pop())
        } else {
            Ok(None)
        },
        Err(e) => Err(e),
    }
}

/// A change that finds no row leaves the table as it is: who lost a race for a row does
/// nothing to it.
pub proof fn law_nothing_selected_nothing_changed(
    table: Seq<GridRow>,
    which: Which,
    change: Change,
    now: i64,
)
    requires
        selected_count(table, which) == 0,
    ensures
        updated(table, which, change, now) == table,
{
    let keep = |row: GridRow| selected(which, row);
    assert forall|i: int| 0 <= i < table.len() implies !selected(which, #[trigger] table[i]) by {
        if selected(which, table[i]) {
            broadcast use vstd::seq_lib::group_filter_ensures;

            assert(keep(table[i]));
            assert(table.filter(keep).contains(table[i]));
        }
    }
    assert(updated(table, which, change, now) =~= table);
}

/// A change that was decided on another version of a row does not touch it.
pub proof fn law_stale_version_is_not_selected(
    row: GridRow,
    id: i32,
    version: i64,
    status: GridStatus,
)
    requires
        row.version != version,
    ensures
        !selected((Which::AsRead { id, version, status }), row),
{
}

/// Whatever is changed, no row is added or dropped; a row is left alone, or its version
/// is raised by one; and a row never changes its id, its user, its symbol, its source or
/// its time of creation.
pub proof fn law_rows_keep_identity(
    table: Seq<GridRow>,
    which: Which,
    change: Change,
    now: i64,
    i: int,
)
    requires
        !versions_exhausted(table, which),
        0 <= i < table.len(),
    ensures
        updated(table, which, change, now).len() == table.len(),
        updated(table, which, change, now)[i] == table[i] || updated(
            table,
            which,
            change,
            now,
        )[i].version == table[i].version + 1,
        updated(table, which, change, now)[i].id == table[i].id,
        updated(table, which, change, now)[i].user_id == table[i].user_id,
        updated(table, which, change, now)[i].symbol == table[i].symbol,
        updated(table, which, change, now)[i].source == table[i].source,
        updated(table, which, change, now)[i].created_at == table[i].created_at,
{
}

/// A deleted row is never touched again.
pub proof fn law_deleted_rows_stay_deleted(
    table: Seq<GridRow>,
    which: Which,
    change: Change,
    now: i64,
    i: int,
)
    requires
        !(which matches Which::AsRead { status, .. } && status == GridStatus::Deleted),
        0 <= i < table.len(),
        table[i].status == "deleted"@,
    ensures
        updated(table, which, change, now)[i] == table[i],
{
    lemma_status_names();
}

/// Only an edit by the user changes the prices of a grid.
pub proof fn law_only_edits_change_prices(row: GridRow, change: Change, now: i64)
    requires
        !(change is Edit),
    ensures
        changed(change, row, now).buy_price == row.buy_price,
        changed(change, row, now).sell_price == row.sell_price,
{
}

/// A grid that gets an order, has it filled and is turned round is new again, with the
/// other side, the same prices and no order; each of the three changes finds the row
/// under the version that the one before left.
pub proof fn law_grid_cycle(
    row: GridRow,
    order_id: &str,
    settled: Option<Decimal>,
    side: &str,
    amount: Decimal,
    now: i64,
)
    requires
        row.status == "new"@,
        row.version + 3 <= i64::MAX,
    ensures
        ({
            let v = row.version;
            let opened = changed((Change::Open { order_id }), row, now);
            let closed = changed((Change::Close { settled }), opened, now);
            let flipped = changed((Change::Flip { side, amount }), closed, now);
            &&& selected((Which::AsRead { id: row.id, version: v, status: GridStatus::New }), row)
            &&& selected(
                (Which::AsRead {
                    id: row.id,
                    version: (v + 1) as i64,
                    status: GridStatus::Open,
                }),
                opened,
            )
            &&& opened.order_id == Some(order_id@)
            &&& selected(
                (Which::AsRead {
                    id: row.id,
                    version: (v + 2) as i64,
                    status: GridStatus::Closed,
                }),
                closed,
            )
            &&& closed.order_id == Some(order_id@)
            &&& flipped == GridRow {
                status: "new"@,
                order_id: None,
                side: side@,
                amount,
                version: (v + 3) as i64,
                updated_at: now,
                ..row
            }
        }),
{
}

/// Marking a grid as paused leaves its status and its order alone; pausing it does so
/// unless it is open, and then there is no order to follow any more.
pub proof fn law_paused_grids_and_their_orders(row: GridRow, now: i64)
    ensures
        changed(Change::MarkPaused, row, now).is_paused,
        changed(Change::MarkPaused, row, now).status == row.status,
        changed(Change::MarkPaused, row, now).order_id == row.order_id,
        changed(Change::Pause, row, now).is_paused,
        changed(Change::Pause, row, now).status != "open"@,
        row.status != "open"@ ==> changed(Change::Pause, row, now).status == row.status && changed(
            Change::Pause,
            row,
            now,
        ).order_id == row.order_id,
        row.status == "open"@ ==> changed(Change::Pause, row, now).status == "new"@ && changed(
            Change::Pause,
            row,
            now,
        ).order_id is None,
{
    lemma_status_names();
}

/// A symbol has rows to trade exactly if the engine finds rows for it, so that no symbol
/// is polled in vain and none is forgotten.
pub proof fn law_active_symbols_have_rows(table: Seq<GridRow>, symbol: Seq<char>)
    ensures
        traded(table, symbol) <==> rows_of_symbol(table, symbol).len() > 0,
{
    broadcast use vstd::seq_lib::group_filter_ensures;

    let keep = |row: GridRow| row.symbol == symbol && active(row);
    if traded(table, symbol) {
        let i = choose|i: int|
            0 <= i < table.len() && #[trigger] table[i].symbol == symbol && active(table[i]);
        assert(keep(table[i]));
        assert(table.filter(keep).contains(table[i]));
    }
    if table.filter(keep).len() > 0 {
        let first = table.filter(keep)[0];
        assert(keep(first));
        lemma_filter_subset(table, keep);
        assert(table.contains(first));
        let i = choose|i: int| 0 <= i < table.len() && table[i] == first;
        assert(table[i].symbol == symbol);
    }
}

/// A row that was kept was there.
proof fn lemma_filter_subset(table: Seq<GridRow>, keep: spec_fn(GridRow) -> bool)
    ensures
        forall|i: int| 0 <= i < table.filter(keep).len() ==> table.contains(
            #[trigger] table.filter(keep)[i],
        ),
    decreases table.len(),
{
    reveal(Seq::filter);
    if table.len() > 0 {
        let front = table.drop_last();
        lemma_filter_subset(front, keep);
        assert forall|i: int| 0 <= i < table.filter(keep).len() implies table.contains(
            #[trigger] table.filter(keep)[i],
        ) by {
            if i < front.filter(keep).len() {
                assert(front.contains(front.filter(keep)[i]));
                let j = choose|j: int| 0 <= j < front.len() && front[j] == front.filter(keep)[i];
                assert(table[j] == table.filter(keep)[i]);
            } else {
                assert(table[table.len() - 1] == table.filter(keep)[i]);
            }
        }
    }
}

/// Where at most one user owns rows, all rows that are not deleted are that user's.
pub proof fn law_single_owner(table: Seq<GridRow>, i: int, j: int)
    requires
        owners(table).finite(),
        owners(table).len() <= 1,
        0 <= i < table.len(),
        0 <= j < table.len(),
        table[i].status != "deleted"@,
        table[j].status != "deleted"@,
    ensures
        table[i].user_id == table[j].user_id,
{
    let a = table[i].user_id;
    let b = table[j].user_id;
    assert(owners(table).contains(a));
    assert(owners(table).contains(b));
    if a != b {
        let pair = Set::<i32>::empty().insert(a).insert(b);
        assert(pair.subset_of(owners(table)));
        vstd::set_lib::lemma_len_subset(pair, owners(table));
    }
}

/// How many rows are not deleted.
pub open spec fn live_count(table: Seq<GridRow>) -> nat {
    table.filter(|row: GridRow| row.status != "deleted"@).len()
}

/// Deleting takes exactly the selected rows out of those that are not deleted. So a table
/// in which one row is deleted and another stored has as many grids as before.
pub proof fn law_deleting_takes_out_the_selected(table: Seq<GridRow>, which: Which, now: i64)
    requires
        !(which matches Which::AsRead { status, .. } && status == GridStatus::Deleted),
    ensures
        live_count(updated(table, which, Change::Delete, now)) + selected_count(table, which)
            == live_count(table),
    decreases table.len(),
{
    reveal(Seq::filter);
    lemma_status_names();
    if table.len() > 0 {
        let front = table.drop_last();
        law_deleting_takes_out_the_selected(front, which, now);
        let after = updated(table, which, Change::Delete, now);
        assert(after.drop_last() =~= updated(front, which, Change::Delete, now));
    } else {
        assert(updated(table, which, Change::Delete, now) =~= table);
    }
}

/// The rows of a table are what its grids say.
proof fn lemma_made(before: Seq<UserGrid>, after: Seq<UserGrid>, i: int)
    requires
        0 <= i < before.len(),
    ensures
        rows(before).len() == before.len(),
        rows(after).len() == after.len(),
        rows(before)[i] == before[i]@,
        i < after.len() ==> rows(after)[i] == after[i]@,
        forall|j: int| 0 <= j < before.len() ==> #[trigger] rows(before)[j] == before[j]@,
{
}

/// Pausing a user's grids for a symbol leaves every row of another symbol, of another user, and
/// every deleted row exactly as it is. The others are paused; those that are open become new
/// and their orders are no longer followed, and nothing else of a row changes.
pub proof fn law_pausing_a_symbol(
    table: &mut Vec<UserGrid>,
    user_id: i32,
    symbol: &str,
    now: i64,
    r: Result<u64, TableError>,
    i: int,
)
    requires
        call_ensures(pause_by_user_symbol, (table, user_id, symbol, now), r),
        0 <= i < old(table).len(),
    ensures
        ({
            let before = old(table)@;
            let row = before[i]@;
            let hit = |row: GridRow|
                row.user_id == user_id && row.symbol == symbol@ && row.status != "deleted"@;
            let after = GridRow {
                version: (row.version + 1) as i64,
                updated_at: now,
                is_paused: true,
                status: if row.status == "open"@ {
                    "new"@
                } else {
                    row.status
                },
                order_id: if row.status == "open"@ {
                    None
                } else {
                    row.order_id
                },
                ..row
            };
            &&& final(table).len() == old(table).len()
            &&& final(table)@[i]@ == if hit(row) && r is Ok {
                after
            } else {
                row
            }
            &&& hit(row) && row.version == i64::MAX ==> r is Err
            &&& r is Err ==> exists|j: int|
                0 <= j < before.len() && hit(#[trigger] before[j]@) && before[j].version == i64::MAX
            &&& r matches Ok(count) ==> count == rows(before).filter(hit).len()
        }),
{
    lemma_made(old(table)@, final(table)@, i);
    lemma_status_names();
    let hit = |row: GridRow|
        row.user_id == user_id && row.symbol == symbol@ && row.status != "deleted"@;
    let which = Which::Symbol { user_id, symbol };
    assert(forall|row: GridRow| selected(which, row) == #[trigger] hit(row));
    assert((|row: GridRow| selected(which, row)) =~= hit);
    if r is Err {
        let all = rows(old(table)@);
        let j = choose|j: int|
            0 <= j < all.len() && selected(which, #[trigger] all[j]) && all[j].version == i64::MAX;
        assert(hit(old(table)@[j]@));
    }
}

/// Marking a user's grids for a symbol as paused leaves every row of another symbol, of another
/// user, and every deleted row exactly as it is, and changes nothing of the others but that they
/// are paused: their orders are still followed.
pub proof fn law_marking_a_symbol(
    table: &mut Vec<UserGrid>,
    user_id: i32,
    symbol: &str,
    now: i64,
    r: Result<u64, TableError>,
    i: int,
)
    requires
        call_ensures(mark_paused_flag_by_user_symbol, (table, user_id, symbol, now), r),
        0 <= i < old(table).len(),
    ensures
        ({
            let before = old(table)@;
            let row = before[i]@;
            let hit = |row: GridRow|
                row.user_id == user_id && row.symbol == symbol@ && row.status != "deleted"@;
            let after = GridRow {
                version: (row.version + 1) as i64,
                updated_at: now,
                is_paused: true,
                ..row
            };
            &&& final(table).len() == old(table).len()
            &&& final(table)@[i]@ == if hit(row) && r is Ok {
                after
            } else {
                row
            }
            &&& hit(row) && row.version == i64::MAX ==> r is Err
            &&& r is Err ==> exists|j: int|
                0 <= j < before.len() && hit(#[trigger] before[j]@) && before[j].version == i64::MAX
            &&& r matches Ok(count) ==> count == rows(before).filter(hit).len()
        }),
{
    lemma_made(old(table)@, final(table)@, i);
    lemma_status_names();
    let hit = |row: GridRow|
        row.user_id == user_id && row.symbol == symbol@ && row.status != "deleted"@;
    let which = Which::Symbol { user_id, symbol };
    assert(forall|row: GridRow| selected(which, row) == #[trigger] hit(row));
    assert((|row: GridRow| selected(which, row)) =~= hit);
    if r is Err {
        let all = rows(old(table)@);
        let j = choose|j: int|
            0 <= j < all.len() && selected(which, #[trigger] all[j]) && all[j].version == i64::MAX;
        assert(hit(old(table)@[j]@));
    }
}

/// Resuming a user's grids for a symbol leaves every row of another symbol, of another user,
/// every row that is not paused and every deleted row exactly as it is, and changes nothing of
/// the others but that they are no longer paused.
pub proof fn law_resuming_a_symbol(
    table: &mut Vec<UserGrid>,
    user_id: i32,
    symbol: &str,
    now: i64,
    r: Result<u64, TableError>,
    i: int,
)
    requires
        call_ensures(resume_by_user_symbol, (table, user_id, symbol, now), r),
        0 <= i < old(table).len(),
    ensures
        ({
            let before = old(table)@;
            let row = before[i]@;
            let hit = |row: GridRow|
                row.user_id == user_id && row.symbol == symbol@ && row.is_paused
                    && row.status != "deleted"@;
            let after = GridRow {
                version: (row.version + 1) as i64,
                updated_at: now,
                is_paused: false,
                ..row
            };
            &&& final(table).len() == old(table).len()
            &&& final(table)@[i]@ == if hit(row) && r is Ok {
                after
            } else {
                row
            }
            &&& hit(row) && row.version == i64::MAX ==> r is Err
            &&& r is Err ==> exists|j: int|
                0 <= j < before.len() && hit(#[trigger] before[j]@) && before[j].version == i64::MAX
            &&& r matches Ok(count) ==> count == rows(before).filter(hit).len()
        }),
{
    lemma_made(old(table)@, final(table)@, i);
    lemma_status_names();
    let hit = |row: GridRow|
        row.user_id == user_id && row.symbol == symbol@ && row.is_paused
            && row.status != "deleted"@;
    let which = Which::PausedBySymbol { user_id, symbol };
    assert(forall|row: GridRow| selected(which, row) == #[trigger] hit(row));
    assert((|row: GridRow| selected(which, row)) =~= hit);
    if r is Err {
        let all = rows(old(table)@);
        let j = choose|j: int|
            0 <= j < all.len() && selected(which, #[trigger] all[j]) && all[j].version == i64::MAX;
        assert(hit(old(table)@[j]@));
    }
}

/// Pausing one grid leaves every other row exactly as it is. The grid is paused; if it is open
/// it becomes new and its order is no longer followed.
pub proof fn law_pausing_one_grid(
    table: &mut Vec<UserGrid>,
    id: i32,
    now: i64,
    r: Result<u64, TableError>,
    i: int,
)
    requires
        call_ensures(pause_single, (table, id, now), r),
        0 <= i < old(table).len(),
    ensures
        ({
            let before = old(table)@;
            let row = before[i]@;
            let hit = |row: GridRow| row.id == id && row.status != "deleted"@;
            let after = GridRow {
                version: (row.version + 1) as i64,
                updated_at: now,
                is_paused: true,
                status: if row.status == "open"@ {
                    "new"@
                } else {
                    row.status
                },
                order_id: if row.status == "open"@ {
                    None
                } else {
                    row.order_id
                },
                ..row
            };
            &&& final(table).len() == old(table).len()
            &&& final(table)@[i]@ == if hit(row) && r is Ok {
                after
            } else {
                row
            }
            &&& hit(row) && row.version == i64::MAX ==> r is Err
            &&& r is Err ==> exists|j: int|
                0 <= j < before.len() && hit(#[trigger] before[j]@) && before[j].version == i64::MAX
            &&& r matches Ok(count) ==> count == rows(before).filter(hit).len()
        }),
{
    lemma_made(old(table)@, final(table)@, i);
    lemma_status_names();
    let hit = |row: GridRow| row.id == id && row.status != "deleted"@;
    let which = Which::Id { id };
    assert(forall|row: GridRow| selected(which, row) == #[trigger] hit(row));
    assert((|row: GridRow| selected(which, row)) =~= hit);
    if r is Err {
        let all = rows(old(table)@);
        let j = choose|j: int|
            0 <= j < all.len() && selected(which, #[trigger] all[j]) && all[j].version == i64::MAX;
        assert(hit(old(table)@[j]@));
    }
}

/// Resuming one grid leaves every other row exactly as it is, and changes nothing of the grid
/// but that it is no longer paused.
pub proof fn law_resuming_one_grid(
    table: &mut Vec<UserGrid>,
    id: i32,
    now: i64,
    r: Result<u64, TableError>,
    i: int,
)
    requires
        call_ensures(resume_single, (table, id, now), r),
        0 <= i < old(table).len(),
    ensures
        ({
            let before = old(table)@;
            let row = before[i]@;
            let hit = |row: GridRow| row.id == id && row.status != "deleted"@;
            let after = GridRow {
                version: (row.version + 1) as i64,
                updated_at: now,
                is_paused: false,
                ..row
            };
            &&& final(table).len() == old(table).len()
            &&& final(table)@[i]@ == if hit(row) && r is Ok {
                after
            } else {
                row
            }
            &&& hit(row) && row.version == i64::MAX ==> r is Err
            &&& r is Err ==> exists|j: int|
                0 <= j < before.len() && hit(#[trigger] before[j]@) && before[j].version == i64::MAX
            &&& r matches Ok(count) ==> count == rows(before).filter(hit).len()
        }),
{
    lemma_made(old(table)@, final(table)@, i);
    lemma_status_names();
    let hit = |row: GridRow| row.id == id && row.status != "deleted"@;
    let which = Which::Id { id };
    assert(forall|row: GridRow| selected(which, row) == #[trigger] hit(row));
    assert((|row: GridRow| selected(which, row)) =~= hit);
    if r is Err {
        let all = rows(old(table)@);
        let j = choose|j: int|
            0 <= j < all.len() && selected(which, #[trigger] all[j]) && all[j].version == i64::MAX;
        assert(hit(old(table)@[j]@));
    }
}

/// Giving up a grid leaves every other row exactly as it is. The row stays, deleted and without
/// its order.
pub proof fn law_giving_up_a_grid(
    table: &mut Vec<UserGrid>,
    id: i32,
    now: i64,
    r: Result<bool, TableError>,
    i: int,
)
    requires
        call_ensures(soft_delete, (table, id, now), r),
        0 <= i < old(table).len(),
    ensures
        ({
            let before = old(table)@;
            let row = before[i]@;
            let hit = |row: GridRow| row.id == id && row.status != "deleted"@;
            let after = GridRow {
                version: (row.version + 1) as i64,
                updated_at: now,
                status: "deleted"@,
                order_id: None,
                ..row
            };
            &&& final(table).len() == old(table).len()
            &&& final(table)@[i]@ == if hit(row) && r is Ok {
                after
            } else {
                row
            }
            &&& hit(row) && row.version == i64::MAX ==> r is Err
            &&& r is Err ==> exists|j: int|
                0 <= j < before.len() && hit(#[trigger] before[j]@) && before[j].version == i64::MAX
            &&& r matches Ok(done) ==> done == (rows(before).filter(hit).len() == 1)
        }),
{
    lemma_made(old(table)@, final(table)@, i);
    lemma_status_names();
    let hit = |row: GridRow| row.id == id && row.status != "deleted"@;
    let which = Which::Id { id };
    assert(forall|row: GridRow| selected(which, row) == #[trigger] hit(row));
    assert((|row: GridRow| selected(which, row)) =~= hit);
    if r is Err {
        let all = rows(old(table)@);
        let j = choose|j: int|
            0 <= j < all.len() && selected(which, #[trigger] all[j]) && all[j].version == i64::MAX;
        assert(hit(old(table)@[j]@));
    }
}

/// Recording the order of a grid leaves every row exactly as it is that is not this grid, new,
/// and of the version that was read. The grid becomes open and has the order.
pub proof fn law_recording_an_order(
    table: &mut Vec<UserGrid>,
    id: i32,
    order_id: &str,
    version: i64,
    now: i64,
    r: Result<bool, TableError>,
    i: int,
)
    requires
        call_ensures(set_order_open, (table, id, order_id, version, now), r),
        0 <= i < old(table).len(),
    ensures
        ({
            let before = old(table)@;
            let row = before[i]@;
            let hit = |row: GridRow| row.id == id && row.version == version && row.status == "new"@;
            let after = GridRow {
                version: (row.version + 1) as i64,
                updated_at: now,
                status: "open"@,
                order_id: Some(order_id@),
                ..row
            };
            &&& final(table).len() == old(table).len()
            &&& final(table)@[i]@ == if hit(row) && r is Ok {
                after
            } else {
                row
            }
            &&& hit(row) && row.version == i64::MAX ==> r is Err
            &&& r is Err ==> exists|j: int|
                0 <= j < before.len() && hit(#[trigger] before[j]@) && before[j].version == i64::MAX
            &&& r matches Ok(done) ==> done == (rows(before).filter(hit).len() == 1)
        }),
{
    lemma_made(old(table)@, final(table)@, i);
    lemma_status_names();
    let hit = |row: GridRow| row.id == id && row.version == version && row.status == "new"@;
    let which = Which::AsRead { id, version, status: GridStatus::New };
    assert(forall|row: GridRow| selected(which, row) == #[trigger] hit(row));
    assert((|row: GridRow| selected(which, row)) =~= hit);
    if r is Err {
        let all = rows(old(table)@);
        let j = choose|j: int|
            0 <= j < all.len() && selected(which, #[trigger] all[j]) && all[j].version == i64::MAX;
        assert(hit(old(table)@[j]@));
    }
}

/// Resetting a grid leaves every row exactly as it is that is not this grid, open, and of the
/// version that was read. The grid becomes new and has no order.
pub proof fn law_resetting_a_grid(
    table: &mut Vec<UserGrid>,
    id: i32,
    version: i64,
    now: i64,
    r: Result<bool, TableError>,
    i: int,
)
    requires
        call_ensures(reset_to_new, (table, id, version, now), r),
        0 <= i < old(table).len(),
    ensures
        ({
            let before = old(table)@;
            let row = before[i]@;
            let hit = |row: GridRow|
                row.id == id && row.version == version && row.status == "open"@;
            let after = GridRow {
                version: (row.version + 1) as i64,
                updated_at: now,
                status: "new"@,
                order_id: None,
                ..row
            };
            &&& final(table).len() == old(table).len()
            &&& final(table)@[i]@ == if hit(row) && r is Ok {
                after
            } else {
                row
            }
            &&& hit(row) && row.version == i64::MAX ==> r is Err
            &&& r is Err ==> exists|j: int|
                0 <= j < before.len() && hit(#[trigger] before[j]@) && before[j].version == i64::MAX
            &&& r matches Ok(done) ==> done == (rows(before).filter(hit).len() == 1)
        }),
{
    lemma_made(old(table)@, final(table)@, i);
    lemma_status_names();
    let hit = |row: GridRow| row.id == id && row.version == version && row.status == "open"@;
    let which = Which::AsRead { id, version, status: GridStatus::Open };
    assert(forall|row: GridRow| selected(which, row) == #[trigger] hit(row));
    assert((|row: GridRow| selected(which, row)) =~= hit);
    if r is Err {
        let all = rows(old(table)@);
        let j = choose|j: int|
            0 <= j < all.len() && selected(which, #[trigger] all[j]) && all[j].version == i64::MAX;
        assert(hit(old(table)@[j]@));
    }
}

/// Editing a grid leaves every other row, every row of another user and every deleted row exactly
/// as it is. The grid gets the prices, the amount and the side of the edit, and becomes new and
/// without an order.
pub proof fn law_editing_a_grid(
    table: &mut Vec<UserGrid>,
    id: i32,
    user_id: i32,
    update: &UpdateUserGrid,
    now: i64,
    r: Result<bool, TableError>,
    i: int,
)
    requires
        call_ensures(update_full, (table, id, user_id, update, now), r),
        0 <= i < old(table).len(),
    ensures
        ({
            let before = old(table)@;
            let row = before[i]@;
            let hit = |row: GridRow|
                row.id == id && row.user_id == user_id && row.status != "deleted"@;
            let after = GridRow {
                version: (row.version + 1) as i64,
                updated_at: now,
                amount: update.amount,
                buy_price: update.buy_price,
                sell_price: update.sell_price,
                side: update.side@,
                status: "new"@,
                order_id: None,
                ..row
            };
            &&& final(table).len() == old(table).len()
            &&& final(table)@[i]@ == if hit(row) && r is Ok {
                after
            } else {
                row
            }
            &&& hit(row) && row.version == i64::MAX ==> r is Err
            &&& r is Err ==> exists|j: int|
                0 <= j < before.len() && hit(#[trigger] before[j]@) && before[j].version == i64::MAX
            &&& r matches Ok(done) ==> done == (rows(before).filter(hit).len() == 1)
        }),
{
    lemma_made(old(table)@, final(table)@, i);
    lemma_status_names();
    let hit = |row: GridRow| row.id == id && row.user_id == user_id && row.status != "deleted"@;
    let which = Which::Owned { id, user_id };
    assert(forall|row: GridRow| selected(which, row) == #[trigger] hit(row));
    assert((|row: GridRow| selected(which, row)) =~= hit);
    if r is Err {
        let all = rows(old(table)@);
        let j = choose|j: int|
            0 <= j < all.len() && selected(which, #[trigger] all[j]) && all[j].version == i64::MAX;
        assert(hit(old(table)@[j]@));
    }
}

/// Turning a grid round leaves every row exactly as it is that is not this grid, closed, and of
/// the version that was read. The grid becomes new, without an order, with the side and the
/// amount of the other leg and the prices that it had.
pub proof fn law_turning_a_grid_round(
    table: &mut Vec<UserGrid>,
    id: i32,
    new_side: &str,
    new_amount: Decimal,
    version: i64,
    now: i64,
    r: Result<bool, TableError>,
    i: int,
)
    requires
        call_ensures(flip_to_reverse, (table, id, new_side, new_amount, version, now), r),
        0 <= i < old(table).len(),
    ensures
        ({
            let before = old(table)@;
            let row = before[i]@;
            let hit = |row: GridRow|
                row.id == id && row.version == version && row.status == "closed"@;
            let after = GridRow {
                version: (row.version + 1) as i64,
                updated_at: now,
                side: new_side@,
                amount: new_amount,
                status: "new"@,
                order_id: None,
                ..row
            };
            &&& final(table).len() == old(table).len()
            &&& final(table)@[i]@ == if hit(row) && r is Ok {
                after
            } else {
                row
            }
            &&& hit(row) && row.version == i64::MAX ==> r is Err
            &&& r is Err ==> exists|j: int|
                0 <= j < before.len() && hit(#[trigger] before[j]@) && before[j].version == i64::MAX
            &&& r matches Ok(done) ==> done == (rows(before).filter(hit).len() == 1)
        }),
{
    lemma_made(old(table)@, final(table)@, i);
    lemma_status_names();
    let hit = |row: GridRow| row.id == id && row.version == version && row.status == "closed"@;
    let which = Which::AsRead { id, version, status: GridStatus::Closed };
    assert(forall|row: GridRow| selected(which, row) == #[trigger] hit(row));
    assert((|row: GridRow| selected(which, row)) =~= hit);
    if r is Err {
        let all = rows(old(table)@);
        let j = choose|j: int|
            0 <= j < all.len() && selected(which, #[trigger] all[j]) && all[j].version == i64::MAX;
        assert(hit(old(table)@[j]@));
    }
}

/// Replacing a user's laid out grids for a symbol deletes just those, paused or not: every row
/// of another symbol, of another user, and every grid of the user's own making stays exactly as
/// it is. All the grids that take their place are handed out.
pub proof fn law_replacing_laid_out_grids(
    table: &mut Vec<UserGrid>,
    user_id: i32,
    symbol: &str,
    grids: Vec<NewUserGrid>,
    now: i64,
    r: Result<Replacement, TableError>,
    i: int,
)
    requires
        call_ensures(replace_auto_by_user_and_symbol, (table, user_id, symbol, grids, now), r),
        0 <= i < old(table).len(),
    ensures
        ({
            let before = old(table)@;
            let row = before[i]@;
            let hit = |row: GridRow|
                row.user_id == user_id && row.symbol == symbol@ && row.source == "auto"@
                    && row.status != "deleted"@;
            let gone = GridRow {
                version: (row.version + 1) as i64,
                updated_at: now,
                status: "deleted"@,
                order_id: None,
                ..row
            };
            &&& final(table).len() == old(table).len()
            &&& final(table)@[i]@ == if hit(row) && r is Ok {
                gone
            } else {
                row
            }
            &&& r matches Ok(done) ==> done.kept && done.insert == grids && done.deleted == rows(
                before,
            ).filter(hit).len()
            &&& hit(row) && row.version == i64::MAX ==> r is Err
        }),
{
    lemma_made(old(table)@, final(table)@, i);
    lemma_status_names();
    let hit = |row: GridRow|
        row.user_id == user_id && row.symbol == symbol@ && row.source == "auto"@
            && row.status != "deleted"@;
    let which = Which::AutoBySymbol { user_id, symbol };
    assert(forall|row: GridRow| selected(which, row) == #[trigger] hit(row));
    assert((|row: GridRow| selected(which, row)) =~= hit);
}

/// Replacing a user's traded grids for a symbol deletes just those: every row of another symbol,
/// of another user, and every paused grid stays exactly as it is. All the grids that take their
/// place are handed out.
pub proof fn law_replacing_traded_grids(
    table: &mut Vec<UserGrid>,
    user_id: i32,
    symbol: &str,
    grids: Vec<NewUserGrid>,
    now: i64,
    r: Result<Replacement, TableError>,
    i: int,
)
    requires
        call_ensures(replace_active_by_user_and_symbol, (table, user_id, symbol, grids, now), r),
        0 <= i < old(table).len(),
    ensures
        ({
            let before = old(table)@;
            let row = before[i]@;
            let hit = |row: GridRow|
                row.user_id == user_id && row.symbol == symbol@ && row.status != "deleted"@
                    && !row.is_paused;
            let gone = GridRow {
                version: (row.version + 1) as i64,
                updated_at: now,
                status: "deleted"@,
                order_id: None,
                ..row
            };
            &&& final(table).len() == old(table).len()
            &&& final(table)@[i]@ == if hit(row) && r is Ok {
                gone
            } else {
                row
            }
            &&& r matches Ok(done) ==> done.kept && done.insert == grids && done.deleted == rows(
                before,
            ).filter(hit).len()
            &&& hit(row) && row.version == i64::MAX ==> r is Err
        }),
{
    lemma_made(old(table)@, final(table)@, i);
    lemma_status_names();
    let hit = |row: GridRow|
        row.user_id == user_id && row.symbol == symbol@ && row.status != "deleted"@
            && !row.is_paused;
    let which = Which::ActiveBySymbol { user_id, symbol };
    assert(forall|row: GridRow| selected(which, row) == #[trigger] hit(row));
    assert((|row: GridRow| selected(which, row)) =~= hit);
}

/// Replacing one grid deletes just that and hands out the one that takes its place; if there is
/// no such grid, or it is deleted, every row stays exactly as it is and nothing is handed out.
pub proof fn law_replacing_one_grid(
    table: &mut Vec<UserGrid>,
    old_id: i32,
    new_grid: NewUserGrid,
    now: i64,
    r: Result<Option<NewUserGrid>, TableError>,
    i: int,
)
    requires
        call_ensures(replace_one, (table, old_id, new_grid, now), r),
        0 <= i < old(table).len(),
    ensures
        ({
            let before = old(table)@;
            let row = before[i]@;
            let hit = |row: GridRow| row.id == old_id && row.status != "deleted"@;
            let gone = GridRow {
                version: (row.version + 1) as i64,
                updated_at: now,
                status: "deleted"@,
                order_id: None,
                ..row
            };
            &&& final(table).len() == old(table).len()
            &&& final(table)@[i]@ == if hit(row) && (r matches Ok(Some(_))) {
                gone
            } else {
                row
            }
            &&& r matches Ok(Some(insert)) ==> insert == new_grid && rows(before).filter(hit).len()
                == 1
            &&& r matches Ok(None) ==> rows(before).filter(hit).len() != 1
        }),
{
    lemma_made(old(table)@, final(table)@, i);
    let hit = |row: GridRow| row.id == old_id && row.status != "deleted"@;
    let which = Which::Id { id: old_id };
    assert(forall|row: GridRow| selected(which, row) == #[trigger] hit(row));
    assert((|row: GridRow| selected(which, row)) =~= hit);
}

/// The grids that are traded for a symbol are found, all of them and no others: those of the
/// symbol that are neither deleted nor paused.
pub proof fn law_traded_grids_are_found(
    table: &Vec<UserGrid>,
    symbol: &str,
    r: Vec<UserGrid>,
    i: int,
)
    requires
        call_ensures(find_by_symbol, (table, symbol), r),
    ensures
        0 <= i < table.len() && table@[i].symbol@ == symbol@ && table@[i].status@ != "deleted"@
            && !table@[i].is_paused ==> rows(r@).contains(table@[i]@),
        0 <= i < r.len() ==> r@[i].symbol@ == symbol@ && r@[i].status@ != "deleted"@
            && !r@[i].is_paused && rows(table@).contains(r@[i]@),
{
    let keep = |row: GridRow| row.symbol == symbol@ && active(row);
    let all = rows(table@);
    if 0 <= i < table.len() && keep(all[i]) {
        all.lemma_filter_contains(keep, i);
    }
    if 0 <= i < r.len() {
        assert(rows(r@)[i] == r@[i]@);
        all.lemma_filter_pred(keep, i);
        all.lemma_filter_contains_rev(keep, rows(r@)[i]);
    }
}

/// A user sees all grids of that user that are not deleted, paused or not, and no others.
pub proof fn law_users_see_their_grids(
    table: &Vec<UserGrid>,
    user_id: i32,
    r: Vec<UserGrid>,
    i: int,
)
    requires
        call_ensures(find_by_user, (table, user_id), r),
    ensures
        0 <= i < table.len() && table@[i].user_id == user_id && table@[i].status@ != "deleted"@
            ==> rows(r@).contains(table@[i]@),
        0 <= i < r.len() ==> r@[i].user_id == user_id && r@[i].status@ != "deleted"@ && rows(
            table@,
        ).contains(r@[i]@),
{
    let keep = |row: GridRow| row.user_id == user_id && row.status != "deleted"@;
    let all = rows(table@);
    if 0 <= i < table.len() && keep(all[i]) {
        all.lemma_filter_contains(keep, i);
    }
    if 0 <= i < r.len() {
        assert(rows(r@)[i] == r@[i]@);
        all.lemma_filter_pred(keep, i);
        all.lemma_filter_contains_rev(keep, rows(r@)[i]);
    }
}

/// The symbols that are polled are those that have a grid which is neither deleted nor paused,
/// each once.
pub proof fn law_polled_symbols_have_a_traded_grid(
    table: &Vec<UserGrid>,
    r: Vec<String>,
    i: int,
    j: int,
)
    requires
        call_ensures(get_active_symbols, (table,), r),
    ensures
        0 <= i < table.len() && table@[i].status@ != "deleted"@ && !table@[i].is_paused ==> exists|
            k: int,
        |
            0 <= k < r.len() && (#[trigger] r@[k])@ == table@[i].symbol@,
        0 <= i < r.len() ==> exists|k: int|
            0 <= k < table.len() && (#[trigger] table@[k]).symbol@ == r@[i]@ && table@[k].status@
                != "deleted"@ && !table@[k].is_paused,
        0 <= i < j < r.len() ==> r@[i]@ != r@[j]@,
{
    let all = rows(table@);
    if 0 <= i < table.len() && table@[i].status@ != "deleted"@ && !table@[i].is_paused {
        assert(all[i].symbol == table@[i].symbol@);
        assert(traded(all, table@[i].symbol@));
        assert(named(r@, table@[i].symbol@));
    }
    if 0 <= i < r.len() {
        assert(named(r@, r@[i]@));
        assert(traded(all, r@[i]@));
        let k = choose|k: int|
            0 <= k < all.len() && #[trigger] all[k].symbol == r@[i]@ && active(all[k]);
        assert(table@[k].symbol@ == r@[i]@);
    }
}

/// A grid is stored as it was to be: new, with its user, symbol, side, amount, prices and
/// source.
pub proof fn law_grids_are_stored_as_they_are(new: NewUserGrid, r: StoredGrid)
    requires
        call_ensures(create, (new,), r),
    ensures
        r.user_id == new.user_id,
        r.symbol@ == new.symbol@,
        r.side@ == new.side@,
        r.amount == new.amount,
        r.buy_price == new.buy_price,
        r.sell_price == new.sell_price,
        r.source@ == new.source@,
        r.status@ == "new"@,
{
}

/// Grids are stored as they were to be, all of them and in their order.
pub proof fn law_batches_are_stored_as_they_are(
    grids: Vec<NewUserGrid>,
    r: Vec<StoredGrid>,
    i: int,
)
    requires
        call_ensures(create_batch, (grids,), r),
        0 <= i < grids.len(),
    ensures
        r.len() == grids.len(),
        r@[i].user_id == grids@[i].user_id,
        r@[i].symbol@ == grids@[i].symbol@,
        r@[i].side@ == grids@[i].side@,
        r@[i].amount == grids@[i].amount,
        r@[i].buy_price == grids@[i].buy_price,
        r@[i].sell_price == grids@[i].sell_price,
        r@[i].source@ == grids@[i].source@,
        r@[i].status@ == "new"@,
{
    assert(stored_as(grids@[i], r@[i]));
}

/// At most one user owns grids exactly if no two grids that are not deleted have different
/// users.
pub proof fn law_owners_are_counted(table: &Vec<UserGrid>, r: usize, i: int, j: int)
    requires
        call_ensures(distinct_owner_count, (table,), r),
    ensures
        r <= 1 && 0 <= i < table.len() && 0 <= j < table.len() && table@[i].status@ != "deleted"@
            && table@[j].status@ != "deleted"@ ==> table@[i].user_id == table@[j].user_id,
        (forall|m: int, n: int|
            0 <= m < table.len() && 0 <= n < table.len() && #[trigger] table@[m].status@
                != "deleted"@ && #[trigger] table@[n].status@ != "deleted"@ ==> table@[m].user_id
                == table@[n].user_id) ==> r <= 1,
        r == 0 <==> forall|m: int| 0 <= m < table.len() ==> #[trigger] table@[m].status@
            == "deleted"@,
{
    let all = rows(table@);
    let set = owners(all);
    if r <= 1 && 0 <= i < table.len() && 0 <= j < table.len() && table@[i].status@ != "deleted"@
        && table@[j].status@ != "deleted"@ {
        assert(all[i].status != "deleted"@ && all[j].status != "deleted"@);
        law_single_owner(all, i, j);
    }
    if forall|m: int, n: int|
        0 <= m < table.len() && 0 <= n < table.len() && #[trigger] table@[m].status@ != "deleted"@
            && #[trigger] table@[n].status@ != "deleted"@ ==> table@[m].user_id
            == table@[n].user_id {
        if r > 1 {
            let a = set.choose();
            let rest = set.remove(a);
            assert(rest.len() > 0);
            let b = rest.choose();
            assert(set.contains(a) && set.contains(b) && a != b);
            let m = choose|m: int|
                0 <= m < all.len() && #[trigger] all[m].user_id == a && all[m].status != "deleted"@;
            let n = choose|n: int|
                0 <= n < all.len() && #[trigger] all[n].user_id == b && all[n].status != "deleted"@;
            assert(table@[m].status@ != "deleted"@ && table@[n].status@ != "deleted"@);
        }
    }
    if r == 0 {
        assert forall|m: int| 0 <= m < table.len() implies #[trigger] table@[m].status@
            == "deleted"@ by {
            if table@[m].status@ != "deleted"@ {
                assert(all[m].user_id == table@[m].user_id);
                assert(set.contains(table@[m].user_id));
            }
        }
    } else {
        let a = set.choose();
        assert(set.contains(a));
        let m = choose|m: int|
            0 <= m < all.len() && #[trigger] all[m].user_id == a && all[m].status != "deleted"@;
        assert(table@[m].status@ != "deleted"@);
    }
}

/// Grids are found in the order in which they stand in the table: if all of them are traded for
/// the symbol, what is found is the table.
pub proof fn law_grids_are_found_in_order(table: &Vec<UserGrid>, symbol: &str, r: Vec<UserGrid>)
    requires
        call_ensures(find_by_symbol, (table, symbol), r),
        forall|i: int|
            0 <= i < table.len() ==> (#[trigger] table@[i]).symbol@ == symbol@ && table@[i].status@
                != "deleted"@ && !table@[i].is_paused,
    ensures
        rows(r@) == rows(table@),
{
    let keep = |row: GridRow| row.symbol == symbol@ && active(row);
    assert forall|i: int| 0 <= i < rows(table@).len() implies keep(#[trigger] rows(table@)[i]) by {
        assert(rows(table@)[i] == table@[i]@);
    }
    lemma_all_kept(rows(table@), keep);
}

} // verus!
