//! What the engine remembers from one round to the next.

use crate::engine::error::EngineError;
use crate::exchange::error::BinanceError;
use crate::exchange::types::SymbolFilters;
use crate::text::join;
use vstd::hash_map::StringHashMap;
use vstd::prelude::*;

verus! {

/// How long the price has to be out of the range of the grids before they follow it, in
/// seconds.
pub const RANGE_DELAY_SECS: u64 = 300;

/// How long the engine waits after a round, in seconds.
pub const POLL_INTERVAL_SECS: u64 = 3;

/// How long the supervisor waits after a look at the tasks, in seconds.
pub const SUPERVISE_INTERVAL_SECS: u64 = 30;

/// The nanoseconds of a second.
pub const NANOS_PER_SEC: u64 = 1_000_000_000;

/// Whether the price of a symbol is out of the range of its grids, and for how many
/// minutes it has been.
#[derive(Clone, Copy, Debug, PartialEq, Eq, Structural)]
pub struct ReCenterStatus {
    pub out_of_range: bool,
    pub minutes_out: u64,
}

/// What the engine remembers. Points in time count nanoseconds.
pub struct GridEngine {
    /// Since when the price of a symbol has been out of range.
    pub out_of_range_since: StringHashMap<u64>,
    /// The trading rules that have been looked up.
    pub filters: StringHashMap<SymbolFilters>,
}

/// The whole seconds from one point in time to another, none if it is earlier.
pub open spec fn seconds_between(since: u64, now: u64) -> int {
    if now >= since {
        (now - since) / NANOS_PER_SEC as int
    } else {
        0
    }
}

/// The trading rules of a symbol among those that have been looked up.
pub open spec fn known_rules(filters: Map<Seq<char>, SymbolFilters>, symbol: Seq<char>) -> Option<
    SymbolFilters,
> {
    if filters.contains_key(symbol) {
        Some(filters[symbol])
    } else {
        None
    }
}

/// Trading rules that were looked up are found again, and leave those of other symbols
/// alone.
pub proof fn law_rules_are_found_again(
    filters: Map<Seq<char>, SymbolFilters>,
    symbol: Seq<char>,
    rules: SymbolFilters,
    other: Seq<char>,
)
    requires
        other != symbol,
    ensures
        known_rules(filters.insert(symbol, rules), symbol) == Some(rules),
        known_rules(filters.insert(symbol, rules), other) == known_rules(filters, other),
{
}

/// The whole seconds from one point in time to another, none if it is earlier.
fn elapsed_secs(since: u64, now: u64) -> (r: u64)
    ensures
        r == seconds_between(since, now),
{
    if now >= since {
        (now - since) / NANOS_PER_SEC
    } else {
        0
    }
}

impl GridEngine {
    /// Nothing to remember yet.
    pub fn new() -> (r: GridEngine)
        ensures
            r.out_of_range_since@ == Map::<Seq<char>, u64>::empty(),
            r.filters@ == Map::<Seq<char>, SymbolFilters>::empty(),
    {
        GridEngine { out_of_range_since: StringHashMap::new(), filters: StringHashMap::new() }
    }

    /// Forgets since when the price has been out of range.
    pub fn clear_out_of_range(&mut self, symbol: &str)
        ensures
            final(self).out_of_range_since@ == old(self).out_of_range_since@.remove(symbol@),
            final(self).filters == old(self).filters,
    {
        self.out_of_range_since.remove(symbol);
    }

    /// The trading rules of a symbol, if they have been looked up.
    pub fn symbol_filters(&self, symbol: &str) -> (r: Option<SymbolFilters>)
        ensures
            r == known_rules(self.filters@, symbol@),
    {
        match self.filters.get(symbol) {
            Some(f) => Some(*f),
            None => None,
        }
    }

    /// Remembers the trading rules that were looked up, if they were found.
    pub fn store_filters(&mut self, symbol: &str, reply: Result<SymbolFilters, BinanceError>) -> (r:
        Result<SymbolFilters, EngineError>)
        ensures
            final(self).out_of_range_since == old(self).out_of_range_since,
            match reply {
                Ok(f) => r == Ok::<SymbolFilters, EngineError>(f) && final(self).filters@
                    == old(self).filters@.insert(symbol@, f),
                Err(e) => (r matches Err(EngineError::Context(what, source)) && what@ == symbol@
                    + " 获取交易规则失败"@ && source == e) && final(self).filters
                    == old(self).filters,
            },
    {
        match reply {
            Ok(f) => {
                self.filters.insert(symbol.to_owned(), f);
                Ok(f)
            },
            Err(e) => Err(EngineError::Context(join(symbol, " 获取交易规则失败"), e)),
        }
    }

    /// Whether the price of a symbol is out of range, and for how many minutes.
    pub fn get_recenter_status(&self, symbol: &str, now: u64) -> (r: ReCenterStatus)
        ensures
            r.out_of_range == self.out_of_range_since@.contains_key(symbol@),
            r.minutes_out == if r.out_of_range {
                seconds_between(self.out_of_range_since@[symbol@], now) / 60
            } else {
                0
            },
    {
        match self.out_of_range_since.get(symbol) {
            Some(since) => ReCenterStatus {
                out_of_range: true,
                minutes_out: elapsed_secs(*since, now) / 60,
            },
            None => ReCenterStatus { out_of_range: false, minutes_out: 0 },
        }
    }

    /// Takes note of whether the price of a symbol is out of range, and says whether it
    /// has been for so long that the grids have to follow. A price that is back in range
    /// is forgotten to have been out.
    pub fn note_range(&mut self, symbol: &str, out_of_range: bool, now: u64) -> (r: bool)
        ensures
            final(self).filters == old(self).filters,
            ({
                let before = old(self).out_of_range_since@;
                let since = if before.contains_key(symbol@) {
                    before[symbol@]
                } else {
                    now
                };
                &&& final(self).out_of_range_since@ == if out_of_range {
                    before.insert(symbol@, since)
                } else {
                    before.remove(symbol@)
                }
                &&& r == (out_of_range && seconds_between(since, now) >= RANGE_DELAY_SECS)
            }),
    {
        if !out_of_range {
            self.out_of_range_since.remove(symbol);
            return false;
        }
        let ghost before = self.out_of_range_since@;
        let mut since: u64 = now;
        let mut known = false;
        if let Some(s) = self.out_of_range_since.get(symbol) {
            since = *s;
            known = true;
        }
        if !known {
            self.out_of_range_since.insert(symbol.to_owned(), now);
        } else {
            assert(before =~= before.insert(symbol@, since));
        }
        elapsed_secs(since, now) >= RANGE_DELAY_SECS
    }
}

/// A price is followed when it has been out of range for 300 seconds and not before, counted
/// from when it was first found out of range; a price that is back in range starts the count
/// anew.
pub proof fn law_out_of_range_is_counted_from_the_first_time(
    engine: &mut GridEngine,
    symbol: &str,
    out_of_range: bool,
    now: u64,
    r: bool,
)
    requires
        call_ensures(GridEngine::note_range, (engine, symbol, out_of_range, now), r),
    ensures
        ({
            let before = old(engine).out_of_range_since@;
            let after = final(engine).out_of_range_since@;
            &&& !out_of_range ==> !r && !after.contains_key(symbol@)
            &&& out_of_range ==> after.contains_key(symbol@) && after[symbol@] == if
                before.contains_key(symbol@) {
                before[symbol@]
            } else {
                now
            }
            &&& r <==> out_of_range && before.contains_key(symbol@) && now - before[symbol@]
                >= 300_000_000_000
        }),
{
}

/// How long a price is said to have been out of range: so many whole minutes, since it was
/// first found to be.
pub proof fn law_minutes_out_of_range(
    engine: &GridEngine,
    symbol: &str,
    now: u64,
    r: ReCenterStatus,
)
    requires
        call_ensures(GridEngine::get_recenter_status, (engine, symbol, now), r),
    ensures
        r.out_of_range == engine.out_of_range_since@.contains_key(symbol@),
        !r.out_of_range ==> r.minutes_out == 0,
        r.out_of_range && engine.out_of_range_since@[symbol@] <= now ==> r.minutes_out
            * 60_000_000_000 <= now - engine.out_of_range_since@[symbol@] < (r.minutes_out + 1)
            * 60_000_000_000,
{
}

/// Trading rules that were looked up for a symbol are those that are found for it from then on,
/// and no other symbol's change.
pub proof fn law_looked_up_rules_are_kept(
    engine: &mut GridEngine,
    symbol: &str,
    rules: SymbolFilters,
    r: Result<SymbolFilters, EngineError>,
    later: &GridEngine,
    wanted: &str,
    found: Option<SymbolFilters>,
)
    requires
        call_ensures(
            GridEngine::store_filters,
            (engine, symbol, Ok::<SymbolFilters, BinanceError>(rules)),
            r,
        ),
        *later == *final(engine),
        call_ensures(GridEngine::symbol_filters, (later, wanted), found),
    ensures
        r == Ok::<SymbolFilters, EngineError>(rules),
        wanted@ == symbol@ ==> found == Some(rules),
        wanted@ != symbol@ ==> (found is Some <==> old(engine).filters@.contains_key(wanted@)) && (
        found matches Some(f) ==> f == old(engine).filters@[wanted@]),
        final(engine).out_of_range_since == old(engine).out_of_range_since,
{
}

} // verus!
