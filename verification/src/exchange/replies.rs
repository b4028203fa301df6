//! What is taken from replies.

use crate::decimal::{form_of, lemma_same_form, parsed_decimal, Decimal};
use crate::exchange::client::BinanceClient;
use crate::exchange::error::BinanceError;
use crate::exchange::types::{ExchangeInfo, FilterInfo, SpotBalance, SymbolFilters, SymbolInfo};
use crate::names::lemma_all_kept;
use crate::text::{eq_ignore_ascii_case, same_but_case, same_text};
use vstd::prelude::*;

verus! {

/// Cancelling every order of a symbol also succeeds when there is none (-2011): then
/// what was wanted is the case.
pub fn cancel_all_outcome(outcome: Result<(), BinanceError>) -> (r: Result<(), BinanceError>)
    ensures
        match r {
            Ok(()) => outcome is Ok || (outcome matches Err(BinanceError::Api { code, .. }) && code
                == -2011),
            Err(e) => outcome == Err::<(), BinanceError>(e) && !(e matches BinanceError::Api {
                code,
                ..
            } && code == -2011),
        },
{
    match outcome {
        Ok(()) => Ok(()),
        Err(e) => if e.has_code(-2011) {
            Ok(())
        } else {
            Err(e)
        },
    }
}

/// The closing price in a row of past prices, as it is written: the fifth cell, which is
/// text.
pub open spec fn close_in(row: Seq<Option<String>>) -> Option<(i128, u32)> {
    if row.len() > 4 && row[4] is Some {
        parsed_decimal(row[4]->0@)
    } else {
        None
    }
}

/// The closing prices in the rows of past prices, if each row has one. A row is given by
/// the text of its cells.
pub fn closing_prices(table: &Vec<Vec<Option<String>>>) -> (r: Result<Vec<Decimal>, BinanceError>)
    ensures
        match r {
            Ok(closes) => closes.len() == table.len() && forall|i: int|
                0 <= i < table.len() ==> close_in(#[trigger] table@[i]@) == Some(closes@[i].form()),
            Err(e) => (exists|i: int|
                0 <= i < table.len() && close_in(#[trigger] table@[i]@) is None) && (e matches
                BinanceError::Parse(reason) && reason@ == "K线 close 字段缺失或非法"@),
        },
{
    let mut closes: Vec<Decimal> = Vec::new();
    let mut i: usize = 0;
    while i < table.len()
        invariant
            i <= table.len(),
            closes.len() == i,
            forall|j: int|
                0 <= j < i ==> close_in(#[trigger] table@[j]@) == Some(closes@[j].form()),
        decreases table.len() - i,
    {
        let row = &table[i];
        let mut close: Option<Decimal> = None;
        if row.len() > 4 {
            if let Some(text) = &row[4] {
                close = Decimal::parse(text.as_str());
            }
        }
        match close {
            Some(d) => {
                closes.push(d);
            },
            None => {
                assert(close_in(table@[i as int]@) is None);
                return Err(BinanceError::Parse("K线 close 字段缺失或非法".to_owned()));
            },
        }
        i = i + 1;
    }
    Ok(closes)
}

/// The text of a field of a trading rule: that of the first field with the name.
pub open spec fn field_text(fields: Seq<(String, Option<String>)>, key: Seq<char>) -> Option<
    Seq<char>,
>
    decreases fields.len(),
{
    if fields.len() == 0 {
        None
    } else if fields[0].0@ == key {
        match fields[0].1 {
            Some(text) => Some(text@),
            None => None,
        }
    } else {
        field_text(fields.skip(1), key)
    }
}

/// The number in a field of the first trading rule of a type, as it is written.
pub open spec fn rule_number(filters: Seq<FilterInfo>, rule: Seq<char>, key: Seq<char>) -> Option<
    (i128, u32),
>
    decreases filters.len(),
{
    if filters.len() == 0 {
        None
    } else if field_text(filters[0].fields@, "filterType"@) == Some(rule) {
        match field_text(filters[0].fields@, key) {
            Some(text) => parsed_decimal(text),
            None => None,
        }
    } else {
        rule_number(filters.skip(1), rule, key)
    }
}

/// A number, or zero, which demands nothing.
pub open spec fn or_zero(number: Option<(i128, u32)>) -> (i128, u32) {
    match number {
        Some(form) => form,
        None => (0, 0),
    }
}

/// What the trading rules of a symbol demand. Where a rule is missing nothing is
/// demanded; the smallest value of an order may stand in a rule of the old name.
pub open spec fn demanded(filters: Seq<FilterInfo>, r: SymbolFilters) -> bool {
    &&& r.step_size.form() == or_zero(rule_number(filters, "LOT_SIZE"@, "stepSize"@))
    &&& r.min_qty.form() == or_zero(rule_number(filters, "LOT_SIZE"@, "minQty"@))
    &&& r.tick_size.form() == or_zero(rule_number(filters, "PRICE_FILTER"@, "tickSize"@))
    &&& r.min_notional.form() == match rule_number(filters, "NOTIONAL"@, "minNotional"@) {
        Some(form) => form,
        None => or_zero(rule_number(filters, "MIN_NOTIONAL"@, "minNotional"@)),
    }
}

/// The text of a field of a trading rule.
fn field_of<'a>(rule: &'a FilterInfo, key: &str) -> (r: Option<&'a String>)
    ensures
        field_text(rule.fields@, key@) == match r {
            Some(text) => Some(text@),
            None => None,
        },
{
    let mut i: usize = 0;
    assert(rule.fields@.skip(0) =~= rule.fields@);
    while i < rule.fields.len()
        invariant
            i <= rule.fields.len(),
            field_text(rule.fields@, key@) == field_text(rule.fields@.skip(i as int), key@),
        decreases rule.fields.len() - i,
    {
        if same_text(rule.fields[i].0.as_str(), key) {
            return rule.fields[i].1.as_ref();
        }
        assert(rule.fields@.skip(i as int).skip(1) =~= rule.fields@.skip(i + 1));
        i = i + 1;
    }
    None
}

/// The number in a field of the first trading rule of a type.
fn pick(filters: &Vec<FilterInfo>, rule: &str, key: &str) -> (r: Option<Decimal>)
    ensures
        rule_number(filters@, rule@, key@) == form_of(r),
{
    let mut i: usize = 0;
    assert(filters@.skip(0) =~= filters@);
    while i < filters.len()
        invariant
            i <= filters.len(),
            rule_number(filters@, rule@, key@) == rule_number(filters@.skip(i as int), rule@, key@),
        decreases filters.len() - i,
    {
        let found = match field_of(&filters[i], "filterType") {
            Some(name) => same_text(name.as_str(), rule),
            None => false,
        };
        if found {
            return match field_of(&filters[i], key) {
                Some(text) => Decimal::parse(text.as_str()),
                None => None,
            };
        }
        assert(filters@.skip(i as int).skip(1) =~= filters@.skip(i + 1));
        i = i + 1;
    }
    None
}

/// A number, or zero.
fn unwrap_or_zero(number: Option<Decimal>) -> (r: Decimal)
    ensures
        r.form() == or_zero(form_of(number)),
        number matches Some(d) ==> r == d,
{
    match number {
        Some(d) => d,
        None => Decimal::zero(),
    }
}

/// What the exchange demands of orders for a symbol, by the first entry that has the
/// symbol's name, in large or small letters.
pub fn symbol_filters(info: &ExchangeInfo, symbol: &str) -> (r: Result<SymbolFilters, BinanceError>)
    ensures
        match r {
            Ok(filters) => exists|i: int|
                0 <= i < info.symbols.len() && same_but_case(
                    (#[trigger] info.symbols@[i]).symbol@,
                    symbol@,
                ) && demanded(info.symbols@[i].filters@, filters) && forall|j: int|
                    0 <= j < i ==> !same_but_case(
                        (#[trigger] info.symbols@[j]).symbol@,
                        symbol@,
                    ),
            Err(e) => (forall|i: int|
                0 <= i < info.symbols.len() ==> !same_but_case(
                    (#[trigger] info.symbols@[i]).symbol@,
                    symbol@,
                )) && (e matches BinanceError::Parse(reason) && reason@ == "exchangeInfo 未返回 "@
                + symbol@),
        },
{
    let mut i: usize = 0;
    while i < info.symbols.len()
        invariant
            i <= info.symbols.len(),
            forall|j: int|
                0 <= j < i ==> !same_but_case((#[trigger] info.symbols@[j]).symbol@, symbol@),
        decreases info.symbols.len() - i,
    {
        let entry: &SymbolInfo = &info.symbols[i];
        if eq_ignore_ascii_case(entry.symbol.as_str(), symbol) {
            let min_notional = match pick(&entry.filters, "NOTIONAL", "minNotional") {
                Some(d) => Some(d),
                None => pick(&entry.filters, "MIN_NOTIONAL", "minNotional"),
            };
            let filters = SymbolFilters {
                step_size: unwrap_or_zero(pick(&entry.filters, "LOT_SIZE", "stepSize")),
                min_qty: unwrap_or_zero(pick(&entry.filters, "LOT_SIZE", "minQty")),
                tick_size: unwrap_or_zero(pick(&entry.filters, "PRICE_FILTER", "tickSize")),
                min_notional: unwrap_or_zero(min_notional),
            };
            assert(demanded(info.symbols@[i as int].filters@, filters));
            return Ok(filters);
        }
        i = i + 1;
    }
    let mut reason = "exchangeInfo 未返回 ".to_owned();
    reason.append(symbol);
    Err(BinanceError::Parse(reason))
}

/// The balances of which something is free, in their order.
pub open spec fn held(balances: Seq<SpotBalance>) -> Seq<SpotBalance> {
    balances.filter(|b: SpotBalance| b.free@ > 0)
}

/// The balances of which something is free, in their order.
pub fn spot_balances(balances: Vec<SpotBalance>) -> (r: Vec<SpotBalance>)
    ensures
        r@ == held(balances@),
{
    let ghost keep = |b: SpotBalance| b.free@ > 0;
    let mut r: Vec<SpotBalance> = Vec::new();
    let mut i: usize = 0;
    let zero = Decimal::zero();
    while i < balances.len()
        invariant
            i <= balances.len(),
            zero@ == 0,
            keep == (|b: SpotBalance| b.free@ > 0),
            r@ == balances@.take(i as int).filter(keep),
        decreases balances.len() - i,
    {
        proof {
            reveal(Seq::filter);
            assert(balances@.take(i + 1).drop_last() =~= balances@.take(i as int));
        }
        if balances[i].free > zero {
            r.push(balances[i].clone());
        }
        i = i + 1;
    }
    assert(balances@.take(i as int) =~= balances@);
    r
}

/// What is free of an asset: by the first balance with its name, in large or small
/// letters; nothing if there is none.
pub open spec fn free_in(balances: Seq<SpotBalance>, asset: Seq<char>) -> Option<Decimal>
    decreases balances.len(),
{
    if balances.len() == 0 {
        None
    } else if same_but_case(balances[0].asset@, asset) {
        Some(balances[0].free)
    } else {
        free_in(balances.skip(1), asset)
    }
}

/// Whether this is what is free of an asset, nought if there is no balance with its name.
pub open spec fn is_free(balances: Seq<SpotBalance>, asset: Seq<char>, r: Decimal) -> bool {
    match free_in(balances, asset) {
        Some(free) => r == free,
        None => r@ == 0 && r.form() == (0i128, 0u32),
    }
}

/// What is free of an asset.
pub fn free_of(balances: &Vec<SpotBalance>, asset: &str) -> (r: Decimal)
    ensures
        is_free(balances@, asset@, r),
{
    let mut i: usize = 0;
    assert(balances@.skip(0) =~= balances@);
    while i < balances.len()
        invariant
            i <= balances.len(),
            free_in(balances@, asset@) == free_in(balances@.skip(i as int), asset@),
        decreases balances.len() - i,
    {
        if eq_ignore_ascii_case(balances[i].asset.as_str(), asset) {
            return balances[i].free;
        }
        assert(balances@.skip(i as int).skip(1) =~= balances@.skip(i + 1));
        i = i + 1;
    }
    Decimal::zero()
}

impl BinanceClient {
    /// What is free of an asset, by what the account holds.
    pub fn get_asset_free(&self, balances: Vec<SpotBalance>, asset: &str) -> (r: Decimal)
        ensures
            is_free(held(balances@), asset@, r),
    {
        free_of(&spot_balances(balances), asset)
    }

    /// What is free of two assets, by what the account holds at one moment.
    pub fn get_asset_free_pair(&self, balances: Vec<SpotBalance>, base: &str, quote: &str) -> (r: (
        Decimal,
        Decimal,
    ))
        ensures
            is_free(held(balances@), base@, r.0),
            is_free(held(balances@), quote@, r.1),
    {
        let balances = spot_balances(balances);
        (free_of(&balances, base), free_of(&balances, quote))
    }
}

/// Cancelling every order of a symbol succeeds if it did, or if there was none to cancel; every
/// other failure is handed on as it is.
pub proof fn law_nothing_to_cancel_is_no_failure(
    outcome: Result<(), BinanceError>,
    r: Result<(), BinanceError>,
)
    requires
        call_ensures(cancel_all_outcome, (outcome,), r),
    ensures
        outcome is Ok ==> r is Ok,
        outcome matches Err(BinanceError::Api { code, .. }) ==> (r is Ok <==> code == -2011),
        !(outcome is Ok) && !(outcome matches Err(BinanceError::Api { .. })) ==> r is Err,
        r is Err ==> r == outcome,
{
}

/// The closing prices are what the fifth cells say, one for each row and in their order.
pub proof fn law_closing_prices_are_the_fifth_cells(
    table: &Vec<Vec<Option<String>>>,
    closes: Vec<Decimal>,
    i: int,
)
    requires
        call_ensures(closing_prices, (table,), Ok::<Vec<Decimal>, BinanceError>(closes)),
        0 <= i < table.len(),
    ensures
        closes.len() == table.len(),
        table@[i].len() >= 5,
        table@[i]@[4] matches Some(text) && parsed_decimal(text@) == Some(
            (closes@[i].coefficient(), closes@[i].places()),
        ),
{
    assert(close_in(table@[i]@) == Some(closes@[i].form()));
}

/// The balances of which something is free are kept, all of them and no others.
pub proof fn law_only_free_balances_are_kept(
    balances: Vec<SpotBalance>,
    r: Vec<SpotBalance>,
    i: int,
)
    requires
        call_ensures(spot_balances, (balances,), r),
    ensures
        0 <= i < balances.len() && balances@[i].free@ > 0 ==> r@.contains(balances@[i]),
        0 <= i < r.len() ==> r@[i].free@ > 0 && balances@.contains(r@[i]),
{
    let keep = |b: SpotBalance| b.free@ > 0;
    if 0 <= i < balances.len() && balances@[i].free@ > 0 {
        assert(keep(balances@[i]));
        balances@.lemma_filter_contains(keep, i);
    }
    if 0 <= i < r.len() {
        balances@.lemma_filter_pred(keep, i);
        balances@.lemma_filter_contains_rev(keep, r@[i]);
    }
}

proof fn lemma_free_in(balances: Seq<SpotBalance>, asset: Seq<char>, i: int)
    requires
        0 <= i < balances.len(),
        same_but_case(balances[i].asset@, asset),
        forall|j: int| 0 <= j < i ==> !same_but_case((#[trigger] balances[j]).asset@, asset),
    ensures
        free_in(balances, asset) == Some(balances[i].free),
    decreases i,
{
    if i > 0 {
        assert(!same_but_case(balances[0].asset@, asset));
        let rest = balances.skip(1);
        assert forall|j: int| 0 <= j < i - 1 implies !same_but_case(
            (#[trigger] rest[j]).asset@,
            asset,
        ) by {
            assert(rest[j] == balances[j + 1]);
        }
        lemma_free_in(rest, asset, i - 1);
    }
}

proof fn lemma_free_in_none(balances: Seq<SpotBalance>, asset: Seq<char>)
    requires
        forall|j: int|
            0 <= j < balances.len() ==> !same_but_case((#[trigger] balances[j]).asset@, asset),
    ensures
        free_in(balances, asset) is None,
    decreases balances.len(),
{
    if balances.len() > 0 {
        assert(!same_but_case(balances[0].asset@, asset));
        let rest = balances.skip(1);
        assert forall|j: int| 0 <= j < rest.len() implies !same_but_case(
            (#[trigger] rest[j]).asset@,
            asset,
        ) by {
            assert(rest[j] == balances[j + 1]);
        }
        lemma_free_in_none(rest, asset);
    }
}

/// What is free of an asset is what the first balance with its name says, in large or small
/// letters, and never what is locked; nought if no balance has the name.
pub proof fn law_what_is_free_of_an_asset(
    balances: &Vec<SpotBalance>,
    asset: &str,
    r: Decimal,
    i: int,
)
    requires
        call_ensures(free_of, (balances, asset), r),
    ensures
        0 <= i < balances.len() && same_but_case(balances@[i].asset@, asset@) && (forall|j: int|
            0 <= j < i ==> !same_but_case((#[trigger] balances@[j]).asset@, asset@)) ==> r
            == balances@[i].free,
        (forall|j: int|
            0 <= j < balances.len() ==> !same_but_case((#[trigger] balances@[j]).asset@, asset@))
            ==> r@ == 0,
{
    if 0 <= i < balances.len() && same_but_case(balances@[i].asset@, asset@) && (forall|j: int|
        0 <= j < i ==> !same_but_case((#[trigger] balances@[j]).asset@, asset@)) {
        lemma_free_in(balances@, asset@, i);
    }
    if forall|j: int|
        0 <= j < balances.len() ==> !same_but_case((#[trigger] balances@[j]).asset@, asset@) {
        lemma_free_in_none(balances@, asset@);
    }
}

/// Whether a field stands first under its name in a trading rule, with this text.
pub open spec fn says(rule: FilterInfo, key: Seq<char>, text: Seq<char>) -> bool {
    exists|k: int| #[trigger] says_at(rule, key, text, k)
}

/// Whether a field at a place is the first under its name, with this text.
pub open spec fn says_at(rule: FilterInfo, key: Seq<char>, text: Seq<char>, k: int) -> bool {
    &&& 0 <= k < rule.fields.len()
    &&& rule.fields@[k].0@ == key
    &&& rule.fields@[k].1 matches Some(t) && t@ == text
    &&& forall|j: int| 0 <= j < k ==> (#[trigger] rule.fields@[j]).0@ != key
}

/// Whether a trading rule is of another type.
pub open spec fn is_another(info: FilterInfo, rule: Seq<char>) -> bool {
    exists|other: Seq<char>| other != rule && #[trigger] says(info, "filterType"@, other)
}

proof fn lemma_field_text(fields: Seq<(String, Option<String>)>, key: Seq<char>, k: int)
    requires
        0 <= k < fields.len(),
        fields[k].0@ == key,
        forall|j: int| 0 <= j < k ==> (#[trigger] fields[j]).0@ != key,
    ensures
        field_text(fields, key) == match fields[k].1 {
            Some(t) => Some(t@),
            None => None,
        },
    decreases k,
{
    if k > 0 {
        assert(fields[0].0@ != key);
        let rest = fields.skip(1);
        assert forall|j: int| 0 <= j < k - 1 implies (#[trigger] rest[j]).0@ != key by {
            assert(rest[j] == fields[j + 1]);
        }
        lemma_field_text(rest, key, k - 1);
    }
}

proof fn lemma_rule_number(
    filters: Seq<FilterInfo>,
    rule: Seq<char>,
    key: Seq<char>,
    text: Seq<char>,
    n: int,
)
    requires
        0 <= n < filters.len(),
        says(filters[n], "filterType"@, rule),
        says(filters[n], key, text),
        forall|m: int| 0 <= m < n ==> is_another(#[trigger] filters[m], rule),
    ensures
        rule_number(filters, rule, key) == parsed_decimal(text),
    decreases n,
{
    if n > 0 {
        assert(is_another(filters[0], rule));
        let other = choose|other: Seq<char>|
            other != rule && #[trigger] says(filters[0], "filterType"@, other);
        let k = choose|k: int| #[trigger] says_at(filters[0], "filterType"@, other, k);
        lemma_field_text(filters[0].fields@, "filterType"@, k);
        let rest = filters.skip(1);
        assert forall|m: int| 0 <= m < n - 1 implies is_another(#[trigger] rest[m], rule) by {
            assert(rest[m] == filters[m + 1]);
        }
        assert(rest[n - 1] == filters[n]);
        lemma_rule_number(rest, rule, key, text, n - 1);
    } else {
        let k = choose|k: int| #[trigger] says_at(filters[0], "filterType"@, rule, k);
        lemma_field_text(filters[0].fields@, "filterType"@, k);
        let l = choose|l: int| #[trigger] says_at(filters[0], key, text, l);
        lemma_field_text(filters[0].fields@, key, l);
    }
}

/// Whether the first trading rule of a type has a field with this text.
pub open spec fn demands(
    filters: Seq<FilterInfo>,
    rule: Seq<char>,
    key: Seq<char>,
    text: Seq<char>,
    n: int,
) -> bool {
    &&& 0 <= n < filters.len()
    &&& says(filters[n], "filterType"@, rule)
    &&& says(filters[n], key, text)
    &&& forall|m: int| 0 <= m < n ==> is_another(#[trigger] filters[m], rule)
}

/// The step and the smallest quantity are what the rule LOT_SIZE says, the tick is what
/// PRICE_FILTER says, and the smallest value of an order what NOTIONAL says: the number in the
/// text of the field, for the symbol that was asked for.
pub proof fn law_trading_rules_are_what_the_exchange_says(
    info: &ExchangeInfo,
    symbol: &str,
    rules: SymbolFilters,
    entry: int,
    n: int,
    text: Seq<char>,
)
    requires
        call_ensures(symbol_filters, (info, symbol), Ok::<SymbolFilters, BinanceError>(rules)),
        0 <= entry < info.symbols.len(),
        same_but_case(info.symbols@[entry].symbol@, symbol@),
        forall|j: int|
            0 <= j < entry ==> !same_but_case((#[trigger] info.symbols@[j]).symbol@, symbol@),
        parsed_decimal(text) is Some,
    ensures
        ({
            let filters = info.symbols@[entry].filters@;
            let form = parsed_decimal(text)->0;
            &&& demands(filters, "LOT_SIZE"@, "stepSize"@, text, n) ==> rules.step_size.form()
                == form
            &&& demands(filters, "LOT_SIZE"@, "minQty"@, text, n) ==> rules.min_qty.form() == form
            &&& demands(filters, "PRICE_FILTER"@, "tickSize"@, text, n) ==> rules.tick_size.form()
                == form
            &&& demands(filters, "NOTIONAL"@, "minNotional"@, text, n) ==> rules.min_notional.form()
                == form
        }),
{
    let i = choose|i: int|
        0 <= i < info.symbols.len() && same_but_case(
            (#[trigger] info.symbols@[i]).symbol@,
            symbol@,
        ) && demanded(info.symbols@[i].filters@, rules) && forall|j: int|
            0 <= j < i ==> !same_but_case((#[trigger] info.symbols@[j]).symbol@, symbol@);
    if i < entry {
        assert(!same_but_case(info.symbols@[i].symbol@, symbol@));
    }
    if entry < i {
        assert(!same_but_case(info.symbols@[entry].symbol@, symbol@));
    }
    let filters = info.symbols@[entry].filters@;
    if demands(filters, "LOT_SIZE"@, "stepSize"@, text, n) {
        lemma_rule_number(filters, "LOT_SIZE"@, "stepSize"@, text, n);
    }
    if demands(filters, "LOT_SIZE"@, "minQty"@, text, n) {
        lemma_rule_number(filters, "LOT_SIZE"@, "minQty"@, text, n);
    }
    if demands(filters, "PRICE_FILTER"@, "tickSize"@, text, n) {
        lemma_rule_number(filters, "PRICE_FILTER"@, "tickSize"@, text, n);
    }
    if demands(filters, "NOTIONAL"@, "minNotional"@, text, n) {
        lemma_rule_number(filters, "NOTIONAL"@, "minNotional"@, text, n);
    }
}

proof fn lemma_no_rule(filters: Seq<FilterInfo>, rule: Seq<char>, key: Seq<char>)
    requires
        forall|m: int| 0 <= m < filters.len() ==> is_another(#[trigger] filters[m], rule),
    ensures
        rule_number(filters, rule, key) is None,
    decreases filters.len(),
{
    if filters.len() > 0 {
        assert(is_another(filters[0], rule));
        let other = choose|other: Seq<char>|
            other != rule && #[trigger] says(filters[0], "filterType"@, other);
        let k = choose|k: int| #[trigger] says_at(filters[0], "filterType"@, other, k);
        lemma_field_text(filters[0].fields@, "filterType"@, k);
        let rest = filters.skip(1);
        assert forall|m: int| 0 <= m < rest.len() implies is_another(#[trigger] rest[m], rule) by {
            assert(rest[m] == filters[m + 1]);
        }
        lemma_no_rule(rest, rule, key);
    }
}

/// Where a trading rule is missing nothing is demanded; but where NOTIONAL is missing the
/// smallest value of an order is what MIN_NOTIONAL says.
pub proof fn law_missing_rules_demand_nothing(
    info: &ExchangeInfo,
    symbol: &str,
    rules: SymbolFilters,
    n: int,
    text: Seq<char>,
)
    requires
        call_ensures(symbol_filters, (info, symbol), Ok::<SymbolFilters, BinanceError>(rules)),
        info.symbols.len() == 1,
        parsed_decimal(text) is Some,
    ensures
        ({
            let filters = info.symbols@[0].filters@;
            let lacks = |rule: Seq<char>|
                forall|m: int| 0 <= m < filters.len() ==> is_another(#[trigger] filters[m], rule);
            &&& same_but_case(info.symbols@[0].symbol@, symbol@)
            &&& lacks("LOT_SIZE"@) ==> rules.step_size.form() == (0i128, 0u32)
                && rules.min_qty.form() == (0i128, 0u32)
            &&& lacks("PRICE_FILTER"@) ==> rules.tick_size.form() == (0i128, 0u32)
            &&& lacks("NOTIONAL"@) && lacks("MIN_NOTIONAL"@) ==> rules.min_notional.form() == (
                0i128,
                0u32,
            )
            &&& lacks("NOTIONAL"@) && demands(filters, "MIN_NOTIONAL"@, "minNotional"@, text, n)
                ==> rules.min_notional.form() == parsed_decimal(text)->0
        }),
{
    let i = choose|i: int|
        0 <= i < info.symbols.len() && same_but_case(
            (#[trigger] info.symbols@[i]).symbol@,
            symbol@,
        ) && demanded(info.symbols@[i].filters@, rules);
    let filters = info.symbols@[0].filters@;
    let lacks = |rule: Seq<char>|
        forall|m: int| 0 <= m < filters.len() ==> is_another(#[trigger] filters[m], rule);
    if lacks("LOT_SIZE"@) {
        lemma_no_rule(filters, "LOT_SIZE"@, "stepSize"@);
        lemma_no_rule(filters, "LOT_SIZE"@, "minQty"@);
    }
    if lacks("PRICE_FILTER"@) {
        lemma_no_rule(filters, "PRICE_FILTER"@, "tickSize"@);
    }
    if lacks("NOTIONAL"@) {
        lemma_no_rule(filters, "NOTIONAL"@, "minNotional"@);
    }
    if lacks("MIN_NOTIONAL"@) {
        lemma_no_rule(filters, "MIN_NOTIONAL"@, "minNotional"@);
    }
    if demands(filters, "MIN_NOTIONAL"@, "minNotional"@, text, n) {
        lemma_rule_number(filters, "MIN_NOTIONAL"@, "minNotional"@, text, n);
    }
}

proof fn lemma_held_front(balances: Seq<SpotBalance>)
    requires
        balances.len() > 0,
    ensures
        held(balances) == if balances[0].free@ > 0 {
            seq![balances[0]] + held(balances.skip(1))
        } else {
            held(balances.skip(1))
        },
{
    let keep = |b: SpotBalance| b.free@ > 0;
    let first = seq![balances[0]];
    let rest = balances.skip(1);
    assert(balances =~= first + rest);
    Seq::filter_distributes_over_add(first, rest, keep);
    reveal(Seq::filter);
    let none = Seq::<SpotBalance>::empty();
    assert(first.drop_last() =~= none);
    assert(none.filter(keep) =~= none);
    assert(first.filter(keep) =~= if keep(balances[0]) {
        first
    } else {
        none
    });
    assert(none + rest.filter(keep) =~= rest.filter(keep));
}

proof fn lemma_free_in_held(balances: Seq<SpotBalance>, asset: Seq<char>, i: int)
    requires
        0 <= i < balances.len(),
        balances[i].free@ > 0,
        same_but_case(balances[i].asset@, asset),
        forall|j: int|
            0 <= j < i ==> (#[trigger] balances[j]).free@ <= 0 || !same_but_case(
                balances[j].asset@,
                asset,
            ),
    ensures
        free_in(held(balances), asset) == Some(balances[i].free),
    decreases i,
{
    lemma_held_front(balances);
    let rest = balances.skip(1);
    if i > 0 {
        assert forall|j: int| 0 <= j < i - 1 implies (#[trigger] rest[j]).free@ <= 0
            || !same_but_case(rest[j].asset@, asset) by {
            assert(rest[j] == balances[j + 1]);
        }
        lemma_free_in_held(rest, asset, i - 1);
        if balances[0].free@ > 0 {
            assert(!same_but_case(balances[0].asset@, asset));
            let all = seq![balances[0]] + held(rest);
            assert(all.skip(1) =~= held(rest));
            assert(all[0] == balances[0]);
        }
    } else {
        let all = seq![balances[0]] + held(rest);
        assert(all[0] == balances[0]);
    }
}

/// What is free of an asset of the account is what the first balance with its name says of which
/// something is free; for two assets it is what it is for each, the first one first.
pub proof fn law_what_the_account_has_free(
    client: &BinanceClient,
    balances: Vec<SpotBalance>,
    base: &str,
    quote: &str,
    r: Decimal,
    pair: (Decimal, Decimal),
    other: Decimal,
    i: int,
)
    requires
        call_ensures(BinanceClient::get_asset_free, (client, balances, base), r),
        call_ensures(BinanceClient::get_asset_free, (client, balances, quote), other),
        call_ensures(BinanceClient::get_asset_free_pair, (client, balances, base, quote), pair),
    ensures
        0 <= i < balances.len() && balances@[i].free@ > 0 && same_but_case(
            balances@[i].asset@,
            base@,
        ) && (forall|j: int|
            0 <= j < i ==> (#[trigger] balances@[j]).free@ <= 0 || !same_but_case(
                balances@[j].asset@,
                base@,
            )) ==> r == balances@[i].free,
        pair == (r, other),
{
    if 0 <= i < balances.len() && balances@[i].free@ > 0 && same_but_case(
        balances@[i].asset@,
        base@,
    ) && (forall|j: int|
        0 <= j < i ==> (#[trigger] balances@[j]).free@ <= 0 || !same_but_case(
            balances@[j].asset@,
            base@,
        )) {
        lemma_free_in_held(balances@, base@, i);
    }
    if free_in(held(balances@), base@) is None {
        lemma_same_form(pair.0, r);
    }
    if free_in(held(balances@), quote@) is None {
        lemma_same_form(pair.1, other);
    }
}

/// Balances stay in their order: if something is free of all of them nothing changes.
pub proof fn law_balances_stay_in_order(balances: Vec<SpotBalance>, r: Vec<SpotBalance>)
    requires
        call_ensures(spot_balances, (balances,), r),
        forall|i: int| 0 <= i < balances.len() ==> (#[trigger] balances@[i]).free@ > 0,
    ensures
        r@ == balances@,
{
    lemma_all_kept(balances@, |b: SpotBalance| b.free@ > 0);
}

} // verus!
