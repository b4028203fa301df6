//! Symbols: the names of two assets, one behind the other.

use crate::text::strip_suffix;
use vstd::prelude::*;

verus! {

/// The quote assets, the longer names first, so that a symbol that ends with BUSD is not
/// read as one against USD.
pub open spec fn quotes() -> Seq<Seq<char>> {
    seq!["USDT"@, "BUSD"@, "USDC"@, "BTC"@, "ETH"@, "BNB"@, "USD"@]
}

/// Whether a symbol is a base asset, with a name, before this quote asset.
pub open spec fn quoted_in(symbol: Seq<char>, quote: Seq<char>) -> bool {
    exists|base: Seq<char>| base.len() > 0 && symbol == base + quote
}

/// Whether these are the assets of a symbol: the first quote asset in the list that it ends
/// with, and what stands before it.
pub open spec fn assets_of(symbol: Seq<char>, base: Seq<char>, quote: Seq<char>) -> bool {
    &&& symbol == base + quote
    &&& base.len() > 0
    &&& exists|i: int|
        0 <= i < quotes().len() && #[trigger] quotes()[i] == quote && forall|j: int|
            0 <= j < i ==> !quoted_in(symbol, #[trigger] quotes()[j])
}

/// Whether the assets of a symbol are known.
pub open spec fn has_assets(symbol: Seq<char>) -> bool {
    exists|i: int| 0 <= i < quotes().len() && quoted_in(symbol, #[trigger] quotes()[i])
}

/// Tries one quote asset.
fn base_before<'a>(symbol: &'a str, quote: &str) -> (r: Option<&'a str>)
    ensures
        match r {
            Some(base) => base@.len() > 0 && symbol@ == base@ + quote@,
            None => !quoted_in(symbol@, quote@),
        },
{
    match strip_suffix(symbol, quote) {
        Some(base) => if base.unicode_len() > 0 {
            Some(base)
        } else {
            proof {
                if quoted_in(symbol@, quote@) {
                    let other = choose|b: Seq<char>| b.len() > 0 && symbol@ == b + quote@;
                    assert(symbol@.len() == other.len() + quote@.len());
                    assert(symbol@.len() == base@.len() + quote@.len());
                }
            }
            None
        },
        None => {
            proof {
                if quoted_in(symbol@, quote@) {
                    let other = choose|b: Seq<char>| b.len() > 0 && symbol@ == b + quote@;
                    assert(symbol@ == other + quote@);
                }
            }
            None
        },
    }
}

/// The base and the quote asset of a symbol: the first quote asset in the list that it
/// ends with, and what stands before it. Nothing if there is none.
pub fn split_symbol<'a>(symbol: &'a str) -> (r: Option<(&'a str, &'static str)>)
    ensures
        match r {
            Some((base, quote)) => has_assets(symbol@) && assets_of(symbol@, base@, quote@),
            None => !has_assets(symbol@),
        },
{
    if let Some(base) = base_before(symbol, "USDT") {
        assert(quotes()[0] == "USDT"@ && quoted_in(symbol@, quotes()[0]));
        return Some((base, "USDT"));
    }
    if let Some(base) = base_before(symbol, "BUSD") {
        assert(quotes()[1] == "BUSD"@ && quoted_in(symbol@, quotes()[1]));
        return Some((base, "BUSD"));
    }
    if let Some(base) = base_before(symbol, "USDC") {
        assert(quotes()[2] == "USDC"@ && quoted_in(symbol@, quotes()[2]));
        return Some((base, "USDC"));
    }
    if let Some(base) = base_before(symbol, "BTC") {
        assert(quotes()[3] == "BTC"@ && quoted_in(symbol@, quotes()[3]));
        return Some((base, "BTC"));
    }
    if let Some(base) = base_before(symbol, "ETH") {
        assert(quotes()[4] == "ETH"@ && quoted_in(symbol@, quotes()[4]));
        return Some((base, "ETH"));
    }
    if let Some(base) = base_before(symbol, "BNB") {
        assert(quotes()[5] == "BNB"@ && quoted_in(symbol@, quotes()[5]));
        return Some((base, "BNB"));
    }
    if let Some(base) = base_before(symbol, "USD") {
        assert(quotes()[6] == "USD"@ && quoted_in(symbol@, quotes()[6]));
        return Some((base, "USD"));
    }
    None
}

/// Cutting a piece of text behind so many characters gives back what was put before the rest.
proof fn lemma_split(front: Seq<char>, end: Seq<char>)
    ensures
        (front + end).take(front.len() as int) == front,
        (front + end).skip(front.len() as int) == end,
{
    assert((front + end).take(front.len() as int) =~= front);
    assert((front + end).skip(front.len() as int) =~= end);
}

/// What a symbol ends with, by its last characters.
proof fn lemma_last(symbol: Seq<char>, base: Seq<char>, quote: Seq<char>)
    requires
        symbol == base + quote,
        quote.len() >= 1,
    ensures
        symbol.len() == base.len() + quote.len(),
        forall|i: int| 1 <= i <= quote.len() ==> #[trigger] symbol[symbol.len() - i] == quote[
        quote.len() - i],
{
}

proof fn lemma_quotes()
    ensures
        quotes().len() == 7,
        quotes()[0] == seq!['U', 'S', 'D', 'T'],
        quotes()[1] == seq!['B', 'U', 'S', 'D'],
        quotes()[2] == seq!['U', 'S', 'D', 'C'],
        quotes()[3] == seq!['B', 'T', 'C'],
        quotes()[4] == seq!['E', 'T', 'H'],
        quotes()[5] == seq!['B', 'N', 'B'],
        quotes()[6] == seq!['U', 'S', 'D'],
{
    reveal_strlit("USDT");
    reveal_strlit("BUSD");
    reveal_strlit("USDC");
    reveal_strlit("BTC");
    reveal_strlit("ETH");
    reveal_strlit("BNB");
    reveal_strlit("USD");
    assert("USDT"@ =~= seq!['U', 'S', 'D', 'T']);
    assert("BUSD"@ =~= seq!['B', 'U', 'S', 'D']);
    assert("USDC"@ =~= seq!['U', 'S', 'D', 'C']);
    assert("BTC"@ =~= seq!['B', 'T', 'C']);
    assert("ETH"@ =~= seq!['E', 'T', 'H']);
    assert("BNB"@ =~= seq!['B', 'N', 'B']);
    assert("USD"@ =~= seq!['U', 'S', 'D']);
}

/// A symbol that is a base asset, with a name, before one of the quote assets USDT, BUSD, USDC,
/// BTC, ETH or BNB is split there, whatever the name of the base asset is. One before USD is
/// split there unless it reads as one before BUSD.
pub proof fn law_symbols_are_split_before_the_quote_asset(
    symbol: &str,
    r: Option<(&str, &str)>,
    base: Seq<char>,
    quote: Seq<char>,
)
    requires
        call_ensures(split_symbol, (symbol,), r),
        symbol@ == base + quote,
        base.len() > 0,
        quote == "USDT"@ || quote == "BUSD"@ || quote == "USDC"@ || quote == "BTC"@ || quote
            == "ETH"@ || quote == "BNB"@ || (quote == "USD"@ && !(base.len() > 1 && base.last()
            == 'B')),
    ensures
        r matches Some((b, q)) && b@ == base && q@ == quote,
{
    lemma_quotes();
    let k = if quote == "USDT"@ {
        0int
    } else if quote == "BUSD"@ {
        1
    } else if quote == "USDC"@ {
        2
    } else if quote == "BTC"@ {
        3
    } else if quote == "ETH"@ {
        4
    } else if quote == "BNB"@ {
        5
    } else {
        6
    };
    assert(quotes()[k] == quote);
    assert(quoted_in(symbol@, quotes()[k]));
    assert(has_assets(symbol@));
    lemma_last(symbol@, base, quote);
    let (b, q) = r->0;
    let i = choose|i: int|
        0 <= i < quotes().len() && #[trigger] quotes()[i] == q@ && forall|j: int|
            0 <= j < i ==> !quoted_in(symbol@, #[trigger] quotes()[j]);
    lemma_last(symbol@, b@, q@);
    let n = symbol@.len() as int;
    assert(symbol@[n - 1] == quote[quote.len() - 1] && symbol@[n - 1] == q@[q@.len() - 1]);
    assert(symbol@[n - 2] == quote[quote.len() - 2] && symbol@[n - 2] == q@[q@.len() - 2]);
    assert(symbol@[n - 3] == quote[quote.len() - 3] && symbol@[n - 3] == q@[q@.len() - 3]);
    if k == 6 && i == 1 {
        assert(symbol@[n - 4] == q@[0]);
        assert(symbol@[n - 4] == base[base.len() - 1]);
    }
    if k == 1 && i == 6 {
        assert(!quoted_in(symbol@, quotes()[1]));
    }
    assert(i == k);
    lemma_split(base, quote);
    lemma_split(b@, q@);
}

} // verus!
