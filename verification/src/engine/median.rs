//! The median of past prices, by which grids are anchored. It moves less than the last
//! price does.

use crate::decimal::{
    form_of, law_quotient_exact, law_sum_exact, lemma_nearest_exact, lemma_nearest_order,
    lemma_nearest_within, lemma_pow10_positive, lemma_same_form, one, over, plus, quotient_of,
    representable, sum_of, Decimal, Overflow,
};
use vstd::multiset::Multiset;
use vstd::prelude::*;
use vstd::relations::{sorted_by, total_ordering};

verus! {

/// The order of numbers.
pub open spec fn not_above() -> spec_fn(int, int) -> bool {
    |a: int, b: int| a <= b
}

/// The values of some numbers.
pub open spec fn values(prices: Seq<Decimal>) -> Seq<int> {
    prices.map_values(|d: Decimal| d@)
}

/// The values in rising order.
pub open spec fn sorted_values(prices: Seq<Decimal>) -> Seq<int> {
    values(prices).sort_by(not_above())
}

/// The middle value of an odd number of prices, the mean of the two middle values of an
/// even number; `None` where the mean cannot be computed. There has to be a price.
pub open spec fn median_of(prices: Seq<Decimal>) -> Option<int> {
    let sorted = sorted_values(prices);
    let mid = (prices.len() / 2) as int;
    if prices.len() % 2 == 0 {
        match sum_of(sorted[mid - 1], sorted[mid]) {
            Some(sum) => quotient_of(sum, 2 * one(), false),
            None => None,
        }
    } else {
        Some(sorted[mid])
    }
}

/// Whether this names the prices in rising order, equal ones in the order in which they come.
pub open spec fn in_rising_order(prices: Seq<Decimal>, from: Seq<int>) -> bool {
    &&& from.len() == prices.len()
    &&& forall|k: int| 0 <= k < from.len() ==> 0 <= #[trigger] from[k] < prices.len()
    &&& forall|j: int, k: int|
        0 <= j < k < from.len() ==> comes_before(prices, #[trigger] from[j], #[trigger] from[k])
}

/// Whether one price comes before another in rising order.
pub open spec fn comes_before(prices: Seq<Decimal>, i: int, j: int) -> bool {
    prices[i]@ < prices[j]@ || (prices[i]@ == prices[j]@ && i < j)
}

/// The median, as it is written, of prices that are named in rising order.
pub open spec fn median_form(prices: Seq<Decimal>, from: Seq<int>) -> Option<(i128, u32)> {
    let mid = (prices.len() / 2) as int;
    if prices.len() % 2 == 0 {
        match plus(prices[from[mid - 1]].form(), prices[from[mid]].form()) {
            Some(sum) => over(sum, (2, 0)),
            None => None,
        }
    } else {
        Some(prices[from[mid]].form())
    }
}

/// Whether this is the median, if it can be computed.
pub open spec fn is_median(prices: Seq<Decimal>, r: Option<Decimal>) -> bool {
    &&& median_of(prices) == match r {
        Some(d) => Some(d@),
        None => None,
    }
    &&& exists|from: Seq<int>| #[trigger]
        in_rising_order(prices, from) && form_of(r) == median_form(prices, from)
}

/// Numbers in the order of their values, whatever the number of trailing zeros.
proof fn lemma_total()
    ensures
        total_ordering(not_above()),
{
}

/// The position of the first price that is above `price`, in sorted prices.
fn position(sorted: &Vec<Decimal>, price: Decimal) -> (r: usize)
    requires
        forall|i: int, j: int| 0 <= i < j < sorted.len() ==> sorted@[i]@ <= sorted@[j]@,
    ensures
        r <= sorted.len(),
        forall|i: int| 0 <= i < r ==> (#[trigger] sorted@[i])@ <= price@,
        forall|i: int| r <= i < sorted.len() ==> (#[trigger] sorted@[i])@ > price@,
{
    let mut i: usize = 0;
    while i < sorted.len() && sorted[i] <= price
        invariant
            i <= sorted.len(),
            forall|j: int| 0 <= j < i ==> (#[trigger] sorted@[j])@ <= price@,
        decreases sorted.len() - i,
    {
        i = i + 1;
    }
    i
}

/// The prices in rising order.
fn sort(prices: &Vec<Decimal>) -> (r: (Vec<Decimal>, Ghost<Seq<int>>))
    ensures
        r.0.len() == prices.len(),
        values(r.0@) == sorted_values(prices@),
        in_rising_order(prices@, r.1@),
        forall|k: int| 0 <= k < r.0.len() ==> #[trigger] r.0@[k] == prices@[r.1@[k]],
{
    let mut r: Vec<Decimal> = Vec::new();
    let ghost mut from = Seq::<int>::empty();
    let mut i: usize = 0;
    assert(values(r@).to_multiset() =~= values(prices@).take(0).to_multiset()) by {
        assert(values(r@) =~= values(prices@).take(0));
    }
    while i < prices.len()
        invariant
            i <= prices.len(),
            r.len() == i,
            forall|j: int, k: int| 0 <= j < k < r.len() ==> r@[j]@ <= r@[k]@,
            from.len() == i,
            forall|k: int| 0 <= k < i ==> 0 <= #[trigger] from[k] < i,
            forall|k: int| 0 <= k < i ==> #[trigger] r@[k] == prices@[from[k]],
            forall|j: int, k: int|
                0 <= j < k < i ==> comes_before(
                    prices@,
                    #[trigger] from[j],
                    #[trigger] from[k],
                ),
            values(r@).to_multiset() == values(prices@).take(i as int).to_multiset(),
        decreases prices.len() - i,
    {
        let price = prices[i];
        let at = position(&r, price);
        let ghost before = values(r@);
        let ghost (sorted, named) = (r@, from);
        r.insert(at, price);
        proof {
            from = from.insert(at as int, i as int);
            assert forall|j: int, k: int| 0 <= j < k < i + 1 implies comes_before(
                prices@,
                #[trigger] from[j],
                #[trigger] from[k],
            ) by {
                let (before_j, before_k) = (
                    if j < at {
                        j
                    } else {
                        j - 1
                    },
                    if k < at {
                        k
                    } else {
                        k - 1
                    },
                );
                if j == at {
                    assert(sorted[before_k] == prices@[named[before_k]]);
                } else if k == at {
                    assert(sorted[j] == prices@[named[j]]);
                } else {
                    assert(comes_before(prices@, named[before_j], named[before_k]));
                }
            }
            assert(values(r@) =~= before.insert(at as int, price@));
            vstd::seq_lib::to_multiset_insert(before, at as int, price@);
            let taken = values(prices@).take(i as int);
            assert(values(prices@).take(i + 1) =~= taken.push(price@));
            vstd::seq_lib::to_multiset_build(taken, price@);
        }
        i = i + 1;
    }
    proof {
        assert(values(prices@).take(i as int) =~= values(prices@));
        lemma_total();
        values(prices@).lemma_sort_by_ensures(not_above());
        assert(sorted_by(values(r@), not_above()));
        vstd::seq_lib::lemma_sorted_unique(values(r@), sorted_values(prices@), not_above());
    }
    (r, Ghost(from))
}

/// The median, or nothing if there is no price; `Err` where it cannot be computed.
pub fn try_compute_median(prices: &Vec<Decimal>) -> (r: Result<Option<Decimal>, Overflow>)
    ensures
        match r {
            Ok(None) => prices.len() == 0,
            Ok(Some(d)) => prices.len() > 0 && is_median(prices@, Some(d)),
            Err(Overflow) => prices.len() > 0 && is_median(prices@, None),
        },
{
    if prices.len() == 0 {
        return Ok(None);
    }
    let (sorted, Ghost(from)) = sort(prices);
    let mid = sorted.len() / 2;
    proof {
        assert(values(sorted@).len() == prices.len());
        assert(forall|i: int| 0 <= i < sorted.len() ==> values(sorted@)[i] == sorted@[i]@);
    }
    if sorted.len() % 2 == 0 {
        match sorted[mid - 1].checked_add(sorted[mid]) {
            Some(sum) => match sum.checked_div(Decimal::from_u32(2)) {
                Some(d) => Ok(Some(d)),
                None => Err(Overflow),
            },
            None => Err(Overflow),
        }
    } else {
        Ok(Some(sorted[mid]))
    }
}

/// The median, or nothing if there is no price.
pub fn compute_median(prices: &Vec<Decimal>) -> (r: Option<Decimal>)
    requires
        prices.len() > 0 ==> median_of(prices@) is Some,
    ensures
        match r {
            None => prices.len() == 0,
            Some(d) => prices.len() > 0 && is_median(prices@, Some(d)),
        },
{
    match try_compute_median(prices) {
        Ok(r) => r,
        Err(Overflow) => None,
    }
}

/// The order in which the prices come makes no difference to the median.
pub proof fn law_median_ignores_order(a: Seq<Decimal>, b: Seq<Decimal>)
    requires
        values(a).to_multiset() == values(b).to_multiset(),
    ensures
        median_of(a) == median_of(b),
{
    lemma_total();
    values(a).lemma_sort_by_ensures(not_above());
    values(b).lemma_sort_by_ensures(not_above());
    vstd::seq_lib::lemma_sorted_unique(sorted_values(a), sorted_values(b), not_above());
    values(a).to_multiset_ensures();
    values(b).to_multiset_ensures();
}

/// How many of some prices have a property.
pub open spec fn how_many(prices: Seq<Decimal>, which: spec_fn(int) -> bool) -> nat
    decreases prices.len(),
{
    if prices.len() == 0 {
        0
    } else {
        how_many(prices.drop_last(), which) + if which(prices.last()@) {
            1nat
        } else {
            0nat
        }
    }
}

/// How many of some values have a property.
spec fn how_many_values(values: Seq<int>, which: spec_fn(int) -> bool) -> nat {
    values.to_multiset().filter(which).len()
}

proof fn lemma_how_many_push(values: Seq<int>, v: int, which: spec_fn(int) -> bool)
    ensures
        how_many_values(values.push(v), which) == how_many_values(values, which) + if which(v) {
            1nat
        } else {
            0nat
        },
{
    broadcast use vstd::multiset::group_multiset_axioms;

    vstd::seq_lib::to_multiset_build(values, v);
    let m = values.to_multiset();
    if which(v) {
        assert(m.insert(v).filter(which) =~= m.filter(which).insert(v));
    } else {
        assert(m.insert(v).filter(which) =~= m.filter(which));
    }
}

proof fn lemma_how_many_none(which: spec_fn(int) -> bool)
    ensures
        how_many_values(Seq::<int>::empty(), which) == 0,
{
    broadcast use vstd::multiset::group_multiset_axioms;

    let none = Seq::<int>::empty();
    none.to_multiset_ensures();
    assert(none.to_multiset().filter(which) =~= Multiset::<int>::empty());
}

/// Counting prices is counting their values.
proof fn lemma_how_many(prices: Seq<Decimal>, which: spec_fn(int) -> bool)
    ensures
        how_many(prices, which) == how_many_values(values(prices), which),
    decreases prices.len(),
{
    if prices.len() == 0 {
        lemma_how_many_none(which);
        assert(values(prices) =~= Seq::<int>::empty());
    } else {
        let front = prices.drop_last();
        lemma_how_many(front, which);
        lemma_how_many_push(values(front), prices.last()@, which);
        assert(values(prices) =~= values(front).push(prices.last()@));
    }
}

/// If just the first `n` of some values have a property, so many do; at least so many if
/// others may have it, and at most so many if not all of them need to.
proof fn lemma_how_many_first(values: Seq<int>, n: int, which: spec_fn(int) -> bool)
    requires
        0 <= n <= values.len(),
    ensures
        (forall|i: int| 0 <= i < n ==> which(#[trigger] values[i])) ==> how_many_values(
            values,
            which,
        ) >= n,
        (forall|i: int| n <= i < values.len() ==> !which(#[trigger] values[i])) ==> how_many_values(
            values,
            which,
        ) <= n,
    decreases values.len(),
{
    if values.len() == 0 {
        lemma_how_many_none(which);
        assert(values =~= Seq::<int>::empty());
    } else {
        let front = values.drop_last();
        let last = values[values.len() - 1];
        lemma_how_many_push(front, last, which);
        assert(front.push(last) =~= values);
        if n == values.len() {
            lemma_how_many_first(front, n - 1, which);
        } else {
            lemma_how_many_first(front, n, which);
        }
        assert forall|i: int| 0 <= i < front.len() implies #[trigger] front[i] == values[i] by {}
        if forall|i: int| 0 <= i < n ==> which(#[trigger] values[i]) {
            assert(forall|i: int| 0 <= i < n && i < front.len() ==> which(#[trigger] front[i]));
            if n == values.len() {
                assert(which(values[n - 1]));
            }
        }
        if forall|i: int| n <= i < values.len() ==> !which(#[trigger] values[i]) {
            assert(forall|i: int| n <= i < front.len() ==> !which(#[trigger] front[i]));
            if n < values.len() {
                assert(!which(values[values.len() - 1]));
            }
        }
    }
}

/// The same for the last `n`.
proof fn lemma_how_many_last(values: Seq<int>, n: int, which: spec_fn(int) -> bool)
    requires
        0 <= n <= values.len(),
    ensures
        (forall|i: int| values.len() - n <= i < values.len() ==> which(#[trigger] values[i]))
            ==> how_many_values(values, which) >= n,
        (forall|i: int| 0 <= i < values.len() - n ==> !which(#[trigger] values[i]))
            ==> how_many_values(values, which) <= n,
    decreases values.len(),
{
    if values.len() == 0 {
        lemma_how_many_none(which);
        assert(values =~= Seq::<int>::empty());
    } else {
        let front = values.drop_last();
        let last = values[values.len() - 1];
        lemma_how_many_push(front, last, which);
        assert(front.push(last) =~= values);
        assert forall|i: int| 0 <= i < front.len() implies #[trigger] front[i] == values[i] by {}
        if n == 0 {
            lemma_how_many_last(front, 0, which);
            if forall|i: int| 0 <= i < values.len() ==> !which(#[trigger] values[i]) {
                assert(!which(values[values.len() - 1]));
                assert(forall|i: int| 0 <= i < front.len() ==> !which(#[trigger] front[i]));
            }
        } else {
            lemma_how_many_last(front, n - 1, which);
            if forall|i: int| values.len() - n <= i < values.len() ==> which(#[trigger] values[i]) {
                assert(which(values[values.len() - 1]));
                assert(forall|i: int|
                    values.len() - n <= i < front.len() ==> which(#[trigger] front[i]));
            }
            if forall|i: int| 0 <= i < values.len() - n ==> !which(#[trigger] values[i]) {
                assert(forall|i: int| 0 <= i < values.len() - n ==> !which(#[trigger] front[i]));
            }
        }
    }
}

/// Whether a value is that of a price.
spec fn is_among(prices: Seq<Decimal>, value: int) -> bool {
    exists|j: int| 0 <= j < prices.len() && #[trigger] prices[j]@ == value
}

/// Values in rising order, as many of each as there are prices.
proof fn lemma_sorted(prices: Seq<Decimal>)
    ensures
        ({
            let sorted = sorted_values(prices);
            &&& sorted.len() == prices.len()
            &&& forall|i: int, j: int| 0 <= i < j < sorted.len() ==> sorted[i] <= sorted[j]
            &&& forall|which: spec_fn(int) -> bool| #[trigger]
                how_many_values(sorted, which) == how_many(prices, which)
            &&& forall|i: int| 0 <= i < sorted.len() ==> is_among(prices, #[trigger] sorted[i])
        }),
{
    let all = values(prices);
    let sorted = sorted_values(prices);
    lemma_total();
    all.lemma_sort_by_ensures(not_above());
    all.to_multiset_ensures();
    sorted.to_multiset_ensures();
    assert(sorted.len() == prices.len());
    assert forall|i: int, j: int| 0 <= i < j < sorted.len() implies sorted[i] <= sorted[j] by {
        assert(not_above()(sorted[i], sorted[j]));
    }
    assert forall|which: spec_fn(int) -> bool| #[trigger]
        how_many_values(sorted, which) == how_many(prices, which) by {
        lemma_how_many(prices, which);
    }
    assert forall|i: int| 0 <= i < sorted.len() implies is_among(prices, #[trigger] sorted[i]) by {
        assert(sorted.to_multiset().count(sorted[i]) > 0);
        assert(all.contains(sorted[i]));
        let j = choose|j: int| 0 <= j < all.len() && all[j] == sorted[i];
        assert(prices[j]@ == sorted[i]);
    }
}

/// Whether prices are such that twice a price is a number, so that no mean of two is rounded
/// off past one of them.
pub open spec fn can_be_halved(prices: Seq<Decimal>) -> bool {
    forall|i: int|
        0 <= i < prices.len() ==> 0 <= (#[trigger] prices[i])@ && representable(prices[i]@)
            && representable(2 * prices[i]@)
}

proof fn lemma_mean_between(a: int, b: int)
    requires
        0 <= a <= b,
        representable(a),
        representable(b),
        representable(2 * a),
        representable(2 * b),
    ensures
        sum_of(a, b) matches Some(sum) && (quotient_of(sum, 2 * one(), false) matches Some(mean)
            && a <= mean <= b),
{
    let e = one();
    lemma_pow10_positive(28);
    lemma_nearest_exact(2 * a, 1, 2 * a, false);
    lemma_nearest_exact(2 * b, 1, 2 * b, false);
    lemma_nearest_within(a + b, 1, 2 * b, false);
    lemma_nearest_order(2 * a, a + b, 1);
    let sum = sum_of(a, b)->0;
    assert((2 * a) * e == a * (2 * e)) by (nonlinear_arith);
    assert((2 * b) * e == b * (2 * e)) by (nonlinear_arith);
    assert(0 <= (2 * a) * e <= sum * e && sum * e <= (2 * b) * e && -b * (2 * e) <= 0) by (
    nonlinear_arith)
        requires
            0 <= 2 * a <= sum <= 2 * b,
            e > 0,
    ;
    lemma_nearest_exact((2 * a) * e, 2 * e, a, false);
    lemma_nearest_within(sum * e, 2 * e, b, false);
    lemma_nearest_order((2 * a) * e, sum * e, 2 * e);
}

/// The halves on both sides of a median.
proof fn lemma_median_halves(prices: Seq<Decimal>, median: int)
    requires
        prices.len() > 0,
        median_of(prices) == Some(median),
        can_be_halved(prices),
    ensures
        2 * how_many(prices, |p: int| p <= median) >= prices.len(),
        2 * how_many(prices, |p: int| p >= median) >= prices.len(),
{
    let sorted = sorted_values(prices);
    let n = prices.len() as int;
    let mid = n / 2;
    let below = |p: int| p <= median;
    let above = |p: int| p >= median;
    lemma_sorted(prices);
    assert(how_many_values(sorted, below) == how_many(prices, below));
    assert(how_many_values(sorted, above) == how_many(prices, above));
    if n % 2 == 0 {
        let (a, b) = (sorted[mid - 1], sorted[mid]);
        assert(is_among(prices, a) && is_among(prices, b));
        let i = choose|i: int| 0 <= i < prices.len() && #[trigger] prices[i]@ == a;
        let j = choose|j: int| 0 <= j < prices.len() && #[trigger] prices[j]@ == b;
        assert(prices[i]@ == a && prices[j]@ == b);
        lemma_mean_between(a, b);
        lemma_how_many_first(sorted, mid, below);
        lemma_how_many_last(sorted, mid, above);
    } else {
        lemma_how_many_first(sorted, mid + 1, below);
        lemma_how_many_last(sorted, mid + 1, above);
    }
}

/// At least half of the prices are not above the median, and at least half are not below it,
/// as long as twice a price is a number.
pub proof fn law_median_has_half_on_each_side(
    prices: &Vec<Decimal>,
    r: Result<Option<Decimal>, Overflow>,
)
    requires
        call_ensures(try_compute_median, (prices,), r),
        can_be_halved(prices@),
    ensures
        r is Ok,
        r->Ok_0 is Some <==> prices.len() > 0,
        r matches Ok(Some(median)) ==> 2 * how_many(prices@, |p: int| p <= median@) >= prices.len()
            && 2 * how_many(prices@, |p: int| p >= median@) >= prices.len(),
{
    if prices.len() > 0 {
        let sorted = sorted_values(prices@);
        let mid = prices.len() as int / 2;
        lemma_sorted(prices@);
        if prices.len() % 2 == 0 {
            let (a, b) = (sorted[mid - 1], sorted[mid]);
            assert(is_among(prices@, a) && is_among(prices@, b));
            let i = choose|i: int| 0 <= i < prices.len() && #[trigger] prices@[i]@ == a;
            let j = choose|j: int| 0 <= j < prices.len() && #[trigger] prices@[j]@ == b;
            assert(prices@[i]@ == a && prices@[j]@ == b);
            lemma_mean_between(a, b);
        }
        if let Ok(Some(median)) = r {
            lemma_median_halves(prices@, median@);
        }
    }
}

proof fn lemma_apart(prices: Seq<Decimal>, p: spec_fn(int) -> bool, q: spec_fn(int) -> bool)
    requires
        forall|v: int| !(#[trigger] p(v) && q(v)),
    ensures
        how_many(prices, p) + how_many(prices, q) <= prices.len(),
    decreases prices.len(),
{
    if prices.len() > 0 {
        lemma_apart(prices.drop_last(), p, q);
        assert(!(p(prices.last()@) && q(prices.last()@)));
    }
}

/// Where more than half of the prices are the same, that is the median, whatever the others
/// are: a spike does not move it.
pub proof fn law_median_is_what_most_prices_are(
    prices: &Vec<Decimal>,
    median: Decimal,
    price: int,
)
    requires
        call_ensures(try_compute_median, (prices,), Ok::<Option<Decimal>, Overflow>(Some(median))),
        can_be_halved(prices@),
        2 * how_many(prices@, |p: int| p == price) > prices.len(),
    ensures
        median@ == price,
{
    lemma_median_halves(prices@, median@);
    let same = |p: int| p == price;
    if median@ < price {
        lemma_apart(prices@, |p: int| p <= median@, same);
    }
    if median@ > price {
        lemma_apart(prices@, |p: int| p >= median@, same);
    }
}

/// The median of an odd number of prices is one of them, with fewer than half of them below it
/// and fewer than half above it.
pub proof fn law_median_of_an_odd_number_is_a_price(prices: &Vec<Decimal>, median: Decimal)
    requires
        call_ensures(try_compute_median, (prices,), Ok::<Option<Decimal>, Overflow>(Some(median))),
        prices.len() % 2 == 1,
    ensures
        exists|i: int| 0 <= i < prices.len() && #[trigger] prices@[i] == median,
        2 * how_many(prices@, |p: int| p < median@) < prices.len(),
        2 * how_many(prices@, |p: int| p > median@) < prices.len(),
{
    let sorted = sorted_values(prices@);
    let n = prices.len() as int;
    let mid = n / 2;
    let less = |p: int| p < median@;
    let more = |p: int| p > median@;
    lemma_sorted(prices@);
    assert(how_many_values(sorted, less) == how_many(prices@, less));
    assert(how_many_values(sorted, more) == how_many(prices@, more));
    lemma_how_many_first(sorted, mid, less);
    lemma_how_many_last(sorted, mid, more);
    let from = choose|from: Seq<int>| #[trigger]
        in_rising_order(prices@, from) && form_of(Some(median)) == median_form(prices@, from);
    lemma_same_form(median, prices@[from[mid]]);
    assert(prices@[from[mid]] == median);
}

/// Whether two values are the two middle ones of some prices, the same one if their number is
/// odd: fewer than half of the prices are below the lower one and at least half not above it,
/// and the other way round for the higher one.
pub open spec fn are_the_middle(prices: Seq<Decimal>, low: int, high: int) -> bool {
    &&& 2 * how_many(prices, |p: int| p < low) < prices.len()
    &&& 2 * how_many(prices, |p: int| p <= low) >= prices.len()
    &&& 2 * how_many(prices, |p: int| p > high) < prices.len()
    &&& 2 * how_many(prices, |p: int| p >= high) >= prices.len()
}

/// Whether the mean of two values is a number, and so is their sum.
pub open spec fn has_mean(low: int, high: int) -> bool {
    &&& representable(low + high)
    &&& (low + high) % 2 == 0
    &&& representable((low + high) / 2)
}

/// The median is the mean of the two middle prices.
pub proof fn lemma_median_is_the_mean(prices: Seq<Decimal>, median: int, low: int, high: int)
    requires
        prices.len() > 0,
        median_of(prices) == Some(median),
        are_the_middle(prices, low, high),
        has_mean(low, high),
    ensures
        2 * median == low + high,
{
    let sorted = sorted_values(prices);
    let n = prices.len() as int;
    let mid = n / 2;
    let e = one();
    lemma_sorted(prices);
    let a = if n % 2 == 0 {
        sorted[mid - 1]
    } else {
        sorted[mid]
    };
    let below = if n % 2 == 0 {
        mid - 1
    } else {
        mid
    };
    let b = sorted[mid];
    let under_low = |p: int| p < low;
    let to_low = |p: int| p <= low;
    let over_high = |p: int| p > high;
    let from_high = |p: int| p >= high;
    assert(how_many_values(sorted, under_low) == how_many(prices, under_low));
    assert(how_many_values(sorted, to_low) == how_many(prices, to_low));
    assert(how_many_values(sorted, over_high) == how_many(prices, over_high));
    assert(how_many_values(sorted, from_high) == how_many(prices, from_high));
    if low < a {
        lemma_how_many_first(sorted, below, to_low);
        assert(forall|i: int| below <= i < n ==> !to_low(#[trigger] sorted[i]));
    }
    if low > a {
        lemma_how_many_first(sorted, below + 1, under_low);
        assert(forall|i: int| 0 <= i < below + 1 ==> under_low(#[trigger] sorted[i]));
    }
    if high > b {
        lemma_how_many_last(sorted, n - mid - 1, from_high);
        assert(forall|i: int| 0 <= i < mid + 1 ==> !from_high(#[trigger] sorted[i]));
    }
    if high < b {
        lemma_how_many_last(sorted, n - mid, over_high);
        assert(forall|i: int| mid <= i < n ==> over_high(#[trigger] sorted[i]));
    }
    law_sum_exact(a, b);
    let half = (low + high) / 2;
    lemma_pow10_positive(28);
    assert((low + high) * e == half * (2 * e)) by (nonlinear_arith)
        requires
            low + high == 2 * half,
    ;
    law_quotient_exact(low + high, 2 * e, half, false);
}

/// The median is the mean of the two middle prices, `low` and `high`, which for an odd number of
/// prices are the same one, as long as their sum and its half are numbers.
pub proof fn law_median_is_the_mean_of_the_middle(
    prices: &Vec<Decimal>,
    median: Decimal,
    low: int,
    high: int,
)
    requires
        call_ensures(try_compute_median, (prices,), Ok::<Option<Decimal>, Overflow>(Some(median))),
        are_the_middle(prices@, low, high),
        has_mean(low, high),
    ensures
        2 * median@ == low + high,
{
    lemma_median_is_the_mean(prices@, median@, low, high);
}

/// The median that is computed where it is known that it can be is the same: the mean of the two
/// middle prices, and none only where there is no price.
pub proof fn law_known_median_is_the_mean_of_the_middle(
    prices: &Vec<Decimal>,
    r: Option<Decimal>,
    low: int,
    high: int,
)
    requires
        call_ensures(compute_median, (prices,), r),
        are_the_middle(prices@, low, high),
        has_mean(low, high),
    ensures
        r is Some <==> prices.len() > 0,
        r matches Some(median) ==> 2 * median@ == low + high,
{
    if let Some(median) = r {
        lemma_median_is_the_mean(prices@, median@, low, high);
    }
}

} // verus!
