//! Prices: a card's value raised by a markup and rounded to a whole number.

use crate::markup::Markup;
use crate::number::{
    lemma_ten_to_at_least, lemma_ten_to_at_most, lemma_ten_to_positive, power_of_ten, ten_to,
    DIRECT_SCALE,
};
use vstd::prelude::*;

verus! {

/// The whole number nearest to `n / d`, for a positive `d`; of two that are
/// equally near, the one farther from zero.
pub open spec fn round_half_away(n: int, d: int) -> int
    recommends
        d > 0,
{
    if n >= 0 {
        (2 * n + d) / (2 * d)
    } else {
        -((d - 2 * n) / (2 * d))
    }
}

/// `value + value * markup`, rounded to the nearest whole number, halves
/// away from zero.
pub open spec fn raised(value: int, markup: Markup) -> int {
    let one = ten_to(markup.scale as nat);
    round_half_away(value * one + value * markup.units, one)
}

/// One line of a price table: a card's value with its buy and sell prices.
#[derive(Clone, Copy, Debug, PartialEq, Eq, Structural)]
pub struct PriceRow {
    pub card: i32,
    pub buy: i128,
    pub sell: i128,
}

/// The row of a card worth `card` under the two markups.
pub open spec fn row_for(card: i32, buy: Markup, sell: Markup) -> PriceRow {
    PriceRow {
        card,
        buy: raised(card as int, buy) as i128,
        sell: raised(card as int, sell) as i128,
    }
}

/// The number of cards from `lo` to `hi`, both counted: none where `hi` is
/// below `lo`.
pub open spec fn range_len(lo: int, hi: int) -> nat {
    if lo <= hi {
        (hi - lo + 1) as nat
    } else {
        0
    }
}

/// The rows of the cards from `lo` to `hi`, both counted, one each, in
/// ascending order.
pub open spec fn rows_for(lo: i32, hi: i32, buy: Markup, sell: Markup) -> Seq<PriceRow> {
    Seq::new(range_len(lo as int, hi as int), |i: int| row_for((lo + i) as i32, buy, sell))
}

/// A markup whose product with the value stays below a half leaves the
/// value as it is.
proof fn lemma_slight_markup(value: int, units: int, d: int)
    requires
        d > 0,
        -d < 2 * (value * units) < d,
    ensures
        round_half_away(value * (d + units), d) == value,
{
    let e = value * units;
    let n = value * (d + units);
    assert(n == value * d + e) by (nonlinear_arith)
        requires
            n == value * (d + units),
            e == value * units,
    ;
    if value == 0 {
        assert(n == 0);
        vstd::arithmetic::div_mod::lemma_fundamental_div_mod_converse(d, 2 * d, 0, d);
    } else if value > 0 {
        assert(value * d >= d) by (nonlinear_arith)
            requires
                value >= 1,
                d > 0,
        ;
        assert(2 * n + d == value * (2 * d) + (2 * e + d)) by (nonlinear_arith)
            requires
                n == value * d + e,
        ;
        vstd::arithmetic::div_mod::lemma_fundamental_div_mod_converse(
            2 * n + d,
            2 * d,
            value,
            2 * e + d,
        );
    } else {
        assert(value * d <= -d) by (nonlinear_arith)
            requires
                value <= -1,
                d > 0,
        ;
        assert(d - 2 * n == (-value) * (2 * d) + (d - 2 * e)) by (nonlinear_arith)
            requires
                n == value * d + e,
        ;
        vstd::arithmetic::div_mod::lemma_fundamental_div_mod_converse(
            d - 2 * n,
            2 * d,
            -value,
            d - 2 * e,
        );
    }
}

/// `round_half_away(n, d)` is a whole number nearest to `n / d`: it is at
/// most a half away. Where it is exactly a half away, the other whole
/// number that near lies closer to zero.
pub proof fn lemma_round_half_away_is_nearest(n: int, d: int)
    requires
        d > 0,
    ensures
        -d <= 2 * (round_half_away(n, d) * d - n) <= d,
        2 * (round_half_away(n, d) * d - n) == d ==> n >= 0,
        2 * (round_half_away(n, d) * d - n) == -d ==> n < 0,
{
    let m = if n >= 0 {
        2 * n + d
    } else {
        d - 2 * n
    };
    let q = m / (2 * d);
    let r = m % (2 * d);
    assert(m == (2 * d) * q + r && 0 <= r < 2 * d) by {
        vstd::arithmetic::div_mod::lemma_fundamental_div_mod(m, 2 * d);
    }
    assert((2 * d) * q == 2 * (q * d)) by (nonlinear_arith);
    if n < 0 {
        assert((-q) * d == -(q * d)) by (nonlinear_arith);
    }
}

/// A raised value lies within `2^126` of zero, so an `i128` holds it.
pub proof fn lemma_raised_in_reach(value: i32, markup: Markup)
    ensures
        -0x4000_0000_0000_0000_0000_0000_0000_0000 <= raised(value as int, markup)
            <= 0x4000_0000_0000_0000_0000_0000_0000_0000,
{
    let d = ten_to(markup.scale as nat);
    let n = value * d + value * markup.units;
    let bound = 0x2000_0000_0000_0000_0000_0000_0000_0000int;
    assert(-0x8000_0000 * 0x8000_0000_0000_0000 <= value * markup.units <= 0x8000_0000
        * 0x8000_0000_0000_0000) by (nonlinear_arith)
        requires
            -0x8000_0000 <= value <= 0x8000_0000,
            -0x8000_0000_0000_0000 <= markup.units <= 0x8000_0000_0000_0000,
    ;
    if markup.scale > DIRECT_SCALE {
        lemma_ten_to_at_least(markup.scale as nat);
        lemma_slight_markup(value as int, markup.units as int, d);
        assert(value * (d + markup.units) == n) by (nonlinear_arith)
            requires
                n == value * d + value * markup.units,
        ;
    } else {
        lemma_ten_to_at_most(markup.scale as nat);
        lemma_ten_to_positive(markup.scale as nat);
        assert(-0x8000_0000 * 10_000_000_000_000_000_000_000_000_000 <= value * d <= 0x8000_0000
            * 10_000_000_000_000_000_000_000_000_000) by (nonlinear_arith)
            requires
                -0x8000_0000 <= value <= 0x8000_0000,
                1 <= d <= 10_000_000_000_000_000_000_000_000_000,
        ;
        assert(-bound <= n <= bound);
        let r = round_half_away(n, d);
        lemma_round_half_away_is_nearest(n, d);
        if r > bound + 1 {
            assert(r * d >= (bound + 2) * d) by (nonlinear_arith)
                requires
                    r >= bound + 2,
                    d >= 1,
            ;
            assert((bound + 2) * d >= bound + 2 * d) by (nonlinear_arith)
                requires
                    bound >= 0,
                    d >= 1,
            ;
        }
        if r < -bound - 1 {
            assert(r * d <= (-bound - 2) * d) by (nonlinear_arith)
                requires
                    r <= -bound - 2,
                    d >= 1,
            ;
            assert((-bound - 2) * d <= -bound - 2 * d) by (nonlinear_arith)
                requires
                    bound >= 0,
                    d >= 1,
            ;
        }
    }
}

/// The price of a card worth `value` under `markup`:
/// `value + value * markup`, rounded to the nearest whole number with
/// halves away from zero.
pub fn price(value: i32, markup: &Markup) -> (price: i128)
    ensures
        price == raised(value as int, *markup),
{
    if markup.scale > DIRECT_SCALE {
        proof {
            let d = ten_to(markup.scale as nat);
            lemma_ten_to_at_least(markup.scale as nat);
            assert(-0x8000_0000 * 0x8000_0000_0000_0000 <= value * markup.units <= 0x8000_0000
                * 0x8000_0000_0000_0000) by (nonlinear_arith)
                requires
                    -0x8000_0000 <= value <= 0x8000_0000,
                    -0x8000_0000_0000_0000 <= markup.units <= 0x8000_0000_0000_0000,
            ;
            lemma_slight_markup(value as int, markup.units as int, d);
            assert(value * (d + markup.units) == value * d + value * markup.units)
                by (nonlinear_arith);
        }
        return value as i128;
    }
    let one: u128 = power_of_ten(markup.scale);
    let factor: i128 = one as i128 + markup.units as i128;
    let whole: i128 = value as i128;
    assert(-0x8000_0000 * 0x4000_0000_0000_0000_0000_0000 <= whole * factor <= 0x8000_0000
        * 0x4000_0000_0000_0000_0000_0000) by (nonlinear_arith)
        requires
            -0x8000_0000 <= whole <= 0x8000_0000,
            -0x4000_0000_0000_0000_0000_0000 <= factor <= 0x4000_0000_0000_0000_0000_0000,
    ;
    let exact: i128 = whole * factor;
    assert(whole * factor == whole * one + whole * markup.units) by (nonlinear_arith)
        requires
            factor == one + markup.units,
    ;
    let negative = exact < 0;
    let doubled: u128 = if negative {
        (-exact) as u128 * 2
    } else {
        exact as u128 * 2
    };
    let nearest: u128 = (doubled + one) / (2 * one);
    assert(nearest <= doubled + one) by (nonlinear_arith)
        requires
            nearest == (doubled + one) / (2 * one),
            one >= 1,
    ;
    if negative {
        -(nearest as i128)
    } else {
        nearest as i128
    }
}

/// The row of a card worth `value` under the two markups.
pub fn price_row(value: i32, buy_markup: &Markup, sell_markup: &Markup) -> (row: PriceRow)
    ensures
        row == row_for(value, *buy_markup, *sell_markup),
{
    PriceRow { card: value, buy: price(value, buy_markup), sell: price(value, sell_markup) }
}

/// The rows of the cards from `min_value` to `max_value`, both counted, in
/// ascending order; none where `max_value` is below `min_value`.
pub fn price_rows(
    min_value: i32,
    max_value: i32,
    buy_markup: &Markup,
    sell_markup: &Markup,
) -> (rows: Vec<PriceRow>)
    ensures
        rows@ == rows_for(min_value, max_value, *buy_markup, *sell_markup),
{
    let mut rows: Vec<PriceRow> = Vec::new();
    let mut card: i64 = min_value as i64;
    while card <= max_value as i64
        invariant
            min_value <= card <= max_value + 1 || (card == min_value && min_value > max_value),
            rows@.len() == card - min_value,
            forall|i: int|
                0 <= i < rows@.len() ==> #[trigger] rows@[i] == row_for(
                    (min_value + i) as i32,
                    *buy_markup,
                    *sell_markup,
                ),
        decreases max_value - card + 1,
    {
        rows.push(price_row(card as i32, buy_markup, sell_markup));
        card += 1;
    }
    assert(rows@ =~= rows_for(min_value, max_value, *buy_markup, *sell_markup));
    rows
}

/// The rows of a range are as many as its cards and stand in strictly
/// ascending order of card value, from the lowest card to the highest, each
/// with the prices of its own card.
pub proof fn lemma_rows_cover_range(lo: i32, hi: i32, buy: Markup, sell: Markup)
    requires
        lo <= hi,
    ensures
        rows_for(lo, hi, buy, sell).len() == hi - lo + 1,
        rows_for(lo, hi, buy, sell).first().card == lo,
        rows_for(lo, hi, buy, sell).last().card == hi,
        forall|i: int, j: int|
            0 <= i < j < rows_for(lo, hi, buy, sell).len() ==> (#[trigger] rows_for(
                lo,
                hi,
                buy,
                sell,
            )[i]).card < (#[trigger] rows_for(lo, hi, buy, sell)[j]).card,
        forall|i: int|
            0 <= i < rows_for(lo, hi, buy, sell).len() ==> {
                let row = #[trigger] rows_for(lo, hi, buy, sell)[i];
                row.buy == raised(row.card as int, buy) && row.sell == raised(
                    row.card as int,
                    sell,
                )
            },
{
    let rows = rows_for(lo, hi, buy, sell);
    assert forall|i: int| 0 <= i < rows.len() implies {
        let row = #[trigger] rows[i];
        row.buy == raised(row.card as int, buy) && row.sell == raised(row.card as int, sell)
    } by {
        lemma_raised_in_reach((lo + i) as i32, buy);
        lemma_raised_in_reach((lo + i) as i32, sell);
    }
}

} // verus!
