//! The tax that the chain charges on a transfer, and what is left of each coin
//! once room for it has been withheld.
use vstd::prelude::*;
use vstd::arithmetic::div_mod::{
    lemma_div_by_multiple, lemma_div_is_ordered, lemma_div_is_ordered_by_denominator,
    lemma_hoist_over_denominator, lemma_fundamental_div_mod,
};
use vstd::arithmetic::mul::lemma_mul_is_commutative;
use cosmwasm_std::Fraction;

use crate::coin::{coins_view, Coin, TaxRate, DECIMAL_FRACTION};

verus! {

/// `Uint128::multiply_ratio` of cosmwasm_std: `value * numerator / denominator`,
/// with the product taken in 256 bits and the quotient rounded down. It panics
/// when `denominator` is zero or the quotient does not fit in 128 bits; the
/// `requires` leaves those inputs out.
#[verifier::external_body]
fn multiply_ratio(value: u128, numerator: u128, denominator: u128) -> (res: u128)
    requires
        denominator != 0,
        value * numerator / (denominator as int) <= u128::MAX,
    ensures
        res == value * numerator / (denominator as int),
{
    cosmwasm_std::Uint128::new(value).multiply_ratio(numerator, denominator).u128()
}

/// `Uint128 * Decimal` of cosmwasm_std. The decimal is built by
/// `Decimal::from_ratio(rate.atomics, 10^18)`, whose source keeps the atomics
/// unchanged (`10^18` is `Decimal`'s own denominator). The product is
/// `value * rate.atomics / 10^18`, computed by `multiply_ratio` and rounded
/// down (zero when either factor is zero). It panics when the quotient does not fit in 128 bits; the
/// `requires` leaves those inputs out.
#[verifier::external_body]
fn mul_decimal(value: u128, rate: TaxRate) -> (res: u128)
    requires
        value * rate.atomics / (DECIMAL_FRACTION as int) <= u128::MAX,
    ensures
        res == value * rate.atomics / (DECIMAL_FRACTION as int),
{
    let scale = cosmwasm_std::Decimal::one().denominator();
    let decimal = cosmwasm_std::Decimal::from_ratio(rate.atomics, scale);
    (cosmwasm_std::Uint128::new(value) * decimal).u128()
}

/// Whether `rate + 10^18` fits in 128 bits, so that a tax at `rate` can be
/// computed.
pub fn rate_fits(rate: TaxRate) -> (fits: bool)
    ensures
        fits == rate_in_range(rate),
{
    rate.atomics <= u128::MAX - DECIMAL_FRACTION
}

/// The smaller of two integers.
pub open spec fn min_int(a: int, b: int) -> int {
    if a <= b { a } else { b }
}

/// `amount / (1 + rate)` for a rate of `rate / 10^18`, rounded down: the
/// share of `amount` on which a tax at that rate, added on top, would use up
/// `amount` exactly.
pub open spec fn taxable_share(amount: int, rate: int) -> int {
    amount * (DECIMAL_FRACTION as int) / (rate + DECIMAL_FRACTION)
}

/// What is withheld from a coin of `amount`: its taxable share, but never
/// more than the tax cap of its denomination.
pub open spec fn withheld(amount: int, rate: int, cap: int) -> int {
    min_int(taxable_share(amount, rate), cap)
}

/// What is left of a coin of `amount` once the withheld part is taken off.
pub open spec fn after_tax(amount: int, rate: int, cap: int) -> int {
    amount - withheld(amount, rate, cap)
}

/// The rates for which the computation does not overflow: `rate + 10^18`
/// must fit in 128 bits.
pub open spec fn rate_in_range(rate: TaxRate) -> bool {
    rate.atomics + DECIMAL_FRACTION <= u128::MAX
}

/// Each coin with its amount after tax, where `caps[i]` is the tax cap of
/// `coins[i]`'s denomination.
pub open spec fn taxed_coins(coins: Seq<(Seq<char>, u128)>, rate: int, caps: Seq<u128>) -> Seq<
    (Seq<char>, u128),
> {
    Seq::new(
        coins.len(),
        |i: int| (coins[i].0, after_tax(coins[i].1 as int, rate, caps[i] as int) as u128),
    )
}

/// The taxable share never exceeds the amount, and it is what the
/// fixed-point computation gives.
proof fn lemma_taxable_share_bounded(amount: u128, rate: u128)
    requires
        rate + DECIMAL_FRACTION <= u128::MAX,
    ensures
        0 <= taxable_share(amount as int, rate as int) <= amount,
        DECIMAL_FRACTION * rate / (DECIMAL_FRACTION as int) == rate,
{
    let f = DECIMAL_FRACTION as int;
    lemma_mul_is_commutative(f, rate as int);
    lemma_div_by_multiple(rate as int, f);
    lemma_div_by_multiple(amount as int, f);
    assert(amount * f >= 0) by (nonlinear_arith)
        requires
            amount >= 0,
            f > 0,
    ;
    lemma_div_is_ordered_by_denominator(amount * f, f, rate + f);
    assert((amount * f) / (rate + f) >= 0) by (nonlinear_arith)
        requires
            amount * f >= 0,
            rate + f > 0,
    ;
}

/// What is withheld from a coin is the largest amount that, with the tax at
/// `rate` added on top, still fits in the coin, unless the tax cap is smaller:
/// with `w` withheld from `amount`, `w <= cap`, `w * (1 + rate) <= amount`,
/// and either `w == cap` or `(w + 1) * (1 + rate) > amount` (rates scaled by
/// `10^18`).
pub proof fn lemma_withheld_characterized(amount: u128, rate: TaxRate, cap: u128)
    requires
        rate_in_range(rate),
    ensures
        ({
            let w = withheld(amount as int, rate.atomics as int, cap as int);
            &&& 0 <= w <= cap
            &&& w <= amount
            &&& w * (rate.atomics + DECIMAL_FRACTION) <= amount * DECIMAL_FRACTION
            &&& w == cap || (w + 1) * (rate.atomics + DECIMAL_FRACTION) > amount * DECIMAL_FRACTION
        }),
{
    lemma_taxable_share_bounded(amount, rate.atomics);
    let f = DECIMAL_FRACTION as int;
    let den = rate.atomics + f;
    let x = amount * f;
    let s = x / den;
    lemma_fundamental_div_mod(x, den);
    let r = x % den;
    assert(0 <= r < den);
    assert(s * den <= x && (s + 1) * den > x) by (nonlinear_arith)
        requires
            x == den * s + r,
            0 <= r < den,
    ;
    if s > cap {
        assert(cap * den <= s * den) by (nonlinear_arith)
            requires
                cap < s,
                den > 0,
        ;
    }
}

/// The three facts of `lemma_withheld_characterized` leave no other choice:
/// any `w` that meets them is what is withheld.
pub proof fn lemma_withheld_unique(amount: u128, rate: TaxRate, cap: u128, w: int)
    requires
        rate_in_range(rate),
        0 <= w <= cap,
        w * (rate.atomics + DECIMAL_FRACTION) <= amount * DECIMAL_FRACTION,
        w == cap || (w + 1) * (rate.atomics + DECIMAL_FRACTION) > amount * DECIMAL_FRACTION,
    ensures
        w == withheld(amount as int, rate.atomics as int, cap as int),
{
    lemma_withheld_characterized(amount, rate, cap);
    let f = DECIMAL_FRACTION as int;
    let den = rate.atomics + f;
    let x = amount * f;
    let s = x / den;
    lemma_fundamental_div_mod(x, den);
    let r = x % den;
    assert(0 <= r < den);
    assert(w <= s) by (nonlinear_arith)
        requires
            x == den * s + r,
            0 <= r < den,
            w * den <= x,
            den > 0,
    ;
    if w != cap {
        assert(s <= w) by (nonlinear_arith)
            requires
                x == den * s + r,
                0 <= r < den,
                (w + 1) * den > x,
                den > 0,
        ;
    }
}

/// What is left of `coin` once room for the transfer tax at `tax_rate`,
/// capped at `tax_cap`, has been withheld. The denomination is kept.
pub fn deduct_tax_from_coin(coin: Coin, tax_rate: TaxRate, tax_cap: u128) -> (res: Coin)
    requires
        rate_in_range(tax_rate),
    ensures
        res.denom@ == coin.denom@,
        res.amount == after_tax(coin.amount as int, tax_rate.atomics as int, tax_cap as int),
        res.amount <= coin.amount,
        coin.amount - res.amount <= tax_cap,
        (coin.amount - res.amount) * (tax_rate.atomics + DECIMAL_FRACTION) <= coin.amount
            * DECIMAL_FRACTION,
        coin.amount - res.amount == tax_cap || (coin.amount - res.amount + 1) * (tax_rate.atomics
            + DECIMAL_FRACTION) > coin.amount * DECIMAL_FRACTION,
{
    proof {
        lemma_taxable_share_bounded(coin.amount, tax_rate.atomics);
        lemma_withheld_characterized(coin.amount, tax_rate, tax_cap);
    }
    let rate_part = mul_decimal(DECIMAL_FRACTION, tax_rate);
    let share = multiply_ratio(coin.amount, DECIMAL_FRACTION, rate_part + DECIMAL_FRACTION);
    let withheld_amount = if share <= tax_cap {
        share
    } else {
        tax_cap
    };
    Coin { denom: coin.denom, amount: coin.amount - withheld_amount }
}

/// Each coin of `coins` with room for the transfer tax withheld, in the same
/// order; `tax_caps[i]` is the tax cap of `coins[i]`'s denomination.
pub fn deduct_tax(coins: Vec<Coin>, tax_rate: TaxRate, tax_caps: Vec<u128>) -> (res: Vec<Coin>)
    requires
        coins.len() == 0 || rate_in_range(tax_rate),
        tax_caps.len() == coins.len(),
    ensures
        coins_view(res@) == taxed_coins(coins_view(coins@), tax_rate.atomics as int, tax_caps@),
        res@.len() == coins@.len(),
        forall|i: int|
            0 <= i < coins@.len() ==> {
                let held = coins@[i];
                let sent = #[trigger] res@[i];
                let w = held.amount - sent.amount;
                &&& sent.denom@ == held.denom@
                &&& 0 <= w <= tax_caps@[i]
                &&& w * (tax_rate.atomics + DECIMAL_FRACTION) <= held.amount * DECIMAL_FRACTION
                &&& w == tax_caps@[i] || (w + 1) * (tax_rate.atomics + DECIMAL_FRACTION)
                    > held.amount * DECIMAL_FRACTION
            },
{
    let mut res: Vec<Coin> = Vec::new();
    let n = coins.len();
    for i in 0..n
        invariant
            n == coins.len(),
            tax_caps.len() == n,
            n == 0 || rate_in_range(tax_rate),
            coins_view(res@) == taxed_coins(coins_view(coins@), tax_rate.atomics as int, tax_caps@).take(i as int),
            res@.len() == i,
            forall|j: int|
                0 <= j < i ==> {
                    let held = coins@[j];
                    let sent = #[trigger] res@[j];
                    let w = held.amount - sent.amount;
                    &&& sent.denom@ == held.denom@
                    &&& 0 <= w <= tax_caps@[j]
                    &&& w * (tax_rate.atomics + DECIMAL_FRACTION) <= held.amount * DECIMAL_FRACTION
                    &&& w == tax_caps@[j] || (w + 1) * (tax_rate.atomics + DECIMAL_FRACTION)
                        > held.amount * DECIMAL_FRACTION
                },
    {
        let coin = Coin { denom: coins[i].denom.clone(), amount: coins[i].amount };
        let taxed = deduct_tax_from_coin(coin, tax_rate, tax_caps[i]);
        let ghost before = res@;
        res.push(taxed);
        proof {
            assert(res@ == before.push(taxed));
            assert(coins_view(res@) =~= coins_view(before).push(taxed@));
            assert(taxed_coins(coins_view(coins@), tax_rate.atomics as int, tax_caps@).take(i + 1) =~=
                taxed_coins(coins_view(coins@), tax_rate.atomics as int, tax_caps@).take(i as int).push(taxed@));
        }
    }
    proof {
        assert(taxed_coins(coins_view(coins@), tax_rate.atomics as int, tax_caps@).take(n as int) =~=
            taxed_coins(coins_view(coins@), tax_rate.atomics as int, tax_caps@));
    }
    res
}

/// No coin loses more than the tax cap of its denomination, and no coin is
/// sent with more than was held: `amount - cap <= after_tax <= amount`, and
/// `after_tax` is never negative.
pub proof fn lemma_after_tax_within_balance(amount: u128, rate: TaxRate, cap: u128)
    requires
        rate_in_range(rate),
    ensures
        0 <= after_tax(amount as int, rate.atomics as int, cap as int) <= amount,
        amount - cap <= after_tax(amount as int, rate.atomics as int, cap as int),
        withheld(amount as int, rate.atomics as int, cap as int) + after_tax(
            amount as int,
            rate.atomics as int,
            cap as int,
        ) == amount,
{
    lemma_taxable_share_bounded(amount, rate.atomics);
}

/// A larger balance never leaves less to send: `after_tax` does not decrease
/// as the amount grows, whatever the rate and the cap.
pub proof fn lemma_after_tax_monotone(smaller: u128, larger: u128, rate: TaxRate, cap: u128)
    requires
        rate_in_range(rate),
        smaller <= larger,
    ensures
        after_tax(smaller as int, rate.atomics as int, cap as int) <= after_tax(
            larger as int,
            rate.atomics as int,
            cap as int,
        ),
{
    let f = DECIMAL_FRACTION as int;
    let den = rate.atomics + f;
    let d = larger - smaller;
    let x = smaller * f;
    assert(larger * f == x + d * f) by (nonlinear_arith)
        requires
            d == larger - smaller,
            x == smaller * f,
    ;
    assert(x + d * f <= x + d * den) by (nonlinear_arith)
        requires
            d >= 0,
            f <= den,
    ;
    assert(x >= 0) by (nonlinear_arith)
        requires
            smaller >= 0,
            f > 0,
            x == smaller * f,
    ;
    lemma_div_is_ordered(x + d * f, x + d * den, den);
    lemma_hoist_over_denominator(x, d, den as nat);
    // taxable_share(larger) <= taxable_share(smaller) + d
    assert(taxable_share(larger as int, rate.atomics as int) <= taxable_share(
        smaller as int,
        rate.atomics as int,
    ) + d);
}

/// Over a whole list of coins, each denomination keeps its place, and coin
/// `i` loses exactly what a single coin of its amount loses at the same rate
/// and its own cap `caps[i]`: the largest `w` with `w * (1 + rate)` within
/// the amount, unless `caps[i]` is smaller (rates scaled by `10^18`).
pub proof fn lemma_taxed_coins_within_balances(
    coins: Seq<(Seq<char>, u128)>,
    rate: TaxRate,
    caps: Seq<u128>,
)
    requires
        coins.len() == 0 || rate_in_range(rate),
        caps.len() == coins.len(),
    ensures
        taxed_coins(coins, rate.atomics as int, caps).len() == coins.len(),
        forall|i: int|
            0 <= i < coins.len() ==> {
                let out = #[trigger] taxed_coins(coins, rate.atomics as int, caps)[i];
                let w = coins[i].1 - out.1;
                &&& out.0 == coins[i].0
                &&& out.1 <= coins[i].1
                &&& coins[i].1 - caps[i] <= out.1
                &&& 0 <= w <= caps[i]
                &&& w * (rate.atomics + DECIMAL_FRACTION) <= coins[i].1 * DECIMAL_FRACTION
                &&& w == caps[i] || (w + 1) * (rate.atomics + DECIMAL_FRACTION) > coins[i].1
                    * DECIMAL_FRACTION
            },
{
    assert forall|i: int| 0 <= i < coins.len() implies {
        let out = #[trigger] taxed_coins(coins, rate.atomics as int, caps)[i];
        let w = coins[i].1 - out.1;
        &&& out.0 == coins[i].0
        &&& out.1 <= coins[i].1
        &&& coins[i].1 - caps[i] <= out.1
        &&& 0 <= w <= caps[i]
        &&& w * (rate.atomics + DECIMAL_FRACTION) <= coins[i].1 * DECIMAL_FRACTION
        &&& w == caps[i] || (w + 1) * (rate.atomics + DECIMAL_FRACTION) > coins[i].1
            * DECIMAL_FRACTION
    } by {
        lemma_after_tax_within_balance(coins[i].1, rate, caps[i]);
        lemma_withheld_characterized(coins[i].1, rate, caps[i]);
    }
}

} // verus!
