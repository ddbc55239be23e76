use vstd::prelude::*;

verus! {

/// The fixed-point scale of a tax rate: a rate of `1.0` has `10^18` atomics.
pub const DECIMAL_FRACTION: u128 = 1_000_000_000_000_000_000u128;

/// An amount of one denomination held by, or sent from, an account.
#[derive(Clone, Debug, PartialEq, Eq)]
pub struct Coin {
    pub denom: String,
    pub amount: u128,
}

/// A tax rate as a fixed-point decimal: `atomics / 10^18`.
#[derive(Clone, Copy, Debug, PartialEq, Eq)]
pub struct TaxRate {
    pub atomics: u128,
}

impl View for Coin {
    type V = (Seq<char>, u128);

    /// A coin is its denomination and its amount.
    open spec fn view(&self) -> (Seq<char>, u128) {
        (self.denom@, self.amount)
    }
}

/// The denominations and amounts of a list of coins, in order.
pub open spec fn coins_view(coins: Seq<Coin>) -> Seq<(Seq<char>, u128)> {
    coins.map_values(|c: Coin| c@)
}

impl Coin {
    /// A coin of `amount` units of `denom`.
    pub fn new(denom: String, amount: u128) -> (coin: Coin)
        ensures
            coin@ == (denom@, amount),
    {
        Coin { denom, amount }
    }
}

impl TaxRate {
    /// The rate whose fixed-point representation is `atomics`.
    pub fn from_atomics(atomics: u128) -> (rate: TaxRate)
        ensures
            rate.atomics == atomics,
    {
        TaxRate { atomics }
    }
}

} // verus!
