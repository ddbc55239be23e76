//! Sending a contract's whole balance to the burn address, less the chain's
//! transfer tax.
//!
//! The chain charges a tax on every bank transfer. Before the contract sends
//! what it holds to the burn address, it lowers each coin's amount so that the
//! transfer and its tax can be paid from the balance. The arithmetic lives in
//! [`tax`]; the entry points' decisions in [`contract`].

mod coin;
pub mod tax;
pub mod contract;

pub use coin::{coins_view, Coin, TaxRate, DECIMAL_FRACTION};
