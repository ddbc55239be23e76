//! The contract's entry points, with the chain's queries answered beforehand:
//! what each one decides, given what the chain reported.
use vstd::prelude::*;

use crate::coin::{coins_view, Coin, TaxRate, DECIMAL_FRACTION};
use crate::tax::{deduct_tax, lemma_taxed_coins_within_balances, rate_in_range, taxed_coins};

verus! {

/// The address to which the contract sends everything it holds.
pub open spec fn burn_address_view() -> Seq<char> {
    "terra1sk06e3dyexuq4shw77y3dsv480xv42mq73anxu"@
}

/// The burn address, as a string.
pub fn burn_address() -> (addr: String)
    ensures
        addr@ == burn_address_view(),
        addr@ == "terra1sk06e3dyexuq4shw77y3dsv480xv42mq73anxu"@,
{
    "terra1sk06e3dyexuq4shw77y3dsv480xv42mq73anxu".to_owned()
}

/// A bank transfer of `amount` from the contract to `to_address`.
#[derive(Clone, Debug, PartialEq, Eq)]
pub struct BankSend {
    pub to_address: String,
    pub amount: Vec<Coin>,
}

/// What an entry point answers: the transfers that the chain is to carry out,
/// in order.
#[derive(Clone, Debug, PartialEq, Eq)]
pub struct Response {
    pub messages: Vec<BankSend>,
}

/// The messages that [`execute`] accepts.
#[derive(Clone, Copy, Debug, PartialEq, Eq)]
pub enum ExecuteMsg {
    /// Send the contract's whole balance, less the transfer tax, to the burn
    /// address.
    SendToBurnAccount,
}

/// The transfer that sends `balances`, with room for the tax withheld from
/// each coin, to the burn address.
pub open spec fn is_burn_transfer(
    msg: BankSend,
    balances: Seq<Coin>,
    tax_rate: TaxRate,
    tax_caps: Seq<u128>,
) -> bool {
    &&& msg.to_address@ == burn_address_view()
    &&& coins_view(msg.amount@) == taxed_coins(coins_view(balances), tax_rate.atomics as int, tax_caps)
}

/// The burn transfer sends every balance, in order: coin `i` of the transfer
/// has the denomination of `balances[i]` and its amount less what is
/// withheld, where the withheld `w` is the largest with `w * (1 + rate)`
/// within the balance, unless the cap `tax_caps[i]` of that denomination is
/// smaller (rates scaled by `10^18`).
pub proof fn lemma_burn_transfer_sends_every_balance(
    msg: BankSend,
    balances: Seq<Coin>,
    tax_rate: TaxRate,
    tax_caps: Seq<u128>,
)
    requires
        balances.len() == 0 || rate_in_range(tax_rate),
        tax_caps.len() == balances.len(),
        is_burn_transfer(msg, balances, tax_rate, tax_caps),
    ensures
        msg.to_address@ == burn_address_view(),
        msg.amount@.len() == balances.len(),
        forall|i: int|
            0 <= i < balances.len() ==> {
                let held = balances[i];
                let sent = #[trigger] msg.amount@[i];
                let w = held.amount - sent.amount;
                &&& sent.denom@ == held.denom@
                &&& 0 <= w <= tax_caps[i]
                &&& w * (tax_rate.atomics + DECIMAL_FRACTION) <= held.amount * DECIMAL_FRACTION
                &&& w == tax_caps[i] || (w + 1) * (tax_rate.atomics + DECIMAL_FRACTION)
                    > held.amount * DECIMAL_FRACTION
            },
{
    lemma_taxed_coins_within_balances(coins_view(balances), tax_rate, tax_caps);
    let out = taxed_coins(coins_view(balances), tax_rate.atomics as int, tax_caps);
    assert(coins_view(msg.amount@).len() == msg.amount@.len());
    assert forall|i: int| 0 <= i < balances.len() implies {
        let held = balances[i];
        let sent = #[trigger] msg.amount@[i];
        let w = held.amount - sent.amount;
        &&& sent.denom@ == held.denom@
        &&& 0 <= w <= tax_caps[i]
        &&& w * (tax_rate.atomics + DECIMAL_FRACTION) <= held.amount * DECIMAL_FRACTION
        &&& w == tax_caps[i] || (w + 1) * (tax_rate.atomics + DECIMAL_FRACTION)
            > held.amount * DECIMAL_FRACTION
    } by {
        assert(coins_view(msg.amount@)[i] == msg.amount@[i]@);
        assert(coins_view(balances)[i] == balances[i]@);
        assert(out[i] == coins_view(msg.amount@)[i]);
    }
}

/// Setting the contract up does nothing: the answer carries no transfer.
pub fn instantiate() -> (res: Response)
    ensures
        res.messages@.len() == 0,
{
    Response { messages: Vec::new() }
}

/// The contract answers every query with empty data.
pub fn query() -> (res: Vec<u8>)
    ensures
        res@.len() == 0,
{
    Vec::new()
}

/// Sends the contract's `balances` to the burn address, each coin lowered so
/// that the tax on the transfer can be paid; `tax_caps[i]` is the tax cap of
/// `balances[i]`'s denomination.
pub fn send_to_burn_account(balances: Vec<Coin>, tax_rate: TaxRate, tax_caps: Vec<u128>) -> (res:
    Response)
    requires
        balances.len() == 0 || rate_in_range(tax_rate),
        tax_caps.len() == balances.len(),
    ensures
        res.messages@.len() == 1,
        is_burn_transfer(res.messages@[0], balances@, tax_rate, tax_caps@),        res.messages@[0].to_address@ == burn_address_view(),
        res.messages@[0].amount@.len() == balances@.len(),
        forall|i: int|
            0 <= i < balances@.len() ==> {
                let held = balances@[i];
                let sent = #[trigger] res.messages@[0].amount@[i];
                let w = held.amount - sent.amount;
                &&& sent.denom@ == held.denom@
                &&& 0 <= w <= tax_caps@[i]
                &&& w * (tax_rate.atomics + DECIMAL_FRACTION) <= held.amount * DECIMAL_FRACTION
                &&& w == tax_caps@[i] || (w + 1) * (tax_rate.atomics + DECIMAL_FRACTION)
                    > held.amount * DECIMAL_FRACTION
            },
{
    let amount = deduct_tax(balances, tax_rate, tax_caps);
    let send = BankSend { to_address: burn_address(), amount };
    let mut messages: Vec<BankSend> = Vec::new();
    messages.push(send);
    Response { messages }
}

/// Carries out `msg`, given the contract's `balances`, the chain's tax rate and
/// the tax cap of each balance's denomination.
pub fn execute(msg: ExecuteMsg, balances: Vec<Coin>, tax_rate: TaxRate, tax_caps: Vec<u128>) -> (res:
    Response)
    requires
        balances.len() == 0 || rate_in_range(tax_rate),
        tax_caps.len() == balances.len(),
    ensures
        match msg {
            ExecuteMsg::SendToBurnAccount => {
                &&& res.messages@.len() == 1
                &&& is_burn_transfer(res.messages@[0], balances@, tax_rate, tax_caps@)
            },
        },
        msg == ExecuteMsg::SendToBurnAccount ==> res.messages@.len() == 1,
        msg == ExecuteMsg::SendToBurnAccount ==> res.messages@[0].to_address@ == burn_address_view(),
        msg == ExecuteMsg::SendToBurnAccount ==> res.messages@[0].amount@.len() == balances@.len(),
        msg == ExecuteMsg::SendToBurnAccount ==> forall|i: int|
            0 <= i < balances@.len() ==> {
                let held = balances@[i];
                let sent = #[trigger] res.messages@[0].amount@[i];
                let w = held.amount - sent.amount;
                &&& sent.denom@ == held.denom@
                &&& 0 <= w <= tax_caps@[i]
                &&& w * (tax_rate.atomics + DECIMAL_FRACTION) <= held.amount * DECIMAL_FRACTION
                &&& w == tax_caps@[i] || (w + 1) * (tax_rate.atomics + DECIMAL_FRACTION)
                    > held.amount * DECIMAL_FRACTION
            },
{
    match msg {
        ExecuteMsg::SendToBurnAccount => send_to_burn_account(balances, tax_rate, tax_caps),
    }
}

} // verus!
