use send_to_burn_address::contract::{
    burn_address, execute, instantiate, query, send_to_burn_account, BankSend, ExecuteMsg,
};
use send_to_burn_address::tax::{deduct_tax, deduct_tax_from_coin};
use send_to_burn_address::{Coin, TaxRate, DECIMAL_FRACTION};

const BURN: &str = "terra1sk06e3dyexuq4shw77y3dsv480xv42mq73anxu";

fn coin(denom: &str, amount: u128) -> Coin {
    Coin::new(denom.to_string(), amount)
}

/// 0.5%
fn half_percent() -> TaxRate {
    TaxRate::from_atomics(5_000_000_000_000_000)
}

#[test]
fn burn_address_is_fixed() {
    assert_eq!(burn_address(), BURN.to_string());
}

#[test]
fn instantiate_sends_nothing() {
    assert_eq!(instantiate().messages.len(), 0);
}

#[test]
fn query_answers_empty_data() {
    assert_eq!(query(), Vec::<u8>::new());
}

#[test]
fn share_below_cap_is_withheld_whole() {
    // 1_000_000 / 1.005 = 995_024.87..., rounded down
    let out = deduct_tax_from_coin(coin("uusd", 1_000_000), half_percent(), 1_000_000);
    assert_eq!(out, coin("uusd", 4_976));
}

#[test]
fn cap_limits_what_is_withheld() {
    let out = deduct_tax_from_coin(coin("uluna", 1_000_000_000_000), half_percent(), 1_400_000);
    assert_eq!(out, coin("uluna", 999_998_600_000));
}

#[test]
fn zero_rate_withholds_up_to_the_cap() {
    let out = deduct_tax_from_coin(coin("ukrw", 1_000), TaxRate::from_atomics(0), 5);
    assert_eq!(out, coin("ukrw", 995));
}

#[test]
fn full_rate_halves_the_balance() {
    let out = deduct_tax_from_coin(coin("ukrw", 1_000), TaxRate::from_atomics(DECIMAL_FRACTION), 1_000);
    assert_eq!(out, coin("ukrw", 500));
    let odd = deduct_tax_from_coin(coin("ukrw", 7), TaxRate::from_atomics(DECIMAL_FRACTION), 1_000);
    assert_eq!(odd, coin("ukrw", 4));
}

#[test]
fn empty_balance_stays_empty() {
    let out = deduct_tax_from_coin(coin("uusd", 0), half_percent(), 10);
    assert_eq!(out, coin("uusd", 0));
}

#[test]
fn largest_rate_and_amount_do_not_overflow() {
    let rate = TaxRate::from_atomics(u128::MAX - DECIMAL_FRACTION);
    let out = deduct_tax_from_coin(coin("uusd", u128::MAX), rate, u128::MAX);
    assert_eq!(out, coin("uusd", u128::MAX - DECIMAL_FRACTION));
}

#[test]
fn larger_balance_never_sends_less() {
    let rate = half_percent();
    let mut last = 0u128;
    for amount in 0u128..3_000 {
        let out = deduct_tax_from_coin(coin("uusd", amount), rate, 7);
        assert!(out.amount >= last);
        assert!(out.amount <= amount);
        assert!(amount - out.amount <= 7);
        last = out.amount;
    }
}

#[test]
fn deduct_tax_keeps_order_and_denoms() {
    let coins = vec![coin("uusd", 1_000_000), coin("uluna", 1_000_000_000_000), coin("ukrw", 0)];
    let caps = vec![1_000_000, 1_400_000, 10];
    let out = deduct_tax(coins, half_percent(), caps);
    assert_eq!(out, vec![coin("uusd", 4_976), coin("uluna", 999_998_600_000), coin("ukrw", 0)]);
}

#[test]
fn deduct_tax_of_nothing_is_nothing() {
    assert_eq!(deduct_tax(Vec::new(), half_percent(), Vec::new()), Vec::<Coin>::new());
}

#[test]
fn send_to_burn_account_sends_everything_less_tax() {
    let res = send_to_burn_account(vec![coin("uusd", 1_000_000)], half_percent(), vec![1_000_000]);
    assert_eq!(
        res.messages,
        vec![BankSend { to_address: BURN.to_string(), amount: vec![coin("uusd", 4_976)] }]
    );
}

#[test]
fn execute_dispatches_to_the_burn() {
    let balances = vec![coin("uusd", 1_000_000), coin("uluna", 1_000_000_000_000)];
    let caps = vec![1_000_000, 1_400_000];
    let res = execute(ExecuteMsg::SendToBurnAccount, balances.clone(), half_percent(), caps.clone());
    assert_eq!(res, send_to_burn_account(balances, half_percent(), caps));
    assert_eq!(res.messages.len(), 1);
    assert_eq!(res.messages[0].to_address, BURN.to_string());
}

#[test]
fn execute_with_no_balance_sends_an_empty_transfer() {
    let res = execute(ExecuteMsg::SendToBurnAccount, Vec::new(), half_percent(), Vec::new());
    assert_eq!(
        res.messages,
        vec![BankSend { to_address: BURN.to_string(), amount: Vec::new() }]
    );
}
