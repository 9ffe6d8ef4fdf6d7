use std::collections::HashMap;

use lib::gas_transaction_payment::{
    split_credit, Event, LiquidityInfo, PrepaidFee, PrepaidFeeAdapter, SettleEnv, Settlement,
    TransactionValidityError, WithdrawEnv,
};
use lib::prepaid_gas::{Config, Pallet};

const ALICE: u64 = 1;
const BOB: u64 = 2;
const ED: u128 = 1;
/// The fee of a call in the test runtime: one unit of base fee and one unit
/// for its weight, whatever the weight.
const CALL_FEE: u128 = 2;

/// Free balances, as the runtime's balances keep them.
struct Balances {
    free: HashMap<u64, u128>,
}

impl Balances {
    fn free_balance(&self, who: u64) -> u128 {
        *self.free.get(&who).unwrap_or(&0)
    }

    /// Whether `amount` can leave `who` while keeping the account alive.
    fn can_withdraw(&self, who: u64, amount: u128) -> bool {
        self.free_balance(who) >= amount + ED
    }

    fn withdraw(&mut self, who: u64, amount: u128) {
        *self.free.get_mut(&who).unwrap() -= amount;
    }

    fn deposit(&mut self, who: u64, amount: u128) {
        *self.free.entry(who).or_insert(0) += amount;
    }
}

struct Ext {
    tank: Pallet,
    balances: Balances,
}

impl Ext {
    fn gas_account(&self) -> u64 {
        self.tank.account_id()
    }
}

/// Prepaid credit for some accounts, backed by the gas account, and native
/// balances for others.
fn new_test_ext(prepaid: Vec<(u64, u128)>, balances: Vec<(u64, u128)>) -> Ext {
    let mut tank = Pallet::new(Config { pallet_id: *b"py/gas!!", min_purchase: 1 });
    let mut free = HashMap::new();
    let total: u128 = prepaid.iter().map(|(_, a)| *a).sum();
    if total != 0 {
        free.insert(tank.account_id(), total);
    }
    for (who, amount) in balances {
        free.insert(who, amount);
    }
    for (who, amount) in prepaid {
        assert_eq!(tank.purchase_for(who, who, amount, true), Ok(()));
    }
    Ext { tank, balances: Balances { free } }
}

/// Charges a call's fee before it runs and settles it afterwards, the way
/// the transaction-payment extension does.
fn test_run(
    ext: &mut Ext,
    who: u64,
    tip: u128,
    fee: u128,
    actual_fee: Option<u128>,
) -> Result<Settlement, TransactionValidityError> {
    let gas = ext.gas_account();
    let fee_with_tip = fee + tip;
    let inclusion = fee_with_tip.saturating_sub(tip);
    let wenv = WithdrawEnv {
        tip_withdrawable: ext.balances.can_withdraw(who, tip),
        fee_withdrawable: ext.balances.can_withdraw(who, fee_with_tip),
        funding_withdraw_ok: ext.balances.free_balance(gas) >= inclusion,
        tip_withdraw_ok: ext.balances.can_withdraw(who, tip),
        native_withdraw_ok: ext.balances.can_withdraw(who, fee_with_tip),
    };
    PrepaidFeeAdapter::can_withdraw_fee(&ext.tank, who, fee_with_tip, tip, &wenv)?;
    let info = PrepaidFeeAdapter::withdraw_fee(&mut ext.tank, who, fee_with_tip, tip, &wenv)?;
    match info {
        LiquidityInfo::Prepaid { fee_credit, tip_credit, .. } => {
            ext.balances.withdraw(gas, fee_credit);
            if let Some(t) = tip_credit {
                ext.balances.withdraw(who, t);
            }
        }
        LiquidityInfo::Native { fee_credit, tip_credit, .. } => {
            ext.balances.withdraw(who, fee_credit.unwrap_or(0) + tip_credit.unwrap_or(0));
        }
        LiquidityInfo::NoCharge => {}
    }
    let corrected = actual_fee.unwrap_or(fee) + tip;
    let senv = SettleEnv { account_exists: ext.balances.free.contains_key(&who), refund_deposit_ok: true };
    let st = PrepaidFeeAdapter::correct_and_deposit_fee(&mut ext.tank, corrected, tip, info, &senv)?;
    ext.balances.deposit(who, st.refunded_to_payer);
    if st.refunded_to_credit != 0 {
        ext.balances.deposit(gas, st.refunded_to_credit);
    }
    Ok(st)
}

#[test]
fn prepaid_credit_pays_inclusion_fee_without_native_balance() {
    let mut ext = new_test_ext(vec![(ALICE, 5)], Vec::new());
    assert!(test_run(&mut ext, ALICE, 0, CALL_FEE, None).is_ok());
    assert_eq!(ext.tank.remaining_credit(ALICE), 3);
    assert_eq!(ext.balances.free_balance(ext.gas_account()), 3);
    assert_eq!(ext.balances.free_balance(ALICE), 0);
}

#[test]
fn prepaid_credit_refunds_overestimated_fee() {
    let mut ext = new_test_ext(vec![(ALICE, 5)], Vec::new());
    assert!(test_run(&mut ext, ALICE, 0, CALL_FEE, Some(CALL_FEE)).is_ok());
    assert_eq!(ext.tank.remaining_credit(ALICE), 3);
    assert_eq!(ext.balances.free_balance(ext.gas_account()), 3);
}

#[test]
fn falls_back_to_native_transaction_payment() {
    let mut ext = new_test_ext(Vec::new(), vec![(BOB, 3)]);
    assert!(test_run(&mut ext, BOB, 0, CALL_FEE, None).is_ok());
    assert_eq!(ext.balances.free_balance(BOB), 1);
}

#[test]
fn prepaid_pays_fee_and_native_balance_pays_tip() {
    let mut ext = new_test_ext(vec![(ALICE, 5)], vec![(ALICE, 2)]);
    assert!(test_run(&mut ext, ALICE, 1, CALL_FEE, None).is_ok());
    assert_eq!(ext.tank.remaining_credit(ALICE), 3);
    assert_eq!(ext.balances.free_balance(ext.gas_account()), 3);
    assert_eq!(ext.balances.free_balance(ALICE), 1);
}

#[test]
fn fails_when_neither_prepaid_credit_nor_balance_can_pay() {
    let mut ext = new_test_ext(vec![(ALICE, 1)], Vec::new());
    let events_before = ext.tank.event_count();
    assert_eq!(test_run(&mut ext, ALICE, 0, CALL_FEE, None).err(), Some(TransactionValidityError::Payment));
    assert_eq!(ext.tank.remaining_credit(ALICE), 1);
    assert_eq!(ext.tank.event_count(), events_before);
}

#[test]
fn overestimated_prepaid_fee_is_given_back_to_the_credit() {
    let mut ext = new_test_ext(vec![(ALICE, 5)], Vec::new());
    let st = test_run(&mut ext, ALICE, 0, 4, Some(2)).unwrap();
    // The kept fee and the (absent) tip are handed over in two calls.
    assert_eq!(st.fee_handler_calls, vec![vec![2], vec![]]);
    assert_eq!(st.refunded_to_credit, 2);
    assert_eq!(st.event, Some(Event::PrepaidFeePaid { who: ALICE, actual_fee: 2, tip: 0, remaining: 3 }));
    assert_eq!(ext.tank.remaining_credit(ALICE), 3);
    assert_eq!(ext.balances.free_balance(ext.gas_account()), 3);
}

#[test]
fn overestimated_native_fee_is_refunded_to_the_payer() {
    let mut ext = new_test_ext(Vec::new(), vec![(BOB, 10)]);
    let st = test_run(&mut ext, BOB, 1, 4, Some(1)).unwrap();
    // Fee and tip go to the fee handler together, in one call.
    assert_eq!(st.fee_handler_calls, vec![vec![1, 1]]);
    assert_eq!(st.refunded_to_payer, 3);
    assert_eq!(st.event, None);
    assert_eq!(ext.balances.free_balance(BOB), 8);
}

#[test]
fn actual_fee_above_the_charge_costs_no_more_credit() {
    let mut ext = new_test_ext(vec![(ALICE, 5)], Vec::new());
    let st = test_run(&mut ext, ALICE, 0, 2, Some(4)).unwrap();
    assert_eq!(st.fee_handler_calls, vec![vec![2], vec![]]);
    assert_eq!(st.refunded_to_credit, 0);
    assert_eq!(ext.tank.remaining_credit(ALICE), 3);
}

#[test]
fn zero_fee_charges_nothing() {
    let mut ext = new_test_ext(vec![(ALICE, 5)], Vec::new());
    let st = test_run(&mut ext, ALICE, 0, 0, None).unwrap();
    assert!(st.fee_handler_calls.is_empty());
    assert_eq!(st.refunded_to_payer, 0);
    assert_eq!(st.refunded_to_credit, 0);
    assert_eq!(st.event, None);
    assert_eq!(ext.tank.remaining_credit(ALICE), 5);
}

#[test]
fn tip_the_payer_cannot_pay_refuses_the_prepaid_path() {
    let mut ext = new_test_ext(vec![(ALICE, 5)], Vec::new());
    assert_eq!(test_run(&mut ext, ALICE, 1, CALL_FEE, None).err(), Some(TransactionValidityError::Payment));
    assert_eq!(ext.tank.remaining_credit(ALICE), 5);
}

#[test]
fn failed_funding_withdrawal_gives_the_credit_back() {
    let mut tank = Pallet::new(Config { pallet_id: *b"py/gas!!", min_purchase: 1 });
    assert_eq!(tank.purchase_for(ALICE, ALICE, 5, true), Ok(()));
    let env = WithdrawEnv {
        tip_withdrawable: true,
        fee_withdrawable: false,
        funding_withdraw_ok: false,
        tip_withdraw_ok: true,
        native_withdraw_ok: false,
    };
    assert_eq!(
        PrepaidFeeAdapter::withdraw_fee(&mut tank, ALICE, 2, 0, &env),
        Err(TransactionValidityError::Payment)
    );
    assert_eq!(tank.remaining_credit(ALICE), 5);
}

#[test]
fn native_refund_to_a_missing_account_goes_to_the_fee_handler() {
    let env = SettleEnv { account_exists: false, refund_deposit_ok: true };
    let (credits, refunded) = PrepaidFeeAdapter::settle_native_fee(Some(5), 2, Some(1), &env);
    assert_eq!(credits, vec![5, 1]);
    assert_eq!(refunded, 0);
    assert_eq!(PrepaidFeeAdapter::refund_native_fee(2, 3, &env), (5, 0));
    let ok = SettleEnv { account_exists: true, refund_deposit_ok: true };
    assert_eq!(PrepaidFeeAdapter::refund_native_fee(2, 3, &ok), (2, 3));
    assert_eq!(PrepaidFeeAdapter::refund_native_fee(2, 0, &ok), (2, 0));
}

#[test]
fn prepaid_refund_that_cannot_be_deposited_is_kept_as_fee() {
    let mut tank = Pallet::new(Config { pallet_id: *b"py/gas!!", min_purchase: 1 });
    assert_eq!(tank.purchase_for(ALICE, ALICE, 5, true), Ok(()));
    let env = SettleEnv { account_exists: true, refund_deposit_ok: false };
    assert_eq!(PrepaidFeeAdapter::settle_prepaid_fee(&mut tank, ALICE, 4, 4, 1, &env), Ok((4, 0)));
    assert_eq!(tank.remaining_credit(ALICE), 5);
    let ok = SettleEnv { account_exists: true, refund_deposit_ok: true };
    assert_eq!(PrepaidFeeAdapter::settle_prepaid_fee(&mut tank, ALICE, 4, 4, 1, &ok), Ok((1, 3)));
    assert_eq!(tank.remaining_credit(ALICE), 8);
}

#[test]
fn settlement_accounts_for_everything_withdrawn() {
    let mut ext = new_test_ext(vec![(ALICE, 9)], vec![(ALICE, 5)]);
    let st = test_run(&mut ext, ALICE, 2, 6, Some(1)).unwrap();
    assert_eq!(st.fee_handler_calls, vec![vec![1], vec![2]]);
    let handed: u128 = st.fee_handler_calls.iter().flatten().sum();
    assert_eq!(handed + st.refunded_to_payer + st.refunded_to_credit, 6 + 2);
    assert_eq!(ext.tank.remaining_credit(ALICE), 8);
}

#[test]
fn can_withdraw_fee_matches_the_paying_source() {
    let mut tank = Pallet::new(Config { pallet_id: *b"py/gas!!", min_purchase: 1 });
    assert_eq!(tank.purchase_for(ALICE, ALICE, 5, true), Ok(()));
    let poor = WithdrawEnv {
        tip_withdrawable: false,
        fee_withdrawable: false,
        funding_withdraw_ok: true,
        tip_withdraw_ok: false,
        native_withdraw_ok: false,
    };
    assert_eq!(PrepaidFeeAdapter::can_withdraw_fee(&tank, ALICE, 3, 0, &poor), Ok(()));
    assert_eq!(PrepaidFeeAdapter::can_withdraw_fee(&tank, ALICE, 3, 1, &poor), Err(TransactionValidityError::Payment));
    assert_eq!(PrepaidFeeAdapter::can_withdraw_fee(&tank, ALICE, 6, 0, &poor), Err(TransactionValidityError::Payment));
    assert_eq!(PrepaidFeeAdapter::can_withdraw_fee(&tank, BOB, 0, 0, &poor), Ok(()));
    assert_eq!(PrepaidFeeAdapter::withdraw_tip(0, false), Ok(()));
    assert_eq!(PrepaidFeeAdapter::native_credit(0, false), Ok(None));
    assert_eq!(PrepaidFeeAdapter::native_credit(3, true), Ok(Some(3)));
    assert_eq!(PrepaidFeeAdapter::can_withdraw_native(3, false), Err(TransactionValidityError::Payment));
}

#[test]
fn split_gives_the_asked_amount_and_the_rest() {
    assert_eq!(split_credit(5, 2), (2, 3));
    assert_eq!(split_credit(5, 9), (5, 0));
    assert_eq!(LiquidityInfo::default(), LiquidityInfo::NoCharge);
}

#[test]
fn liquidity_debug_text_shows_the_payer_and_hides_the_credits() {
    let native = LiquidityInfo::Native { who: 1, fee_credit: Some(2), tip_credit: None };
    assert_eq!(native.debug_text(), "Native { who: 1 }");
    let prepaid = LiquidityInfo::Prepaid { who: 42, paid_inclusion_fee: 1_234_507, fee_credit: 9, tip_credit: Some(3) };
    assert_eq!(prepaid.debug_text(), "Prepaid { who: 42, paid_inclusion_fee: 1234507 }");
    let zero = LiquidityInfo::Prepaid { who: 10, paid_inclusion_fee: 0, fee_credit: 0, tip_credit: None };
    assert_eq!(zero.debug_text(), "Prepaid { who: 10, paid_inclusion_fee: 0 }");
    assert_eq!(LiquidityInfo::NoCharge.debug_text(), "NoCharge");
    assert_eq!(LiquidityInfo::Native { who: u64::MAX, fee_credit: None, tip_credit: None }.debug_text(),
        format!("Native {{ who: {} }}", u64::MAX));
}

#[test]
fn a_withdrawn_fee_passes_the_dry_check() {
    let mut ext = new_test_ext(vec![(ALICE, 5)], vec![(ALICE, 3), (BOB, 4)]);
    for (who, tip, fee) in [(ALICE, 1, CALL_FEE), (ALICE, 0, 9), (BOB, 1, CALL_FEE), (BOB, 0, 9)] {
        let gas = ext.gas_account();
        let env = WithdrawEnv {
            tip_withdrawable: ext.balances.can_withdraw(who, tip),
            fee_withdrawable: ext.balances.can_withdraw(who, fee + tip),
            funding_withdraw_ok: ext.balances.free_balance(gas) >= fee,
            tip_withdraw_ok: ext.balances.can_withdraw(who, tip),
            native_withdraw_ok: ext.balances.can_withdraw(who, fee + tip),
        };
        let dry = PrepaidFeeAdapter::can_withdraw_fee(&ext.tank, who, fee + tip, tip, &env);
        let real = PrepaidFeeAdapter::withdraw_fee(&mut ext.tank, who, fee + tip, tip, &env);
        if real.is_ok() {
            assert_eq!(dry, Ok(()));
        }
    }
}
