use std::collections::HashMap;

use lib::gas_transaction_payment::{PrepaidFee, TransactionValidityError};
use lib::origin::Origin;
use lib::prepaid_gas::{Config, CurrencyOp, DispatchError, Error, Event, Pallet};

const SPONSOR: u64 = 1;
const BENEFICIARY: u64 = 2;
const ED: u128 = 1;

/// Free balances and provider references, as the runtime's balances keep them.
struct Balances {
    free: HashMap<u64, u128>,
    providers: HashMap<u64, u32>,
}

impl Balances {
    fn new(accounts: &[(u64, u128)]) -> Balances {
        let mut b = Balances { free: HashMap::new(), providers: HashMap::new() };
        for (who, amount) in accounts {
            b.free.insert(*who, *amount);
            b.providers.insert(*who, 1);
        }
        b
    }

    fn free_balance(&self, who: u64) -> u128 {
        *self.free.get(&who).unwrap_or(&0)
    }

    /// Whether `amount` can move out of `who`, keeping it alive.
    fn can_transfer(&self, who: u64, amount: u128) -> bool {
        self.free_balance(who) >= amount + ED
    }

    fn apply(&mut self, op: &CurrencyOp) {
        match *op {
            CurrencyOp::IncProviders { who } => *self.providers.entry(who).or_insert(0) += 1,
            CurrencyOp::Transfer { from, to, amount } => {
                *self.free.get_mut(&from).unwrap() -= amount;
                *self.free.entry(to).or_insert(0) += amount;
            }
        }
    }
}

fn config() -> Config {
    Config { pallet_id: *b"py/gas!!", min_purchase: 1 }
}

/// Runs a purchase the way the runtime does: the balance operations are
/// applied only when the pallet accepts the purchase.
fn purchase(p: &mut Pallet, b: &mut Balances, origin: Origin, beneficiary: u64, amount: u128) -> Result<(), DispatchError> {
    let sponsor = match origin {
        Origin::Signed(who) => who,
        _ => 0,
    };
    let ops = p.purchase_ops(sponsor, amount);
    let transfer_ok = b.can_transfer(sponsor, amount);
    let r = p.purchase(origin, beneficiary, amount, transfer_ok);
    if r.is_ok() {
        for op in &ops {
            b.apply(op);
        }
    }
    r
}

fn new_test_ext() -> (Pallet, Balances) {
    (Pallet::new(config()), Balances::new(&[(SPONSOR, 100)]))
}

#[test]
fn purchase_locks_native_balance_as_prepaid_credit() {
    let (mut p, mut b) = new_test_ext();
    assert_eq!(purchase(&mut p, &mut b, Origin::Signed(SPONSOR), BENEFICIARY, 5), Ok(()));

    assert_eq!(p.remaining_credit(BENEFICIARY), 5);
    assert_eq!(b.free_balance(SPONSOR), 95);
    assert_eq!(b.free_balance(p.account_id()), 5);
}

#[test]
fn prepaid_fee_withdrawal_and_refund_update_credit_only() {
    let (mut p, mut b) = new_test_ext();
    assert_eq!(purchase(&mut p, &mut b, Origin::Signed(SPONSOR), BENEFICIARY, 5), Ok(()));

    assert_eq!(PrepaidFee::withdraw_credit(&mut p, BENEFICIARY, 4), Ok(()));
    assert_eq!(p.remaining_credit(BENEFICIARY), 1);

    assert_eq!(PrepaidFee::refund_credit(&mut p, BENEFICIARY, 2), Ok(()));
    assert_eq!(p.remaining_credit(BENEFICIARY), 3);
    assert_eq!(b.free_balance(BENEFICIARY), 0);
}

#[test]
fn rejects_zero_purchase() {
    let (mut p, mut b) = new_test_ext();
    assert_eq!(
        purchase(&mut p, &mut b, Origin::Signed(SPONSOR), BENEFICIARY, 0),
        Err(DispatchError::Module(Error::PurchaseAmountTooLow))
    );
    assert_eq!(p.remaining_credit(BENEFICIARY), 0);
    assert_eq!(p.event_count(), 0);
    assert_eq!(b.free_balance(SPONSOR), 100);
}

#[test]
fn pallet_account_is_derived_from_the_pallet_id() {
    let p = Pallet::new(config());
    // b"modl" followed by the first four bytes of b"py/gas!!", little-endian.
    assert_eq!(p.account_id(), u64::from_le_bytes(*b"modlpy/g"));
    assert_eq!(PrepaidFee::account_id(&p), p.account_id());
}

#[test]
fn purchase_below_minimum_is_refused() {
    let mut p = Pallet::new(Config { pallet_id: *b"py/gas!!", min_purchase: 10 });
    let mut b = Balances::new(&[(SPONSOR, 100)]);
    assert_eq!(
        purchase(&mut p, &mut b, Origin::Signed(SPONSOR), BENEFICIARY, 9),
        Err(DispatchError::Module(Error::PurchaseAmountTooLow))
    );
    assert_eq!(purchase(&mut p, &mut b, Origin::Signed(SPONSOR), BENEFICIARY, 10), Ok(()));
    assert_eq!(p.remaining_credit(BENEFICIARY), 10);
}

#[test]
fn purchase_the_sponsor_cannot_pay_is_refused() {
    let (mut p, mut b) = new_test_ext();
    // Paying everything would reap the sponsor's account.
    assert_eq!(
        purchase(&mut p, &mut b, Origin::Signed(SPONSOR), BENEFICIARY, 100),
        Err(DispatchError::Module(Error::CannotPurchaseCredit))
    );
    assert_eq!(p.remaining_credit(BENEFICIARY), 0);
    assert_eq!(b.free_balance(SPONSOR), 100);
}

#[test]
fn unsigned_or_root_purchase_is_a_bad_origin() {
    let (mut p, mut b) = new_test_ext();
    assert_eq!(purchase(&mut p, &mut b, Origin::Root, BENEFICIARY, 5), Err(DispatchError::BadOrigin));
    assert_eq!(purchase(&mut p, &mut b, Origin::Unsigned, BENEFICIARY, 5), Err(DispatchError::BadOrigin));
    assert_eq!(p.event_count(), 0);
}

#[test]
fn pallet_account_gets_its_provider_once() {
    let (mut p, mut b) = new_test_ext();
    let first = p.purchase_ops(SPONSOR, 5);
    assert_eq!(first.len(), 2);
    assert_eq!(first[0], CurrencyOp::IncProviders { who: p.account_id() });
    assert_eq!(purchase(&mut p, &mut b, Origin::Signed(SPONSOR), BENEFICIARY, 5), Ok(()));
    let second = p.purchase_ops(SPONSOR, 5);
    assert_eq!(second, vec![CurrencyOp::Transfer { from: SPONSOR, to: p.account_id(), amount: 5 }]);
    assert_eq!(purchase(&mut p, &mut b, Origin::Signed(SPONSOR), BENEFICIARY, 5), Ok(()));
    assert_eq!(*b.providers.get(&p.account_id()).unwrap(), 1);
    assert_eq!(p.remaining_credit(BENEFICIARY), 10);
}

#[test]
fn purchases_and_credit_changes_deposit_events() {
    let (mut p, mut b) = new_test_ext();
    assert_eq!(purchase(&mut p, &mut b, Origin::Signed(SPONSOR), BENEFICIARY, 5), Ok(()));
    assert_eq!(PrepaidFee::withdraw_credit(&mut p, BENEFICIARY, 4), Ok(()));
    assert_eq!(PrepaidFee::refund_credit(&mut p, BENEFICIARY, 2), Ok(()));
    assert_eq!(p.event_count(), 3);
    assert_eq!(
        p.event(0),
        Event::PrepaidPurchased { sponsor: SPONSOR, beneficiary: BENEFICIARY, amount: 5, remaining: 5 }
    );
    assert_eq!(p.event(1), Event::PrepaidFeeWithdrawn { who: BENEFICIARY, amount: 4, remaining: 1 });
    assert_eq!(p.event(2), Event::PrepaidFeeRefunded { who: BENEFICIARY, amount: 2, remaining: 3 });
}

#[test]
fn withdrawing_more_than_the_credit_is_refused() {
    let (mut p, mut b) = new_test_ext();
    assert_eq!(purchase(&mut p, &mut b, Origin::Signed(SPONSOR), BENEFICIARY, 5), Ok(()));
    assert_eq!(PrepaidFee::withdraw_credit(&mut p, BENEFICIARY, 6), Err(TransactionValidityError::Payment));
    assert_eq!(p.remaining_credit(BENEFICIARY), 5);
    assert_eq!(p.event_count(), 1);
}

#[test]
fn zero_withdrawal_and_refund_change_nothing() {
    let (mut p, _b) = new_test_ext();
    assert_eq!(PrepaidFee::withdraw_credit(&mut p, BENEFICIARY, 0), Ok(()));
    assert_eq!(PrepaidFee::refund_credit(&mut p, BENEFICIARY, 0), Ok(()));
    assert_eq!(p.event_count(), 0);
    assert_eq!(PrepaidFee::credit(&p, BENEFICIARY), 0);
}

#[test]
fn refund_restores_withdrawn_credit() {
    let (mut p, mut b) = new_test_ext();
    assert_eq!(purchase(&mut p, &mut b, Origin::Signed(SPONSOR), BENEFICIARY, 7), Ok(()));
    assert_eq!(PrepaidFee::withdraw_credit(&mut p, BENEFICIARY, 7), Ok(()));
    assert_eq!(p.remaining_credit(BENEFICIARY), 0);
    assert_eq!(PrepaidFee::refund_credit(&mut p, BENEFICIARY, 7), Ok(()));
    assert_eq!(p.remaining_credit(BENEFICIARY), 7);
}

#[test]
fn refund_saturates_at_the_largest_balance() {
    let mut p = Pallet::new(config());
    assert_eq!(p.purchase_for(SPONSOR, BENEFICIARY, u128::MAX - 1, true), Ok(()));
    assert_eq!(PrepaidFee::refund_credit(&mut p, BENEFICIARY, 5), Ok(()));
    assert_eq!(p.remaining_credit(BENEFICIARY), u128::MAX);
}
