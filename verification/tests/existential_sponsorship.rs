use std::collections::HashMap;

use lib::existential_sponsorship::pallet::{
    AutoUnlockProbe, ExpiryProbe, GenesisConfig, Pallet,
};
use lib::existential_sponsorship::provider::SponsorshipProvider;
use lib::existential_sponsorship::types::{
    AutoUnlockCondition, AutoUnlockMode, BeneficiaryFunds, Config, CurrencyOp, DispatchError, Error,
    Event, HoldReason, Lease, Origin, RevokeOutcome, SponsorEnv, UnlockReason,
};

const SPONSOR: u64 = 1;
const BENEFICIARY: u64 = 2;
const CALLER: u64 = 3;
const ALT_SPONSOR: u64 = 4;
const LOW_BALANCE_SPONSOR: u64 = 5;
const ED: u128 = 10;

/// A small stand-in for the runtime's balances: free balance, holds by
/// reason, and provider references.
struct Balances {
    free: HashMap<u64, u128>,
    held: HashMap<(u64, u8), u128>,
    providers: HashMap<u64, u32>,
}

fn reason_key(r: HoldReason) -> u8 {
    match r {
        HoldReason::Sponsorship => 0,
        HoldReason::StorageDeposit => 1,
    }
}

impl Balances {
    fn new(accounts: &[(u64, u128)]) -> Balances {
        let mut b = Balances { free: HashMap::new(), held: HashMap::new(), providers: HashMap::new() };
        for (who, amount) in accounts {
            b.force_set_balance(*who, *amount);
        }
        b
    }

    fn force_set_balance(&mut self, who: u64, amount: u128) {
        if amount >= ED {
            self.free.insert(who, amount);
            *self.providers.entry(who).or_insert(0) += 1;
        }
    }

    fn mint_into(&mut self, who: u64, amount: u128) {
        *self.free.entry(who).or_insert(0) += amount;
    }

    fn balance(&self, who: u64) -> u128 {
        *self.free.get(&who).unwrap_or(&0)
    }

    fn on_hold(&self, reason: HoldReason, who: u64) -> u128 {
        *self.held.get(&(who, reason_key(reason))).unwrap_or(&0)
    }

    fn providers(&self, who: u64) -> u32 {
        *self.providers.get(&who).unwrap_or(&0)
    }

    /// Spendable balance when the account must stay alive.
    fn reducible(&self, who: u64) -> u128 {
        self.balance(who).saturating_sub(ED)
    }

    fn apply(&mut self, op: &CurrencyOp) {
        match *op {
            CurrencyOp::IncProviders { who } => *self.providers.entry(who).or_insert(0) += 1,
            CurrencyOp::DecProviders { who } => *self.providers.entry(who).or_insert(0) -= 1,
            CurrencyOp::TransferAndHold { reason, from, to, amount } => {
                *self.free.get_mut(&from).unwrap() -= amount;
                *self.held.entry((to, reason_key(reason))).or_insert(0) += amount;
            }
            CurrencyOp::Hold { reason, who, amount } => {
                *self.free.get_mut(&who).unwrap() -= amount;
                *self.held.entry((who, reason_key(reason))).or_insert(0) += amount;
            }
            CurrencyOp::TransferOnHold { reason, from, to, amount } => {
                *self.held.get_mut(&(from, reason_key(reason))).unwrap() -= amount;
                *self.free.entry(to).or_insert(0) += amount;
            }
            CurrencyOp::Release { reason, who, amount } => {
                *self.held.get_mut(&(who, reason_key(reason))).unwrap() -= amount;
                *self.free.entry(who).or_insert(0) += amount;
            }
        }
    }

    fn env(&self, sponsor: u64, now: u64) -> SponsorEnv {
        SponsorEnv {
            now,
            sponsor_reducible: self.reducible(sponsor),
            sponsor_balance: self.balance(sponsor),
            beneficiary_hold_available: true,
            sponsor_hold_available: true,
            transfer_and_hold_ok: true,
            deposit_hold_ok: true,
        }
    }

    fn funds(&self, who: u64) -> BeneficiaryFunds {
        BeneficiaryFunds { spendable: self.reducible(who), free: self.balance(who) }
    }
}

const REVOKE_OK: RevokeOutcome = RevokeOutcome { transfer_on_hold_ok: true, release_ok: true };

fn config() -> Config {
    Config {
        existential_deposit: ED,
        min_sponsorship: 10,
        sponsor_min_remaining: 25,
        max_total_sponsored_per_sponsor: 1_000,
        max_sponsored_accounts_per_sponsor: 8,
        max_sponsored_amount_per_block: 500,
        max_new_sponsorships_per_block: 2,
        max_lease_duration: 100,
        max_queue_processing_per_block: 8,
        sponsorship_storage_deposit: 5,
    }
}

struct World {
    pallet: Pallet,
    balances: Balances,
    now: u64,
}

fn new_test_ext() -> World {
    World {
        pallet: Pallet::new(config()),
        balances: Balances::new(&[(SPONSOR, 500), (CALLER, 100), (ALT_SPONSOR, 500), (LOW_BALANCE_SPONSOR, 140)]),
        now: 1,
    }
}

impl World {
    fn sponsor(&mut self, who: u64, beneficiary: u64, amount: u128, mode: AutoUnlockMode, lease: Lease) -> Result<(), DispatchError> {
        let env = self.balances.env(who, self.now);
        let ops = self.pallet.sponsor_ops(who, beneficiary, amount);
        let r = self.pallet.sponsor(Origin::Signed(who), beneficiary, amount, mode, lease, &env);
        if r.is_ok() {
            for op in &ops {
                self.balances.apply(op);
            }
        }
        r
    }

    fn sponsor_minimum(&mut self, who: u64, beneficiary: u64) -> Result<(), DispatchError> {
        let env = self.balances.env(who, self.now);
        let amount = self.pallet.minimum_sponsorship();
        let ops = self.pallet.sponsor_ops(who, beneficiary, amount);
        let r = self.pallet.sponsor_minimum(Origin::Signed(who), beneficiary, AutoUnlockMode::Disabled, Lease::Indefinite, &env);
        if r.is_ok() {
            for op in &ops {
                self.balances.apply(op);
            }
        }
        r
    }

    fn unlock(&mut self, who: u64, beneficiary: u64) -> Result<(), DispatchError> {
        let ops = self.pallet.revoke_ops(beneficiary);
        let r = self.pallet.unlock(Origin::Signed(who), beneficiary, REVOKE_OK);
        if r.is_ok() {
            for op in &ops {
                self.balances.apply(op);
            }
        }
        r
    }

    fn refresh(&mut self, who: u64, beneficiary: u64) -> Result<(), DispatchError> {
        let ops = self.pallet.revoke_ops(beneficiary);
        let before = self.pallet.is_sponsored(beneficiary);
        let funds = self.balances.funds(beneficiary);
        let r = self.pallet.refresh(Origin::Signed(who), beneficiary, funds, REVOKE_OK);
        if r.is_ok() && before && !self.pallet.is_sponsored(beneficiary) {
            for op in &ops {
                self.balances.apply(op);
            }
        }
        r
    }

    /// Runs the block-initialization hook: expiries, then the auto-unlock queue.
    fn on_initialize(&mut self, block: u64) -> (u32, u32) {
        let mut round = self.pallet.begin_expiry_round(block);
        loop {
            match self.pallet.expiry_probe(&round) {
                ExpiryProbe::Done => break,
                ExpiryProbe::Skip { .. } => self.pallet.expiry_step(&mut round, REVOKE_OK),
                ExpiryProbe::Revoke { beneficiary } => {
                    let ops = self.pallet.revoke_ops(beneficiary);
                    for op in &ops {
                        self.balances.apply(op);
                    }
                    self.pallet.expiry_step(&mut round, REVOKE_OK);
                }
            }
        }
        let expiries = Pallet::finish_expiry_round(round);
        let mut round = self.pallet.begin_auto_unlock_round();
        loop {
            match self.pallet.auto_unlock_probe(&round) {
                AutoUnlockProbe::Done => break,
                AutoUnlockProbe::Check { beneficiary, condition, amount } => {
                    let funds = self.balances.funds(beneficiary);
                    if Pallet::auto_unlock_condition_met(condition, amount, funds) {
                        let ops = self.pallet.revoke_ops(beneficiary);
                        for op in &ops {
                            self.balances.apply(op);
                        }
                    }
                    self.pallet.auto_unlock_step(&mut round, funds, REVOKE_OK);
                }
                _ => self.pallet.auto_unlock_step(&mut round, BeneficiaryFunds { spendable: 0, free: 0 }, REVOKE_OK),
            }
        }
        let unlocks = self.pallet.finish_auto_unlock_round(round);
        (expiries, unlocks)
    }
}

#[test]
fn sponsor_places_funds_on_hold_for_the_beneficiary() {
    let mut w = new_test_ext();
    assert_eq!(w.sponsor(SPONSOR, BENEFICIARY, 50, AutoUnlockMode::Disabled, Lease::Indefinite), Ok(()));

    let record = w.pallet.sponsorship(BENEFICIARY).expect("record exists");
    assert_eq!(record.sponsor, SPONSOR);
    assert_eq!(record.amount, 50);
    assert_eq!(w.balances.balance(SPONSOR), 445);
    assert_eq!(w.balances.on_hold(HoldReason::Sponsorship, BENEFICIARY), 50);
    assert_eq!(w.balances.on_hold(HoldReason::StorageDeposit, SPONSOR), 5);

    let ledger = w.pallet.sponsor_ledger(SPONSOR);
    assert_eq!(ledger.active_amount, 50);
    assert_eq!(ledger.active_count, 1);
}

#[test]
fn sponsor_keeps_a_zero_balance_beneficiary_alive_across_blocks() {
    let mut w = new_test_ext();
    let dust_account = 42;

    assert_eq!(w.balances.providers(BENEFICIARY), 0);
    assert_eq!(w.sponsor(SPONSOR, BENEFICIARY, 20, AutoUnlockMode::Disabled, Lease::Indefinite), Ok(()));
    w.balances.force_set_balance(dust_account, 9);

    for block in 2..=25 {
        w.now = block;
        let _ = w.on_initialize(block);
    }

    assert_eq!(w.balances.providers(BENEFICIARY), 1);
    assert_eq!(w.balances.balance(BENEFICIARY), 0);
    assert_eq!(w.balances.on_hold(HoldReason::Sponsorship, BENEFICIARY), 20);
    assert_eq!(w.balances.providers(dust_account), 0);
    assert!(w.pallet.is_sponsored(BENEFICIARY));
}

#[test]
fn sponsor_minimum_keeps_a_zero_balance_beneficiary_alive_across_blocks() {
    let mut w = new_test_ext();
    let minimum_beneficiary = 43;
    let dust_account = 44;

    assert_eq!(w.balances.providers(minimum_beneficiary), 0);
    assert_eq!(w.sponsor_minimum(SPONSOR, minimum_beneficiary), Ok(()));
    w.balances.force_set_balance(dust_account, 9);

    for block in 2..=25 {
        w.now = block;
        let _ = w.on_initialize(block);
    }

    assert_eq!(w.balances.providers(minimum_beneficiary), 1);
    assert_eq!(w.balances.balance(minimum_beneficiary), 0);
    assert_eq!(w.balances.on_hold(HoldReason::Sponsorship, minimum_beneficiary), 10);
    assert_eq!(w.balances.providers(dust_account), 0);
}

#[test]
fn unlock_returns_the_sponsored_funds_to_the_sponsor() {
    let mut w = new_test_ext();
    assert_eq!(w.sponsor(SPONSOR, BENEFICIARY, 50, AutoUnlockMode::Disabled, Lease::Indefinite), Ok(()));
    assert_eq!(w.unlock(SPONSOR, BENEFICIARY), Ok(()));

    assert!(!w.pallet.is_sponsored(BENEFICIARY));
    assert_eq!(w.balances.balance(SPONSOR), 500);
    assert_eq!(w.balances.on_hold(HoldReason::Sponsorship, BENEFICIARY), 0);
    assert_eq!(w.balances.on_hold(HoldReason::StorageDeposit, SPONSOR), 0);
    let last = w.pallet.event(w.pallet.event_count() - 1);
    assert_eq!(
        last,
        Event::Unlocked { sponsor: SPONSOR, beneficiary: BENEFICIARY, amount: 50, reason: UnlockReason::Manual }
    );
}

#[test]
fn rejects_a_second_active_sponsorship_for_the_same_beneficiary() {
    let mut w = new_test_ext();
    assert_eq!(w.sponsor(SPONSOR, BENEFICIARY, 20, AutoUnlockMode::Disabled, Lease::Indefinite), Ok(()));

    let events_before = w.pallet.event_count();
    let ledger_before = w.pallet.sponsor_ledger(ALT_SPONSOR);
    assert_eq!(
        w.sponsor(ALT_SPONSOR, BENEFICIARY, 20, AutoUnlockMode::Disabled, Lease::Indefinite),
        Err(DispatchError::Module(Error::AlreadySponsored))
    );
    assert_eq!(w.pallet.event_count(), events_before);
    assert_eq!(w.pallet.sponsor_ledger(ALT_SPONSOR), ledger_before);
    assert_eq!(w.pallet.sponsorship(BENEFICIARY).unwrap().sponsor, SPONSOR);
}

#[test]
fn enforces_the_sponsor_minimum_remaining_balance_rule() {
    let mut w = new_test_ext();
    assert_eq!(
        w.sponsor(LOW_BALANCE_SPONSOR, BENEFICIARY, 120, AutoUnlockMode::Disabled, Lease::Indefinite),
        Err(DispatchError::Module(Error::SponsorMinRemainingViolation))
    );
    assert!(!w.pallet.is_sponsored(BENEFICIARY));
}

#[test]
fn refresh_auto_unlocks_when_the_beneficiary_has_enough_free_balance() {
    let mut w = new_test_ext();
    assert_eq!(
        w.sponsor(
            SPONSOR,
            BENEFICIARY,
            50,
            AutoUnlockMode::Enabled(AutoUnlockCondition::FreeGeSponsored),
            Lease::Indefinite,
        ),
        Ok(())
    );

    w.balances.mint_into(BENEFICIARY, 50);
    assert_eq!(w.refresh(CALLER, BENEFICIARY), Ok(()));

    assert!(!w.pallet.is_sponsored(BENEFICIARY));
    assert_eq!(w.balances.balance(BENEFICIARY), 50);
    assert_eq!(w.balances.balance(SPONSOR), 500);
}

#[test]
fn expiring_sponsorships_are_reclaimed_in_on_initialize() {
    let mut w = new_test_ext();
    assert_eq!(w.sponsor(SPONSOR, BENEFICIARY, 25, AutoUnlockMode::Disabled, Lease::Until(2)), Ok(()));

    w.now = 2;
    let _weight = w.on_initialize(2);

    assert!(!w.pallet.is_sponsored(BENEFICIARY));
    assert_eq!(w.balances.balance(SPONSOR), 500);
}

#[test]
fn enforces_the_per_block_creation_count_cap() {
    let mut w = new_test_ext();
    assert_eq!(w.sponsor(SPONSOR, BENEFICIARY, 10, AutoUnlockMode::Disabled, Lease::Indefinite), Ok(()));
    assert_eq!(w.sponsor(SPONSOR, 6, 10, AutoUnlockMode::Disabled, Lease::Indefinite), Ok(()));

    assert_eq!(
        w.sponsor(SPONSOR, 7, 10, AutoUnlockMode::Disabled, Lease::Indefinite),
        Err(DispatchError::Module(Error::SponsorPerBlockCountExceeded))
    );
}

#[test]
fn provider_trait_exposes_state() {
    let mut w = new_test_ext();
    assert_eq!(w.sponsor(SPONSOR, BENEFICIARY, 10, AutoUnlockMode::Disabled, Lease::Indefinite), Ok(()));

    let view = SponsorshipProvider::sponsorship_of(&w.pallet, BENEFICIARY).expect("view exists");
    assert_eq!(view.sponsor, SPONSOR);
    assert_eq!(SponsorshipProvider::sponsored_amount(&w.pallet, BENEFICIARY), 10);
}
