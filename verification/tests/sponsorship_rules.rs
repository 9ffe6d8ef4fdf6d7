use lib::existential_sponsorship::pallet::{AutoUnlockProbe, ExpiryProbe, GenesisConfig, Pallet};
use lib::existential_sponsorship::provider::SponsorshipProvider;
use lib::existential_sponsorship::types::{
    AutoUnlockCondition, AutoUnlockMode, BeneficiaryFunds, Config, CurrencyOp, DispatchError, Error,
    Event, HoldReason, Lease, Origin, RevokeOutcome, SponsorEnv, UnlockReason,
};

const S: u64 = 1;
const B: u64 = 2;

fn config() -> Config {
    Config {
        existential_deposit: 10,
        min_sponsorship: 10,
        sponsor_min_remaining: 25,
        max_total_sponsored_per_sponsor: 1_000,
        max_sponsored_accounts_per_sponsor: 3,
        max_sponsored_amount_per_block: 500,
        max_new_sponsorships_per_block: 2,
        max_lease_duration: 100,
        max_queue_processing_per_block: 2,
        sponsorship_storage_deposit: 5,
    }
}

fn env(now: u64) -> SponsorEnv {
    SponsorEnv {
        now,
        sponsor_reducible: 10_000,
        sponsor_balance: 10_000,
        beneficiary_hold_available: true,
        sponsor_hold_available: true,
        transfer_and_hold_ok: true,
        deposit_hold_ok: true,
    }
}

const OK: RevokeOutcome = RevokeOutcome { transfer_on_hold_ok: true, release_ok: true };
const NO_FUNDS: BeneficiaryFunds = BeneficiaryFunds { spendable: 0, free: 0 };

fn sponsor(p: &mut Pallet, s: u64, b: u64, amount: u128, mode: AutoUnlockMode, lease: Lease, e: &SponsorEnv) -> Result<(), DispatchError> {
    p.sponsor(Origin::Signed(s), b, amount, mode, lease, e)
}

#[test]
fn sponsorship_errors_follow_the_check_order() {
    let mut p = Pallet::new(config());
    let e = env(10);
    let m = AutoUnlockMode::Disabled;
    let err = |x: Error| Err(DispatchError::Module(x));
    assert_eq!(p.sponsor(Origin::Root, B, 50, m, Lease::Indefinite, &e), Err(DispatchError::BadOrigin));
    assert_eq!(p.sponsor(Origin::Unsigned, B, 50, m, Lease::Indefinite, &e), Err(DispatchError::BadOrigin));
    assert_eq!(sponsor(&mut p, S, B, 9, m, Lease::Indefinite, &e), err(Error::AmountTooLow));
    assert_eq!(sponsor(&mut p, S, B, 50, m, Lease::Until(9), &e), err(Error::LeaseInPast));
    assert_eq!(sponsor(&mut p, S, B, 50, m, Lease::Until(111), &e), err(Error::LeaseTooLong));
    assert_eq!(sponsor(&mut p, S, B, 1_001, m, Lease::Indefinite, &e), err(Error::SponsorCapExceeded));
    assert_eq!(sponsor(&mut p, S, B, 501, m, Lease::Indefinite, &e), err(Error::SponsorPerBlockCapExceeded));

    let mut short = e;
    short.sponsor_reducible = 54;
    assert_eq!(sponsor(&mut p, S, B, 50, m, Lease::Indefinite, &short), err(Error::SponsorMinRemainingViolation));
    let mut poor = e;
    poor.sponsor_balance = 79;
    assert_eq!(sponsor(&mut p, S, B, 50, m, Lease::Indefinite, &poor), err(Error::SponsorMinRemainingViolation));
    let mut no_hold = e;
    no_hold.beneficiary_hold_available = false;
    assert_eq!(sponsor(&mut p, S, B, 50, m, Lease::Indefinite, &no_hold), err(Error::HoldUnavailable));
    let mut no_deposit_hold = e;
    no_deposit_hold.sponsor_hold_available = false;
    assert_eq!(sponsor(&mut p, S, B, 50, m, Lease::Indefinite, &no_deposit_hold), err(Error::HoldUnavailable));
    let mut failed_transfer = e;
    failed_transfer.transfer_and_hold_ok = false;
    assert_eq!(sponsor(&mut p, S, B, 50, m, Lease::Indefinite, &failed_transfer), err(Error::CannotTransferAndHold));
    let mut failed_deposit = e;
    failed_deposit.deposit_hold_ok = false;
    assert_eq!(sponsor(&mut p, S, B, 50, m, Lease::Indefinite, &failed_deposit), err(Error::StorageDepositFailed));

    // Nothing of the refused attempts was stored.
    assert!(!p.is_sponsored(B));
    assert_eq!(p.event_count(), 0);
    assert_eq!(p.sponsor_ledger(S).active_amount, 0);

    // The lease may end exactly now or exactly at the longest duration.
    assert_eq!(sponsor(&mut p, S, B, 50, m, Lease::Until(10), &e), Ok(()));
    assert_eq!(sponsor(&mut p, S, 3, 50, m, Lease::Until(110), &e), Ok(()));
}

#[test]
fn per_sponsor_count_cap_and_block_reset() {
    let mut p = Pallet::new(config());
    let m = AutoUnlockMode::Disabled;
    assert_eq!(sponsor(&mut p, S, 10, 10, m, Lease::Indefinite, &env(1)), Ok(()));
    assert_eq!(sponsor(&mut p, S, 11, 10, m, Lease::Indefinite, &env(1)), Ok(()));
    // The per-block counters start afresh in a new block.
    assert_eq!(sponsor(&mut p, S, 12, 10, m, Lease::Indefinite, &env(2)), Ok(()));
    let l = p.sponsor_ledger(S);
    assert_eq!((l.active_amount, l.active_count, l.last_block), (30, 3, 2));
    assert_eq!((l.sponsored_amount_in_block, l.new_sponsorships_in_block), (10, 1));
    assert_eq!(
        sponsor(&mut p, S, 13, 10, m, Lease::Indefinite, &env(3)),
        Err(DispatchError::Module(Error::SponsorCountCapExceeded))
    );
}

#[test]
fn full_expiry_bucket_and_queue_refuse_new_entries() {
    let mut p = Pallet::new(config());
    let e = env(1);
    let auto = AutoUnlockMode::Enabled(AutoUnlockCondition::FreeGeSponsored);
    assert_eq!(sponsor(&mut p, S, 10, 10, AutoUnlockMode::Disabled, Lease::Until(50), &e), Ok(()));
    assert_eq!(sponsor(&mut p, S, 11, 10, AutoUnlockMode::Disabled, Lease::Until(50), &e), Ok(()));
    assert_eq!(p.expirations(50), vec![10, 11]);
    assert_eq!(
        sponsor(&mut p, 7, 12, 10, AutoUnlockMode::Disabled, Lease::Until(50), &e),
        Err(DispatchError::Module(Error::QueueFull))
    );
    assert_eq!(sponsor(&mut p, 7, 12, 10, auto, Lease::Indefinite, &e), Ok(()));
    assert_eq!(sponsor(&mut p, 7, 13, 10, auto, Lease::Indefinite, &e), Ok(()));
    assert_eq!(p.auto_unlock_queue(), vec![12, 13]);
    assert_eq!(
        sponsor(&mut p, 8, 14, 10, auto, Lease::Indefinite, &e),
        Err(DispatchError::Module(Error::QueueFull))
    );
    assert!(!p.is_sponsored(14));
}

#[test]
fn unlock_checks_the_caller_and_the_currency() {
    let mut p = Pallet::new(config());
    assert_eq!(sponsor(&mut p, S, B, 50, AutoUnlockMode::Disabled, Lease::Until(20), &env(1)), Ok(()));
    assert_eq!(p.unlock(Origin::Signed(S), 99, OK), Err(DispatchError::Module(Error::NotSponsored)));
    assert_eq!(p.unlock(Origin::Signed(7), B, OK), Err(DispatchError::Module(Error::NotSponsor)));
    // The beneficiary itself cannot take the sponsored funds back.
    assert_eq!(p.unlock(Origin::Signed(B), B, OK), Err(DispatchError::Module(Error::NotSponsor)));
    assert_eq!(p.unlock(Origin::Root, B, OK), Err(DispatchError::BadOrigin));
    assert_eq!(p.unlock(Origin::Unsigned, B, OK), Err(DispatchError::BadOrigin));
    let no_transfer = RevokeOutcome { transfer_on_hold_ok: false, release_ok: true };
    assert_eq!(p.unlock(Origin::Signed(S), B, no_transfer), Err(DispatchError::Module(Error::CannotTransferOnHold)));
    let no_release = RevokeOutcome { transfer_on_hold_ok: true, release_ok: false };
    assert_eq!(p.unlock(Origin::Signed(S), B, no_release), Err(DispatchError::Module(Error::StorageDepositFailed)));
    assert!(p.is_sponsored(B));
    assert_eq!(p.storage_deposit_held(B), 5);
    assert_eq!(p.expirations(20), vec![B]);

    assert_eq!(p.force_unlock(Origin::Signed(S), B, OK), Err(DispatchError::BadOrigin));
    assert_eq!(p.force_unlock(Origin::Root, B, OK), Ok(()));
    assert!(!p.is_sponsored(B));
    assert_eq!(p.storage_deposit_held(B), 0);
    assert_eq!(p.expirations(20), Vec::<u64>::new());
    assert_eq!(
        p.event(p.event_count() - 1),
        Event::Unlocked { sponsor: S, beneficiary: B, amount: 50, reason: UnlockReason::Force }
    );
}

#[test]
fn sponsor_then_unlock_restores_the_sponsor_and_mirrors_the_operations() {
    let mut p = Pallet::new(config());
    let before = p.sponsor_ledger(S);
    let sponsor_ops = p.sponsor_ops(S, B, 40);
    assert_eq!(
        sponsor_ops,
        vec![
            CurrencyOp::IncProviders { who: B },
            CurrencyOp::TransferAndHold { reason: HoldReason::Sponsorship, from: S, to: B, amount: 40 },
            CurrencyOp::Hold { reason: HoldReason::StorageDeposit, who: S, amount: 5 },
        ]
    );
    assert_eq!(sponsor(&mut p, S, B, 40, AutoUnlockMode::Disabled, Lease::Indefinite, &env(1)), Ok(()));
    assert_eq!(
        p.revoke_ops(B),
        vec![
            CurrencyOp::TransferOnHold { reason: HoldReason::Sponsorship, from: B, to: S, amount: 40 },
            CurrencyOp::Release { reason: HoldReason::StorageDeposit, who: S, amount: 5 },
            CurrencyOp::DecProviders { who: B },
        ]
    );
    assert_eq!(p.unlock(Origin::Signed(S), B, OK), Ok(()));
    let after = p.sponsor_ledger(S);
    assert_eq!(after.active_amount, before.active_amount);
    assert_eq!(after.active_count, before.active_count);
    assert_eq!(p.sponsorship(B), None);
    assert_eq!(p.revoke_ops(B), Vec::new());
}

#[test]
fn set_policy_moves_the_expiry_and_queues_auto_unlock() {
    let mut p = Pallet::new(config());
    assert_eq!(sponsor(&mut p, S, B, 50, AutoUnlockMode::Disabled, Lease::Until(20), &env(1)), Ok(()));
    let auto = AutoUnlockMode::Enabled(AutoUnlockCondition::SpendableGeSponsored);
    assert_eq!(p.set_policy(Origin::Signed(7), B, auto, Lease::Until(30), 1), Err(DispatchError::Module(Error::NotSponsor)));
    assert_eq!(p.set_policy(Origin::Signed(S), 9, auto, Lease::Until(30), 1), Err(DispatchError::Module(Error::NotSponsored)));
    assert_eq!(p.set_policy(Origin::Signed(S), B, auto, Lease::Until(200), 1), Err(DispatchError::Module(Error::LeaseTooLong)));
    assert_eq!(p.set_policy(Origin::Root, B, auto, Lease::Until(30), 1), Err(DispatchError::BadOrigin));
    assert_eq!(p.set_policy(Origin::Signed(S), B, auto, Lease::Until(30), 1), Ok(()));
    assert_eq!(p.expirations(20), Vec::<u64>::new());
    assert_eq!(p.expirations(30), vec![B]);
    assert_eq!(p.auto_unlock_queue(), vec![B]);
    let r = p.sponsorship(B).unwrap();
    assert_eq!((r.sponsor, r.amount, r.auto_unlock, r.lease, r.created_at), (S, 50, auto, Lease::Until(30), 1));
    assert_eq!(
        p.event(p.event_count() - 1),
        Event::PolicyUpdated { sponsor: S, beneficiary: B, auto_unlock: auto, lease: Lease::Until(30) }
    );
    // The ledger is untouched by a policy change.
    assert_eq!(p.sponsor_ledger(S).active_amount, 50);
}

#[test]
fn auto_unlock_pass_unlocks_met_conditions_and_keeps_the_rest() {
    let mut p = Pallet::new(config());
    let e = env(1);
    let free = AutoUnlockMode::Enabled(AutoUnlockCondition::FreeGeSponsored);
    assert_eq!(sponsor(&mut p, S, 10, 20, free, Lease::Indefinite, &e), Ok(()));
    assert_eq!(sponsor(&mut p, S, 11, 30, free, Lease::Indefinite, &e), Ok(()));
    let mut round = p.begin_auto_unlock_round();
    assert_eq!(p.auto_unlock_queue(), Vec::<u64>::new());
    assert_eq!(
        p.auto_unlock_probe(&round),
        AutoUnlockProbe::Check { beneficiary: 10, condition: AutoUnlockCondition::FreeGeSponsored, amount: 20 }
    );
    // Beneficiary 10 now owns 20 of its own: unlocked.
    p.auto_unlock_step(&mut round, BeneficiaryFunds { spendable: 10, free: 20 }, OK);
    // Beneficiary 11 owns 29 < 30: kept.
    p.auto_unlock_step(&mut round, BeneficiaryFunds { spendable: 19, free: 29 }, OK);
    assert_eq!(p.auto_unlock_probe(&round), AutoUnlockProbe::Done);
    assert!(round.is_done());
    assert_eq!(p.finish_auto_unlock_round(round), 2);
    assert!(!p.is_sponsored(10));
    assert!(p.is_sponsored(11));
    assert_eq!(p.auto_unlock_queue(), vec![11]);
    assert_eq!(
        p.event(p.event_count() - 1),
        Event::AutoUnlocked { sponsor: S, beneficiary: 10, amount: 20, condition: AutoUnlockCondition::FreeGeSponsored }
    );
    assert_eq!(p.sponsor_ledger(S).active_amount, 30);
}

#[test]
fn auto_unlock_pass_drops_disabled_and_requeues_failed_revocations() {
    let mut p = Pallet::new(config());
    let e = env(1);
    let spendable = AutoUnlockMode::Enabled(AutoUnlockCondition::SpendableGeSponsored);
    assert_eq!(sponsor(&mut p, S, 10, 20, spendable, Lease::Indefinite, &e), Ok(()));
    assert_eq!(sponsor(&mut p, S, 11, 20, spendable, Lease::Indefinite, &e), Ok(()));
    assert_eq!(p.set_policy(Origin::Signed(S), 10, AutoUnlockMode::Disabled, Lease::Indefinite, 1), Ok(()));
    let mut round = p.begin_auto_unlock_round();
    assert_eq!(p.auto_unlock_probe(&round), AutoUnlockProbe::Drop { beneficiary: 10 });
    p.auto_unlock_step(&mut round, NO_FUNDS, OK);
    let failing = RevokeOutcome { transfer_on_hold_ok: false, release_ok: true };
    p.auto_unlock_step(&mut round, BeneficiaryFunds { spendable: 20, free: 40 }, failing);
    assert_eq!(p.finish_auto_unlock_round(round), 2);
    assert_eq!(p.auto_unlock_queue(), vec![11]);
    assert!(p.is_sponsored(11));
}

#[test]
fn expiry_pass_skips_moved_leases() {
    let mut p = Pallet::new(config());
    let e = env(1);
    assert_eq!(sponsor(&mut p, S, 10, 20, AutoUnlockMode::Disabled, Lease::Until(5), &e), Ok(()));
    assert_eq!(sponsor(&mut p, S, 11, 20, AutoUnlockMode::Disabled, Lease::Until(5), &e), Ok(()));
    let mut round = p.begin_expiry_round(5);
    assert_eq!(p.expirations(5), Vec::<u64>::new());
    assert_eq!(p.expiry_probe(&round), ExpiryProbe::Revoke { beneficiary: 10 });
    p.expiry_step(&mut round, OK);
    // A revocation that fails leaves the sponsorship in place.
    assert_eq!(p.expiry_probe(&round), ExpiryProbe::Revoke { beneficiary: 11 });
    p.expiry_step(&mut round, RevokeOutcome { transfer_on_hold_ok: false, release_ok: true });
    assert_eq!(p.expiry_probe(&round), ExpiryProbe::Done);
    assert_eq!(Pallet::finish_expiry_round(round), 2);
    assert!(!p.is_sponsored(10));
    assert!(p.is_sponsored(11));
    assert_eq!(p.event(p.event_count() - 1), Event::Expired { sponsor: S, beneficiary: 10, amount: 20 });
    // The kept sponsorship is no longer listed for expiry: only its sponsor
    // (or the force origin) can end it now.
    assert_eq!(p.expirations(5), Vec::<u64>::new());
    assert_eq!(p.sponsorship(11).unwrap().lease, Lease::Until(5));
    assert_eq!(p.unlock(Origin::Signed(S), 11, OK), Ok(()));
}

#[test]
fn leased_sponsorships_are_listed_in_the_bucket_of_their_last_block() {
    let mut p = Pallet::new(config());
    let e = env(1);
    assert_eq!(sponsor(&mut p, S, 10, 20, AutoUnlockMode::Disabled, Lease::Until(7), &e), Ok(()));
    assert_eq!(sponsor(&mut p, S, 11, 20, AutoUnlockMode::Disabled, Lease::Indefinite, &e), Ok(()));
    assert_eq!(p.expirations(7), vec![10]);
    // Moving the lease moves the entry.
    assert_eq!(p.set_policy(Origin::Signed(S), 10, AutoUnlockMode::Disabled, Lease::Until(9), 1), Ok(()));
    assert_eq!(p.expirations(7), Vec::<u64>::new());
    assert_eq!(p.expirations(9), vec![10]);
    assert_eq!(p.set_policy(Origin::Signed(S), 11, AutoUnlockMode::Disabled, Lease::Until(9), 1), Ok(()));
    assert_eq!(p.expirations(9), vec![10, 11]);
    // Ending a sponsorship removes its entry.
    assert_eq!(p.unlock(Origin::Signed(S), 10, OK), Ok(()));
    assert_eq!(p.expirations(9), vec![11]);
}

#[test]
fn refresh_and_try_auto_unlock_report_their_decisions() {
    let mut p = Pallet::new(config());
    assert_eq!(p.refresh(Origin::Signed(3), B, NO_FUNDS, OK), Err(DispatchError::Module(Error::NotSponsored)));
    assert_eq!(p.refresh(Origin::Root, B, NO_FUNDS, OK), Err(DispatchError::BadOrigin));
    assert_eq!(sponsor(&mut p, S, B, 50, AutoUnlockMode::Disabled, Lease::Indefinite, &env(1)), Ok(()));
    // Disabled: nothing happens.
    assert_eq!(p.try_auto_unlock_internal(B, BeneficiaryFunds { spendable: 100, free: 100 }, OK, true), Ok(false));
    let spendable = AutoUnlockMode::Enabled(AutoUnlockCondition::SpendableGeSponsored);
    assert_eq!(p.set_policy(Origin::Signed(S), B, spendable, Lease::Indefinite, 1), Ok(()));
    assert_eq!(p.try_auto_unlock_internal(B, BeneficiaryFunds { spendable: 49, free: 100 }, OK, true), Ok(false));
    assert_eq!(p.try_auto_unlock(B, BeneficiaryFunds { spendable: 50, free: 50 }, OK), Ok(()));
    assert!(!p.is_sponsored(B));
}

#[test]
fn provider_functions_describe_and_change_sponsorships() {
    let mut p = Pallet::new(config());
    assert_eq!(p.sponsor_of(B), None);
    assert_eq!(p.sponsored_amount(B), 0);
    assert_eq!(p.create_sponsorship(S, B, 20, AutoUnlockMode::Disabled, Lease::Until(9), &env(4)), Ok(()));
    let view = p.sponsorship_of(B).unwrap();
    assert_eq!((view.sponsor, view.beneficiary, view.amount, view.lease, view.created_at), (S, B, 20, Lease::Until(9), 4));
    assert_eq!(p.sponsor_of(B), Some(S));
    assert_eq!(p.unlock_sponsorship(7, B, OK), Err(Error::NotSponsor));
    assert_eq!(p.unlock_sponsorship(S, B, OK), Ok(()));
    assert!(!p.is_sponsored(B));
}

#[test]
fn minimum_sponsorship_is_never_below_the_existential_deposit() {
    let mut c = config();
    c.min_sponsorship = 3;
    c.existential_deposit = 7;
    assert_eq!(Pallet::new(c).minimum_sponsorship(), 7);
    c.min_sponsorship = 12;
    assert_eq!(Pallet::new(c).minimum_sponsorship(), 12);
}

#[test]
fn zero_storage_deposit_is_not_held() {
    let mut c = config();
    c.sponsorship_storage_deposit = 0;
    let mut p = Pallet::new(c);
    assert_eq!(p.sponsor_ops(S, B, 10).len(), 2);
    let mut e = env(1);
    e.sponsor_hold_available = false;
    e.deposit_hold_ok = false;
    assert_eq!(sponsor(&mut p, S, B, 10, AutoUnlockMode::Disabled, Lease::Indefinite, &e), Ok(()));
    assert_eq!(p.storage_deposit_held(B), 0);
    assert_eq!(p.revoke_ops(B).len(), 2);
}

#[test]
fn genesis_builds_configured_sponsorships_without_events() {
    let mut p = Pallet::new(config());
    let g = GenesisConfig {
        initial_sponsorships: vec![
            (S, 10, 20, AutoUnlockMode::Disabled, Lease::Indefinite),
            (S, 11, 30, AutoUnlockMode::Disabled, Lease::Until(40)),
        ],
    };
    g.build(&mut p, &vec![env(0), env(0)]);
    assert_eq!(p.sponsored_amount(10), 20);
    assert_eq!(p.expirations(40), vec![11]);
    assert_eq!(p.event_count(), 0);
    assert_eq!(p.sponsor_ledger(S).active_amount, 50);

    assert_eq!(GenesisConfig::default().initial_sponsorships.len(), 0);
}

#[test]
fn provider_trait_creates_and_ends_sponsorships() {
    let mut p = Pallet::new(config());
    assert!(!SponsorshipProvider::is_sponsored(&p, B));
    assert_eq!(SponsorshipProvider::sponsorship_of(&p, B), None);
    assert_eq!(
        SponsorshipProvider::create_sponsorship(&mut p, S, B, 20, AutoUnlockMode::Disabled, Lease::Indefinite, &env(2)),
        Ok(())
    );
    assert_eq!(
        SponsorshipProvider::create_sponsorship(&mut p, 9, B, 20, AutoUnlockMode::Disabled, Lease::Indefinite, &env(2)),
        Err(Error::AlreadySponsored)
    );
    assert_eq!(SponsorshipProvider::sponsor_of(&p, B), Some(S));
    assert_eq!(SponsorshipProvider::sponsored_amount(&p, B), 20);
    assert_eq!(SponsorshipProvider::try_auto_unlock(&mut p, B, NO_FUNDS, OK), Ok(()));
    assert!(SponsorshipProvider::is_sponsored(&p, B));
    assert_eq!(SponsorshipProvider::unlock_sponsorship(&mut p, 9, B, OK), Err(Error::NotSponsor));
    assert_eq!(SponsorshipProvider::unlock_sponsorship(&mut p, S, B, OK), Ok(()));
    assert_eq!(SponsorshipProvider::unlock_sponsorship(&mut p, S, B, OK), Err(Error::NotSponsored));
    assert_eq!(SponsorshipProvider::try_auto_unlock(&mut p, B, NO_FUNDS, OK), Err(Error::NotSponsored));
}

#[test]
fn auto_unlock_queue_holds_each_beneficiary_once_and_refuses_when_full() {
    let mut c = config();
    c.max_queue_processing_per_block = 2;
    let mut p = Pallet::new(c);
    assert_eq!(p.enqueue_auto_unlock(10), Ok(()));
    assert_eq!(p.enqueue_auto_unlock(10), Ok(()));
    assert_eq!(p.auto_unlock_queue(), vec![10]);
    assert_eq!(p.enqueue_auto_unlock(11), Ok(()));
    assert_eq!(p.enqueue_auto_unlock(12), Err(Error::QueueFull));
    // Already queued: no room needed.
    assert_eq!(p.enqueue_auto_unlock(11), Ok(()));
    assert_eq!(p.auto_unlock_queue(), vec![10, 11]);
}
