//! Properties of the sponsorship pallet that span several operations.
use vstd::prelude::*;
use crate::existential_sponsorship::types::{
    AccountId, AutoUnlockCondition, AutoUnlockMode, Balance, BeneficiaryFunds, BlockNumber, CurrencyOp,
    DispatchError, Error, HoldReason, Lease, Origin, RevokeOutcome, SponsorEnv,
};
use crate::existential_sponsorship::pallet::{Pallet, minimum_sponsorship_of, refreshed};
use crate::existential_sponsorship::sums::{count_sponsored, lemma_totals_after_insert, total_sponsored};
use crate::existential_sponsorship::types::SponsorshipRecord;
use crate::seq_util::{
    lemma_with_member_contains, lemma_with_member_no_duplicates, lemma_without_absent, lemma_without_with_member, with_member, without,
};

verus! {

/// The storage-deposit operation of a sponsorship (`hold`) or of its end
/// (release): none when the deposit is zero.
pub open spec fn deposit_ops(deposit: Balance, sponsor: AccountId, hold: bool) -> Seq<CurrencyOp> {
    if deposit == 0 {
        Seq::empty()
    } else if hold {
        seq![CurrencyOp::Hold { reason: HoldReason::StorageDeposit, who: sponsor, amount: deposit }]
    } else {
        seq![CurrencyOp::Release { reason: HoldReason::StorageDeposit, who: sponsor, amount: deposit }]
    }
}

/// A beneficiary has at most one active sponsorship: sponsoring an already
/// sponsored beneficiary is refused, whoever the sponsor and whatever the
/// currency reports.
pub proof fn law_one_sponsorship_per_beneficiary(
    p: Pallet,
    sponsor: AccountId,
    beneficiary: AccountId,
    amount: Balance,
    auto_unlock: AutoUnlockMode,
    lease: Lease,
    env: SponsorEnv,
)
    requires
        p.sponsorship_map().contains_key(beneficiary),
    ensures
        p.sponsor_failure(sponsor, beneficiary, amount, auto_unlock, lease, env) == Some(Error::AlreadySponsored),
{
}

/// A sponsorship that is accepted respects every limit: its amount is at
/// least the minimum (and so at least the existential deposit), its lease
/// ends no earlier than now and no later than the longest lease allows, the
/// sponsor keeps at least the minimum remaining balance after paying the
/// amount and the deposit (when the currency's reports agree with each
/// other), and the sponsor's ledger stays within the per-sponsor and
/// per-block caps.
pub proof fn law_accepted_sponsorship_within_limits(
    p0: Pallet,
    p1: Pallet,
    sponsor: AccountId,
    beneficiary: AccountId,
    amount: Balance,
    auto_unlock: AutoUnlockMode,
    lease: Lease,
    env: SponsorEnv,
)
    requires
        p0.sponsor_failure(sponsor, beneficiary, amount, auto_unlock, lease, env) is None,
        p1.sponsored_from(&p0, sponsor, beneficiary, amount, auto_unlock, lease, env.now, true)
            || p1.sponsored_from(&p0, sponsor, beneficiary, amount, auto_unlock, lease, env.now, false),
    ensures
        amount >= minimum_sponsorship_of(p0.cfg()),
        amount >= p0.cfg().existential_deposit,
        match lease {
            Lease::Until(end) => env.now <= end && end - env.now <= p0.cfg().max_lease_duration,
            Lease::Indefinite => true,
        },
        env.sponsor_reducible >= amount + p0.cfg().sponsorship_storage_deposit
            || amount + p0.cfg().sponsorship_storage_deposit > u128::MAX,
        env.sponsor_balance >= amount + p0.cfg().sponsorship_storage_deposit + p0.cfg().sponsor_min_remaining
            || p0.cfg().sponsor_min_remaining == 0
            || amount + p0.cfg().sponsorship_storage_deposit > u128::MAX,
        env.consistent() && amount + p0.cfg().sponsorship_storage_deposit <= u128::MAX ==>
            env.sponsor_balance >= amount + p0.cfg().sponsorship_storage_deposit + p0.cfg().sponsor_min_remaining,
        p1.ledger_of(sponsor).active_amount <= p0.cfg().max_total_sponsored_per_sponsor,
        p1.ledger_of(sponsor).active_count <= p0.cfg().max_sponsored_accounts_per_sponsor,
        p1.ledger_of(sponsor).sponsored_amount_in_block <= p0.cfg().max_sponsored_amount_per_block,
        p1.ledger_of(sponsor).new_sponsorships_in_block <= p0.cfg().max_new_sponsorships_per_block,
        p1.ledger_of(sponsor).last_block == env.now,
{
}

/// Unlocking a sponsorship right after creating it gives everything back:
/// the sponsorships are as before, the sponsor's active amount and count are
/// as before, no deposit stays recorded, and the balance operations of the
/// unlock return to the sponsor exactly the amount and the deposit that the
/// sponsorship put on hold.
pub proof fn law_unlock_undoes_sponsor(
    p0: Pallet,
    p1: Pallet,
    p2: Pallet,
    sponsor: AccountId,
    beneficiary: AccountId,
    amount: Balance,
    auto_unlock: AutoUnlockMode,
    lease: Lease,
    env: SponsorEnv,
    emit_event: bool,
)
    requires
        p0.wf(),
        p0.cfg().caps_below_max(),
        p0.sponsor_failure(sponsor, beneficiary, amount, auto_unlock, lease, env) is None,
        p1.sponsored_from(&p0, sponsor, beneficiary, amount, auto_unlock, lease, env.now, emit_event),
        p2.revoked_from(&p1, beneficiary),
    ensures
        p2.sponsorship_map() == p0.sponsorship_map(),
        p2.ledger_of(sponsor).active_amount == p0.ledger_of(sponsor).active_amount,
        p2.ledger_of(sponsor).active_count == p0.ledger_of(sponsor).active_count,
        forall|w: AccountId| w != sponsor ==> #[trigger] p2.ledger_of(w) == p0.ledger_of(w),
        p2.deposit_of(beneficiary) == 0,
        forall|w: AccountId| w != beneficiary ==> #[trigger] p2.deposit_of(w) == p0.deposit_of(w),
        p2.queue() == without(p0.queue(), beneficiary),
        !p0.queue().contains(beneficiary) ==> p2.queue() == p0.queue(),
        Pallet::sponsor_ops_of(p0.cfg(), sponsor, beneficiary, amount) == seq![
            CurrencyOp::IncProviders { who: beneficiary },
            CurrencyOp::TransferAndHold { reason: HoldReason::Sponsorship, from: sponsor, to: beneficiary, amount },
        ] + deposit_ops(p0.cfg().sponsorship_storage_deposit, sponsor, true),
        p1.revoke_ops_of(beneficiary) == seq![
            CurrencyOp::TransferOnHold { reason: HoldReason::Sponsorship, from: beneficiary, to: sponsor, amount },
        ] + deposit_ops(p0.cfg().sponsorship_storage_deposit, sponsor, false)
            + seq![CurrencyOp::DecProviders { who: beneficiary }],
{
    assert(p2.sponsorship_map() =~= p0.sponsorship_map());
    assert(p1.ledger_of(sponsor).active_amount == p0.ledger_of(sponsor).active_amount + amount);
    assert forall|w: AccountId| w != sponsor implies #[trigger] p2.ledger_of(w) == p0.ledger_of(w) by {
        assert(p1.ledger_of(w) == p0.ledger_of(w));
    }
    assert forall|w: AccountId| w != beneficiary implies #[trigger] p2.deposit_of(w) == p0.deposit_of(w) by {
        assert(p1.deposit_of(w) == p0.deposit_of(w));
    }
    p0.lemma_deposit_only_when_sponsored(beneficiary);
    assert(p1.revoke_ops_of(beneficiary) =~= seq![
        CurrencyOp::TransferOnHold { reason: HoldReason::Sponsorship, from: beneficiary, to: sponsor, amount },
    ] + deposit_ops(p0.cfg().sponsorship_storage_deposit, sponsor, false)
        + seq![CurrencyOp::DecProviders { who: beneficiary }]);
    lemma_without_with_member(p0.queue(), beneficiary);
    if !p0.queue().contains(beneficiary) {
        lemma_without_absent(p0.queue(), beneficiary);
    }
}

/// Only the sponsor can end a sponsorship by a signed call: the beneficiary,
/// or anyone else, is refused with `NotSponsor` whatever the currency would
/// report, and an unsigned call is refused as a bad origin. (The force
/// origin's escape hatch is `force_unlock`.)
pub proof fn law_only_the_sponsor_unlocks(p: Pallet, caller: AccountId, beneficiary: AccountId, outcome: RevokeOutcome)
    requires
        p.sponsorship_map().contains_key(beneficiary),
        caller != p.sponsorship_map()[beneficiary].sponsor,
    ensures
        p.unlock_failure(Origin::Signed(caller), beneficiary, outcome) == Some(DispatchError::Module(Error::NotSponsor)),
        p.unlock_failure(Origin::Unsigned, beneficiary, outcome) == Some(DispatchError::BadOrigin),
        p.unlock_failure(Origin::Root, beneficiary, outcome) == Some(DispatchError::BadOrigin),
{
}

/// A sponsor's actual sponsorships stay within the per-sponsor caps: after
/// any accepted sponsorship, the sum of the amounts it sponsors is at most
/// the amount cap and their number at most the count cap.
pub proof fn law_sponsor_totals_within_caps(
    p0: Pallet,
    p1: Pallet,
    sponsor: AccountId,
    beneficiary: AccountId,
    amount: Balance,
    auto_unlock: AutoUnlockMode,
    lease: Lease,
    env: SponsorEnv,
    emit_event: bool,
)
    requires
        p0.wf(),
        p0.ledger_consistent(),
        p0.cfg().caps_below_max(),
        p0.sponsor_failure(sponsor, beneficiary, amount, auto_unlock, lease, env) is None,
        p1.sponsored_from(&p0, sponsor, beneficiary, amount, auto_unlock, lease, env.now, emit_event),
    ensures
        total_sponsored(p1.sponsorship_map(), sponsor) <= p0.cfg().max_total_sponsored_per_sponsor,
        count_sponsored(p1.sponsorship_map(), sponsor) <= p0.cfg().max_sponsored_accounts_per_sponsor,
{
    p0.lemma_records_finite();
    let record = SponsorshipRecord { sponsor, amount, auto_unlock, lease, created_at: env.now };
    lemma_totals_after_insert(p0.sponsorship_map(), beneficiary, record, sponsor);
    assert(refreshed(p0.ledger_of(sponsor), env.now).active_amount == p0.ledger_of(sponsor).active_amount);
    assert(refreshed(p0.ledger_of(sponsor), env.now).active_count == p0.ledger_of(sponsor).active_count);
}

/// The auto-unlock queue is a bounded set: it never holds a beneficiary
/// twice nor more entries than the capacity, adding a beneficiary is refused
/// (with `QueueFull`, by `enqueue_auto_unlock`) exactly when it is absent and
/// the queue is full, and adding one that is already there changes nothing.
pub proof fn law_auto_unlock_queue_is_a_bounded_set(p: Pallet, beneficiary: AccountId)
    requires
        p.wf(),
    ensures
        p.queue().no_duplicates(),
        p.queue().len() <= p.capacity(),
        p.queue_overflows(beneficiary) <==> (!p.queue().contains(beneficiary) && p.queue().len() == p.capacity()),
        with_member(p.queue(), beneficiary).no_duplicates(),
        with_member(with_member(p.queue(), beneficiary), beneficiary) == with_member(p.queue(), beneficiary),
{
    p.lemma_storage_bounds();
    lemma_with_member_no_duplicates(p.queue(), beneficiary);
    if !p.queue().contains(beneficiary) {
        assert(p.queue().push(beneficiary)[p.queue().len() as int] == beneficiary);
    }
}

/// Only the recorded sponsor can change a sponsorship's policy: any other
/// signed caller, the beneficiary included, is refused with `NotSponsor`
/// (and `set_policy` then leaves the state unchanged), and a change that is
/// accepted was asked for by the sponsor.
pub proof fn law_only_the_sponsor_sets_policy(
    p: Pallet,
    caller: AccountId,
    beneficiary: AccountId,
    auto_unlock: AutoUnlockMode,
    lease: Lease,
    now: BlockNumber,
)
    ensures
        p.sponsorship_map().contains_key(beneficiary) && caller != p.sponsorship_map()[beneficiary].sponsor
            ==> p.set_policy_failure(Origin::Signed(caller), beneficiary, auto_unlock, lease, now)
                == Some(DispatchError::Module(Error::NotSponsor)),
        p.set_policy_failure(Origin::Signed(caller), beneficiary, auto_unlock, lease, now) is None
            ==> p.sponsorship_map().contains_key(beneficiary) && caller == p.sponsorship_map()[beneficiary].sponsor,
        p.set_policy_failure(Origin::Unsigned, beneficiary, auto_unlock, lease, now) == Some(DispatchError::BadOrigin),
        p.set_policy_failure(Origin::Root, beneficiary, auto_unlock, lease, now) == Some(DispatchError::BadOrigin),
{
}

/// The sponsor's ledger counts every accepted sponsorship: its active amount
/// and count grow by the amount and by one, and the block's counters, which
/// start afresh in a new block, grow by the amount and by one too, so that
/// the sponsorships of one sponsor in one block never add up to more than
/// the per-block caps. Other sponsors' ledgers are untouched.
pub proof fn law_sponsor_ledger_counts_each_sponsorship(
    p0: Pallet,
    p1: Pallet,
    sponsor: AccountId,
    beneficiary: AccountId,
    amount: Balance,
    auto_unlock: AutoUnlockMode,
    lease: Lease,
    env: SponsorEnv,
    emit_event: bool,
)
    requires
        p0.sponsor_failure(sponsor, beneficiary, amount, auto_unlock, lease, env) is None,
        p1.sponsored_from(&p0, sponsor, beneficiary, amount, auto_unlock, lease, env.now, emit_event),
    ensures
        ({
            let before = p0.ledger_of(sponsor);
            let after = p1.ledger_of(sponsor);
            let same_block = before.last_block == env.now;
            let amount_before: int = if same_block { before.sponsored_amount_in_block as int } else { 0 };
            let count_before: int = if same_block { before.new_sponsorships_in_block as int } else { 0 };
            &&& after.last_block == env.now
            &&& amount_before + amount <= u128::MAX ==> after.sponsored_amount_in_block == amount_before + amount
            &&& count_before + 1 <= u32::MAX ==> after.new_sponsorships_in_block == count_before + 1
            &&& after.sponsored_amount_in_block <= p0.cfg().max_sponsored_amount_per_block
            &&& after.new_sponsorships_in_block <= p0.cfg().max_new_sponsorships_per_block
            &&& before.active_amount + amount <= u128::MAX ==> after.active_amount == before.active_amount + amount
            &&& before.active_count + 1 <= u32::MAX ==> after.active_count == before.active_count + 1
        }),
        forall|w: AccountId| w != sponsor ==> #[trigger] p1.ledger_of(w) == p0.ledger_of(w),
{
}

/// An auto-unlock is due exactly when the sponsorship has auto-unlock
/// enabled and the beneficiary's own balance named by the condition
/// (spendable, or free) covers the sponsored amount, whatever the lease and
/// the other fields of the record; when it is due and the balance
/// operations succeed, the attempt is not refused.
pub proof fn law_auto_unlock_follows_the_condition(p: Pallet, beneficiary: AccountId, funds: BeneficiaryFunds)
    requires
        p.sponsorship_map().contains_key(beneficiary),
    ensures
        ({
            let r = p.sponsorship_map()[beneficiary];
            p.auto_unlock_due(beneficiary, funds) == match r.auto_unlock {
                AutoUnlockMode::Enabled(AutoUnlockCondition::SpendableGeSponsored) => funds.spendable >= r.amount,
                AutoUnlockMode::Enabled(AutoUnlockCondition::FreeGeSponsored) => funds.free >= r.amount,
                AutoUnlockMode::Disabled => false,
            }
        }),
        p.auto_unlock_failure(beneficiary, funds, RevokeOutcome { transfer_on_hold_ok: true, release_ok: true }) is None,
{
}

/// The sponsor can always end its sponsorship by a signed call, whatever
/// its auto-unlock mode and lease: the call fails only when the balance
/// operations of the revocation fail (the held amount cannot move back,
/// or the storage deposit cannot be released).
pub proof fn law_sponsor_can_always_unlock(p: Pallet, beneficiary: AccountId, outcome: RevokeOutcome)
    requires
        p.sponsorship_map().contains_key(beneficiary),
    ensures
        p.unlock_failure(Origin::Signed(p.sponsorship_map()[beneficiary].sponsor), beneficiary, outcome) == (
            if !outcome.transfer_on_hold_ok {
                Some(DispatchError::Module(Error::CannotTransferOnHold))
            } else if p.deposit_of(beneficiary) != 0 && !outcome.release_ok {
                Some(DispatchError::Module(Error::StorageDepositFailed))
            } else {
                None
            }),
{
}

/// A policy change that is accepted gives the sponsorship exactly the new
/// auto-unlock mode and lease, keeps its sponsor, amount and creation block,
/// touches no other sponsorship, and lists the sponsorship under the last
/// block of its new lease (an unchanged lease stays where it was listed).
/// A lease is accepted only when it ends no earlier than now and no later
/// than the longest lease allows.
pub proof fn law_policy_change_sets_mode_and_lease(
    p0: Pallet,
    p1: Pallet,
    caller: AccountId,
    beneficiary: AccountId,
    auto_unlock: AutoUnlockMode,
    lease: Lease,
    now: BlockNumber,
)
    requires
        p0.set_policy_failure(Origin::Signed(caller), beneficiary, auto_unlock, lease, now) is None,
        p1.policy_set_from(&p0, caller, beneficiary, auto_unlock, lease),
    ensures
        p0.sponsorship_map().contains_key(beneficiary),
        p1.sponsorship_map().contains_key(beneficiary),
        p1.sponsorship_map()[beneficiary].auto_unlock == auto_unlock,
        p1.sponsorship_map()[beneficiary].lease == lease,
        p1.sponsorship_map()[beneficiary].sponsor == p0.sponsorship_map()[beneficiary].sponsor,
        p1.sponsorship_map()[beneficiary].amount == p0.sponsorship_map()[beneficiary].amount,
        p1.sponsorship_map()[beneficiary].created_at == p0.sponsorship_map()[beneficiary].created_at,
        p1.sponsorship_map().dom() == p0.sponsorship_map().dom(),
        forall|w: AccountId| w != beneficiary && #[trigger] p0.sponsorship_map().contains_key(w)
            ==> p1.sponsorship_map()[w] == p0.sponsorship_map()[w],
        match lease {
            Lease::Until(end) => now <= end && end - now <= p0.cfg().max_lease_duration
                && (p0.sponsorship_map()[beneficiary].lease != lease || p0.buckets_cover_leases()
                    ==> p1.bucket(end).contains(beneficiary)),
            Lease::Indefinite => true,
        },
        (auto_unlock is Enabled) ==> p1.queue().contains(beneficiary),
{
    let from = p0.sponsorship_map()[beneficiary].lease;
    assert(p1.sponsorship_map().dom() =~= p0.sponsorship_map().dom());
    match lease {
        Lease::Until(end) => {
            lemma_with_member_contains(p0.bucket(end), beneficiary, beneficiary);
            if from == lease && p0.buckets_cover_leases() {
                // unchanged lease: the bucket is as before
                assert(p1.bucket(end) == p0.bucket(end));
                assert(p0.bucket(p0.sponsorship_map()[beneficiary].lease->Until_0).contains(beneficiary));
            }
        },
        Lease::Indefinite => {},
    }
    lemma_with_member_contains(p0.queue(), beneficiary, beneficiary);
}

/// An accepted sponsorship is stored under its beneficiary exactly as asked:
/// sponsor, amount, auto-unlock mode, lease and the current block, with no
/// other sponsorship touched.
pub proof fn law_sponsorship_stored_as_asked(
    p0: Pallet,
    p1: Pallet,
    sponsor: AccountId,
    beneficiary: AccountId,
    amount: Balance,
    auto_unlock: AutoUnlockMode,
    lease: Lease,
    env: SponsorEnv,
    emit_event: bool,
)
    requires
        p0.sponsor_failure(sponsor, beneficiary, amount, auto_unlock, lease, env) is None,
        p1.sponsored_from(&p0, sponsor, beneficiary, amount, auto_unlock, lease, env.now, emit_event),
    ensures
        !p0.sponsorship_map().contains_key(beneficiary),
        p1.sponsorship_map().contains_key(beneficiary),
        p1.sponsorship_map()[beneficiary] == (SponsorshipRecord { sponsor, amount, auto_unlock, lease, created_at: env.now }),
        p1.sponsorship_map().dom() == p0.sponsorship_map().dom().insert(beneficiary),
        forall|w: AccountId| w != beneficiary && #[trigger] p0.sponsorship_map().contains_key(w)
            ==> p1.sponsorship_map()[w] == p0.sponsorship_map()[w],
{
    assert(p1.sponsorship_map().dom() =~= p0.sponsorship_map().dom().insert(beneficiary));
}

} // verus!
