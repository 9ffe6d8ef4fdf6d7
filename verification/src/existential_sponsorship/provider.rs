//! The interface through which other pallets read and manage sponsorships.
use vstd::prelude::*;
use crate::existential_sponsorship::types::{
    AccountId, AutoUnlockMode, Balance, BeneficiaryFunds, DispatchError, Error, Event, Lease, Origin,
    RevokeOutcome, SponsorEnv, SponsorshipRecord, SponsorshipView, UnlockReason,
};
use crate::existential_sponsorship::pallet::Pallet;

verus! {

/// How a stored sponsorship looks from outside.
pub open spec fn view_of(records: Map<AccountId, SponsorshipRecord>, beneficiary: AccountId) -> Option<SponsorshipView> {
    if records.contains_key(beneficiary) {
        let r = records[beneficiary];
        Some(SponsorshipView {
            sponsor: r.sponsor,
            beneficiary,
            amount: r.amount,
            auto_unlock: r.auto_unlock,
            lease: r.lease,
            created_at: r.created_at,
        })
    } else {
        None
    }
}

/// Sponsorships as other pallets use them: reading who is sponsored, and
/// creating, ending and auto-unlocking sponsorships on a sponsor's behalf.
pub trait SponsorshipProvider {
    /// Whether the provider's state is well formed.
    spec fn valid(&self) -> bool;

    /// The active sponsorships, by beneficiary.
    spec fn records(&self) -> Map<AccountId, SponsorshipRecord>;

    fn sponsorship_of(&self, beneficiary: AccountId) -> (v: Option<SponsorshipView>)
        ensures
            v == view_of(self.records(), beneficiary),
    ;

    fn is_sponsored(&self, beneficiary: AccountId) -> (b: bool)
        ensures
            b == self.records().contains_key(beneficiary),
    ;

    /// The sponsored amount (zero when not sponsored).
    fn sponsored_amount(&self, beneficiary: AccountId) -> (a: Balance)
        ensures
            a == (if self.records().contains_key(beneficiary) { self.records()[beneficiary].amount } else { 0 }),
    ;

    fn sponsor_of(&self, beneficiary: AccountId) -> (s: Option<AccountId>)
        ensures
            s == (if self.records().contains_key(beneficiary) {
                Some(self.records()[beneficiary].sponsor)
            } else {
                None
            }),
    ;

    /// Creates a sponsorship at block `env.now`; an already sponsored
    /// beneficiary is refused.
    fn create_sponsorship(
        &mut self,
        sponsor: AccountId,
        beneficiary: AccountId,
        amount: Balance,
        auto_unlock: AutoUnlockMode,
        lease: Lease,
        env: &SponsorEnv,
    ) -> (r: Result<(), Error>)
        requires
            old(self).valid(),
        ensures
            final(self).valid(),
            old(self).records().contains_key(beneficiary) ==> r == Err::<(), Error>(Error::AlreadySponsored),
            match r {
                Ok(()) => final(self).records() == old(self).records().insert(
                    beneficiary,
                    SponsorshipRecord { sponsor, amount, auto_unlock, lease, created_at: env.now },
                ),
                Err(_) => final(self).records() == old(self).records(),
            },
    ;

    /// Ends a sponsorship on behalf of its sponsor.
    fn unlock_sponsorship(&mut self, sponsor: AccountId, beneficiary: AccountId, outcome: RevokeOutcome) -> (r: Result<(), Error>)
        requires
            old(self).valid(),
        ensures
            final(self).valid(),
            !old(self).records().contains_key(beneficiary) ==> r == Err::<(), Error>(Error::NotSponsored),
            old(self).records().contains_key(beneficiary) && old(self).records()[beneficiary].sponsor != sponsor
                ==> r == Err::<(), Error>(Error::NotSponsor),
            match r {
                Ok(()) => old(self).records().contains_key(beneficiary)
                    && old(self).records()[beneficiary].sponsor == sponsor
                    && final(self).records() == old(self).records().remove(beneficiary),
                Err(_) => final(self).records() == old(self).records(),
            },
    ;

    /// Ends a sponsorship whose auto-unlock condition is met by the
    /// beneficiary's own funds; keeps it otherwise.
    fn try_auto_unlock(&mut self, beneficiary: AccountId, funds: BeneficiaryFunds, outcome: RevokeOutcome) -> (r: Result<(), Error>)
        requires
            old(self).valid(),
        ensures
            final(self).valid(),
            !old(self).records().contains_key(beneficiary) ==> r == Err::<(), Error>(Error::NotSponsored),
            match r {
                Ok(()) => old(self).records().contains_key(beneficiary) && (
                    final(self).records() == old(self).records()
                    || final(self).records() == old(self).records().remove(beneficiary)),
                Err(_) => final(self).records() == old(self).records(),
            },
    ;
}

impl SponsorshipProvider for Pallet {
    open spec fn valid(&self) -> bool {
        self.wf()
    }

    open spec fn records(&self) -> Map<AccountId, SponsorshipRecord> {
        self.sponsorship_map()
    }

    fn sponsorship_of(&self, beneficiary: AccountId) -> (v: Option<SponsorshipView>) {
        Pallet::sponsorship_of(self, beneficiary)
    }

    fn is_sponsored(&self, beneficiary: AccountId) -> (b: bool) {
        Pallet::is_sponsored(self, beneficiary)
    }

    fn sponsored_amount(&self, beneficiary: AccountId) -> (a: Balance) {
        Pallet::sponsored_amount(self, beneficiary)
    }

    fn sponsor_of(&self, beneficiary: AccountId) -> (s: Option<AccountId>) {
        Pallet::sponsor_of(self, beneficiary)
    }

    fn create_sponsorship(
        &mut self,
        sponsor: AccountId,
        beneficiary: AccountId,
        amount: Balance,
        auto_unlock: AutoUnlockMode,
        lease: Lease,
        env: &SponsorEnv,
    ) -> (r: Result<(), Error>)
        ensures
            match r {
                Ok(()) => old(self).sponsor_failure(sponsor, beneficiary, amount, auto_unlock, lease, *env) is None
                    && final(self).sponsored_from(old(self), sponsor, beneficiary, amount, auto_unlock, lease, env.now, true),
                Err(e) => old(self).sponsor_failure(sponsor, beneficiary, amount, auto_unlock, lease, *env) == Some(e)
                    && *final(self) == *old(self),
            },
            old(self).ledger_consistent() && old(self).cfg().caps_below_max() ==> final(self).ledger_consistent(),
            old(self).queue_covers_auto_unlock() ==> final(self).queue_covers_auto_unlock(),
            old(self).buckets_cover_leases() ==> final(self).buckets_cover_leases(),
    {
        Pallet::create_sponsorship(self, sponsor, beneficiary, amount, auto_unlock, lease, env)
    }

    fn unlock_sponsorship(&mut self, sponsor: AccountId, beneficiary: AccountId, outcome: RevokeOutcome) -> (r: Result<(), Error>)
        ensures
            match r {
                Ok(()) => old(self).unlock_failure(Origin::Signed(sponsor), beneficiary, outcome) is None
                    && final(self).unlocked_from(old(self), beneficiary, UnlockReason::Manual),
                Err(e) => old(self).unlock_failure(Origin::Signed(sponsor), beneficiary, outcome) == Some(DispatchError::Module(e))
                    && *final(self) == *old(self),
            },
            old(self).ledger_consistent() ==> final(self).ledger_consistent(),
            old(self).queue_covers_auto_unlock() ==> final(self).queue_covers_auto_unlock(),
            old(self).buckets_cover_leases() ==> final(self).buckets_cover_leases(),
    {
        Pallet::unlock_sponsorship(self, sponsor, beneficiary, outcome)
    }

    fn try_auto_unlock(&mut self, beneficiary: AccountId, funds: BeneficiaryFunds, outcome: RevokeOutcome) -> (r: Result<(), Error>)
        ensures
            match r {
                Ok(()) => old(self).auto_unlock_failure(beneficiary, funds, outcome) is None
                    && (if old(self).auto_unlock_due(beneficiary, funds) {
                        let rec = old(self).sponsorship_map()[beneficiary];
                        &&& final(self).revoked_from(old(self), beneficiary)
                        &&& final(self).event_log() == old(self).event_log().push(Event::AutoUnlocked {
                            sponsor: rec.sponsor,
                            beneficiary,
                            amount: rec.amount,
                            condition: rec.auto_unlock->Enabled_0,
                        })
                    } else {
                        *final(self) == *old(self)
                    }),
                Err(e) => old(self).auto_unlock_failure(beneficiary, funds, outcome) == Some(e) && *final(self) == *old(self),
            },
            old(self).ledger_consistent() ==> final(self).ledger_consistent(),
            old(self).queue_covers_auto_unlock() ==> final(self).queue_covers_auto_unlock(),
            old(self).buckets_cover_leases() ==> final(self).buckets_cover_leases(),
    {
        Pallet::try_auto_unlock(self, beneficiary, funds, outcome)
    }
}

} // verus!
