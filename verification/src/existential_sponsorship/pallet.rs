//! The sponsorship pallet's storage and its operations.
use vstd::prelude::*;
use std::collections::HashMap;
use crate::existential_sponsorship::types::{
    AccountId, AutoUnlockCondition, AutoUnlockMode, Balance, BeneficiaryFunds, BlockNumber,
    Config, CurrencyOp, DispatchError, Error, Event, HoldReason, Lease, Origin, RevokeOutcome,
    SponsorEnv, SponsorState, SponsorshipRecord, SponsorshipView, UnlockReason,
    empty_sponsor_state, sat_add, sat_add32, sat_sub, sat_sub32,
};
use crate::existential_sponsorship::sums::{
    count_sponsored, lemma_total_covers_member, lemma_totals_after_insert,
    lemma_totals_after_remove, lemma_totals_after_update, total_sponsored,
};
use crate::seq_util::{
    copy_vec, lemma_with_member_no_duplicates, lemma_without_contains,
    lemma_with_member_contains, lemma_without_no_duplicates, vec_contains, vec_without,
    with_member, without,
};

verus! {

/// The smallest amount a sponsorship may have: the configured minimum, but
/// never below the existential deposit.
pub open spec fn minimum_sponsorship_of(cfg: Config) -> Balance {
    if cfg.min_sponsorship >= cfg.existential_deposit {
        cfg.min_sponsorship
    } else {
        cfg.existential_deposit
    }
}

/// Why a lease is refused at block `now`, if it is.
pub open spec fn lease_error(lease: Lease, now: BlockNumber, max_duration: BlockNumber) -> Option<Error> {
    match lease {
        Lease::Indefinite => None,
        Lease::Until(end) => if end < now {
            Some(Error::LeaseInPast)
        } else if end - now > max_duration {
            Some(Error::LeaseTooLong)
        } else {
            None
        },
    }
}

/// A ledger as seen in block `now`: the per-block counters start afresh in
/// each new block.
pub open spec fn refreshed(l: SponsorState, now: BlockNumber) -> SponsorState {
    if l.last_block != now {
        SponsorState {
            active_amount: l.active_amount,
            active_count: l.active_count,
            last_block: now,
            sponsored_amount_in_block: 0,
            new_sponsorships_in_block: 0,
        }
    } else {
        l
    }
}

/// A ledger after one more sponsorship of `amount`.
pub open spec fn ledger_with_new(l: SponsorState, amount: Balance) -> SponsorState {
    SponsorState {
        active_amount: sat_add(l.active_amount, amount),
        active_count: sat_add32(l.active_count, 1),
        last_block: l.last_block,
        sponsored_amount_in_block: sat_add(l.sponsored_amount_in_block, amount),
        new_sponsorships_in_block: sat_add32(l.new_sponsorships_in_block, 1),
    }
}

/// A ledger after a sponsorship of `amount` ended.
pub open spec fn ledger_without(l: SponsorState, amount: Balance) -> SponsorState {
    SponsorState {
        active_amount: sat_sub(l.active_amount, amount),
        active_count: sat_sub32(l.active_count, 1),
        last_block: l.last_block,
        sponsored_amount_in_block: l.sponsored_amount_in_block,
        new_sponsorships_in_block: l.new_sponsorships_in_block,
    }
}

/// Whether the beneficiary's own balance covers the sponsored amount.
pub open spec fn condition_met(condition: AutoUnlockCondition, amount: Balance, funds: BeneficiaryFunds) -> bool {
    match condition {
        AutoUnlockCondition::SpendableGeSponsored => funds.spendable >= amount,
        AutoUnlockCondition::FreeGeSponsored => funds.free >= amount,
    }
}

impl Config {
    /// Caps that leave room above them, so that the saturating ledger
    /// arithmetic never saturates.
    pub open spec fn caps_below_max(self) -> bool {
        &&& self.max_total_sponsored_per_sponsor < u128::MAX
        &&& self.max_sponsored_accounts_per_sponsor < u32::MAX
    }
}

/// The sponsorship pallet: its constants and its storage.
pub struct Pallet {
    config: Config,
    sponsorships: HashMap<AccountId, SponsorshipRecord>,
    ledger: HashMap<AccountId, SponsorState>,
    deposits: HashMap<AccountId, Balance>,
    expirations: HashMap<BlockNumber, Vec<AccountId>>,
    queue: Vec<AccountId>,
    events: Vec<Event>,
}

impl Pallet {
    pub closed spec fn cfg(&self) -> Config {
        self.config
    }

    /// The stored sponsorships, keyed by beneficiary.
    pub closed spec fn sponsorship_map(&self) -> Map<AccountId, SponsorshipRecord> {
        self.sponsorships@
    }

    /// A sponsor's ledger (the empty ledger where none is stored).
    pub closed spec fn ledger_of(&self, who: AccountId) -> SponsorState {
        if self.ledger@.contains_key(who) {
            self.ledger@[who]
        } else {
            empty_sponsor_state()
        }
    }

    /// The storage deposit held for a beneficiary's sponsorship (zero where
    /// none is stored).
    pub closed spec fn deposit_of(&self, who: AccountId) -> Balance {
        if self.deposits@.contains_key(who) {
            self.deposits@[who]
        } else {
            0
        }
    }

    /// The beneficiaries whose leases end at `block`.
    pub closed spec fn bucket(&self, block: BlockNumber) -> Seq<AccountId> {
        if self.expirations@.contains_key(block) {
            self.expirations@[block]@
        } else {
            Seq::empty()
        }
    }

    /// The beneficiaries waiting for an auto-unlock check.
    pub closed spec fn queue(&self) -> Seq<AccountId> {
        self.queue@
    }

    /// The events deposited so far.
    pub closed spec fn event_log(&self) -> Seq<Event> {
        self.events@
    }

    /// The largest number of entries in the queue and in each expiry bucket.
    pub open spec fn capacity(&self) -> nat {
        self.cfg().max_queue_processing_per_block as nat
    }

    /// The storage invariant: the queue and every expiry bucket are free of
    /// duplicates and within capacity, and a storage deposit is only held
    /// for a sponsored beneficiary.
    pub closed spec fn wf(&self) -> bool {
        &&& self.sponsorships@.dom().finite()
        &&& forall|w: AccountId| #[trigger] self.deposit_of(w) != 0 ==> self.sponsorships@.contains_key(w)
        &&& self.queue@.no_duplicates()
        &&& self.queue@.len() <= self.capacity()
        &&& forall|blk: BlockNumber| #![trigger self.bucket(blk)] self.bucket(blk).no_duplicates() && self.bucket(blk).len() <= self.capacity()
    }

    /// Each sponsor's ledger matches what it actually sponsors: the active
    /// amount is the sum of its sponsorships and the active count their
    /// number.
    pub open spec fn ledger_consistent(&self) -> bool {
        forall|s: AccountId| #![trigger self.ledger_of(s)] self.ledger_of(s).active_amount == total_sponsored(self.sponsorship_map(), s)
            && self.ledger_of(s).active_count == count_sponsored(self.sponsorship_map(), s)
    }

    /// Every sponsorship with auto-unlock enabled waits in the queue.
    pub open spec fn queue_covers_auto_unlock(&self) -> bool {
        forall|b: AccountId| #[trigger] self.sponsorship_map().contains_key(b)
            && self.sponsorship_map()[b].auto_unlock is Enabled ==> self.queue().contains(b)
    }

    /// Every sponsorship with a lease is listed in the expiry bucket of the
    /// lease's last block, so that the expiry pass of that block finds it.
    pub open spec fn buckets_cover_leases(&self) -> bool {
        forall|b: AccountId| #[trigger] self.sponsorship_map().contains_key(b)
            && self.sponsorship_map()[b].lease is Until
            ==> self.bucket(self.sponsorship_map()[b].lease->Until_0).contains(b)
    }

    /// Records and buckets untouched keep the coverage.
    proof fn lemma_cover_same(p: &Pallet, q: &Pallet)
        requires
            q.buckets_cover_leases(),
            p.sponsorship_map() == q.sponsorship_map(),
            p.same_buckets(q),
        ensures
            p.buckets_cover_leases(),
    {
        assert forall|b: AccountId| #[trigger] p.sponsorship_map().contains_key(b)
            && p.sponsorship_map()[b].lease is Until
            implies p.bucket(p.sponsorship_map()[b].lease->Until_0).contains(b) by {
            assert(q.bucket(q.sponsorship_map()[b].lease->Until_0).contains(b));
        }
    }

    /// A new sponsorship is recorded in the bucket of its lease.
    proof fn lemma_cover_sponsored(
        post: &Pallet,
        pre: &Pallet,
        sponsor: AccountId,
        beneficiary: AccountId,
        amount: Balance,
        auto_unlock: AutoUnlockMode,
        lease: Lease,
        now: BlockNumber,
        emit_event: bool,
    )
        requires
            pre.buckets_cover_leases(),
            post.sponsored_from(pre, sponsor, beneficiary, amount, auto_unlock, lease, now, emit_event),
        ensures
            post.buckets_cover_leases(),
    {
        assert forall|b: AccountId| #[trigger] post.sponsorship_map().contains_key(b)
            && post.sponsorship_map()[b].lease is Until
            implies post.bucket(post.sponsorship_map()[b].lease->Until_0).contains(b) by {
            let t = post.sponsorship_map()[b].lease->Until_0;
            if b == beneficiary {
                lemma_with_member_contains(pre.bucket(t), beneficiary, b);
            } else {
                assert(pre.bucket(t).contains(b));
                match lease {
                    Lease::Until(end) => if end == t {
                        lemma_with_member_contains(pre.bucket(t), beneficiary, b);
                    },
                    Lease::Indefinite => {},
                }
            }
        }
    }

    /// Ending a sponsorship keeps every other one in its bucket.
    proof fn lemma_cover_revoked(post: &Pallet, pre: &Pallet, beneficiary: AccountId)
        requires
            pre.buckets_cover_leases(),
            pre.sponsorship_map().contains_key(beneficiary),
            post.revoked_from(pre, beneficiary),
        ensures
            post.buckets_cover_leases(),
    {
        let lease = pre.sponsorship_map()[beneficiary].lease;
        assert forall|b: AccountId| #[trigger] post.sponsorship_map().contains_key(b)
            && post.sponsorship_map()[b].lease is Until
            implies post.bucket(post.sponsorship_map()[b].lease->Until_0).contains(b) by {
            let t = post.sponsorship_map()[b].lease->Until_0;
            assert(pre.bucket(t).contains(b));
            match lease {
                Lease::Until(end) => if end == t {
                    lemma_without_contains(pre.bucket(t), beneficiary, b);
                },
                Lease::Indefinite => {},
            }
        }
    }

    /// Whether adding `b` to the bucket of `lease` would overflow it.
    pub open spec fn expiration_overflows(&self, b: AccountId, lease: Lease) -> bool {
        match lease {
            Lease::Indefinite => false,
            Lease::Until(end) => !self.bucket(end).contains(b) && self.bucket(end).len() >= self.capacity(),
        }
    }

    /// Whether adding `b` to the queue would overflow it.
    pub open spec fn queue_overflows(&self, b: AccountId) -> bool {
        !self.queue().contains(b) && self.queue().len() >= self.capacity()
    }

    /// The bucket of `block` once `b` is recorded as expiring under `lease`.
    pub open spec fn bucket_with(&self, b: AccountId, lease: Lease, block: BlockNumber) -> Seq<AccountId> {
        match lease {
            Lease::Until(end) => if end == block {
                with_member(self.bucket(block), b)
            } else {
                self.bucket(block)
            },
            Lease::Indefinite => self.bucket(block),
        }
    }

    /// The bucket of `block` once `b` is no longer recorded under `lease`.
    pub open spec fn bucket_without(&self, b: AccountId, lease: Lease, block: BlockNumber) -> Seq<AccountId> {
        match lease {
            Lease::Until(end) => if end == block {
                without(self.bucket(block), b)
            } else {
                self.bucket(block)
            },
            Lease::Indefinite => self.bucket(block),
        }
    }

    /// Same constants, sponsorships, ledgers and deposits.
    pub open spec fn same_records(&self, other: &Pallet) -> bool {
        &&& self.cfg() == other.cfg()
        &&& self.sponsorship_map() == other.sponsorship_map()
        &&& forall|w: AccountId| #![trigger self.ledger_of(w)] #![trigger other.ledger_of(w)] self.ledger_of(w) == other.ledger_of(w)
        &&& forall|w: AccountId| #![trigger self.deposit_of(w)] #![trigger other.deposit_of(w)] self.deposit_of(w) == other.deposit_of(w)
    }

    /// Same expiry buckets.
    pub open spec fn same_buckets(&self, other: &Pallet) -> bool {
        forall|blk: BlockNumber| #![trigger self.bucket(blk)] #![trigger other.bucket(blk)] self.bucket(blk) == other.bucket(blk)
    }

    /// Bucket bounds carry over when the buckets are untouched.
    proof fn lemma_buckets_carry(p: &Pallet, q: &Pallet)
        requires
            q.wf(),
            p.expirations@ == q.expirations@,
            p.config == q.config,
        ensures
            forall|blk: BlockNumber| #![trigger p.bucket(blk)] p.bucket(blk).no_duplicates() && p.bucket(blk).len() <= p.capacity(),
            p.deposits@ == q.deposits@ && p.sponsorships@ == q.sponsorships@ ==>
                forall|w: AccountId| #[trigger] p.deposit_of(w) != 0 ==> p.sponsorships@.contains_key(w),
    {
        assert forall|blk: BlockNumber| #![trigger p.bucket(blk)] p.bucket(blk).no_duplicates() && p.bucket(blk).len() <= p.capacity() by {
            assert(q.bucket(blk) == p.bucket(blk));
        }
        if p.deposits@ == q.deposits@ && p.sponsorships@ == q.sponsorships@ {
            assert forall|w: AccountId| #[trigger] p.deposit_of(w) != 0 implies p.sponsorships@.contains_key(w) by {
                assert(q.deposit_of(w) == p.deposit_of(w));
            }
        }
    }

    /// Bucket bounds carry over when only the bucket of `end` changed and it
    /// stayed within bounds.
    proof fn lemma_buckets_carry_but(p: &Pallet, q: &Pallet, end: BlockNumber)
        requires
            q.wf(),
            p.config == q.config,
            forall|blk: BlockNumber| blk != end ==> #[trigger] p.bucket(blk) == q.bucket(blk),
            p.bucket(end).no_duplicates(),
            p.bucket(end).len() <= p.capacity(),
        ensures
            forall|blk: BlockNumber| #![trigger p.bucket(blk)] p.bucket(blk).no_duplicates() && p.bucket(blk).len() <= p.capacity(),
            p.deposits@ == q.deposits@ && p.sponsorships@ == q.sponsorships@ ==>
                forall|w: AccountId| #[trigger] p.deposit_of(w) != 0 ==> p.sponsorships@.contains_key(w),
    {
        assert forall|blk: BlockNumber| #![trigger p.bucket(blk)] p.bucket(blk).no_duplicates() && p.bucket(blk).len() <= p.capacity() by {
            if blk != end {
                assert(q.bucket(blk) == p.bucket(blk));
            }
        }
        if p.deposits@ == q.deposits@ && p.sponsorships@ == q.sponsorships@ {
            assert forall|w: AccountId| #[trigger] p.deposit_of(w) != 0 implies p.sponsorships@.contains_key(w) by {
                assert(q.deposit_of(w) == p.deposit_of(w));
            }
        }
    }

    /// A storage deposit is only ever held for a sponsored beneficiary.
    pub proof fn lemma_deposit_only_when_sponsored(&self, beneficiary: AccountId)
        requires
            self.wf(),
        ensures
            self.deposit_of(beneficiary) != 0 ==> self.sponsorship_map().contains_key(beneficiary),
    {
    }

    /// The queue and every expiry bucket hold no beneficiary twice and at
    /// most the capacity.
    pub proof fn lemma_storage_bounds(&self)
        requires
            self.wf(),
        ensures
            self.queue().no_duplicates(),
            self.queue().len() <= self.capacity(),
            forall|blk: BlockNumber| #![trigger self.bucket(blk)]
                self.bucket(blk).no_duplicates() && self.bucket(blk).len() <= self.capacity(),
    {
    }

    /// A well-formed pallet stores finitely many sponsorships.
    pub proof fn lemma_records_finite(&self)
        requires
            self.wf(),
        ensures
            self.sponsorship_map().dom().finite(),
    {
    }

    /// The ledger invariant only depends on the records.
    proof fn lemma_same_records_consistent(p: &Pallet, q: &Pallet)
        requires
            q.ledger_consistent(),
            p.same_records(q),
        ensures
            p.ledger_consistent(),
    {
        assert forall|s: AccountId| #[trigger] p.ledger_of(s).active_amount == total_sponsored(p.sponsorship_map(), s)
            && p.ledger_of(s).active_count == count_sponsored(p.sponsorship_map(), s) by {
            assert(q.ledger_of(s) == p.ledger_of(s));
        }
    }

    /// Appending events keeps the invariant.
    proof fn lemma_events_only_wf(p: &Pallet, q: &Pallet)
        requires
            q.wf(),
            p.config == q.config,
            p.sponsorships@ == q.sponsorships@,
            p.deposits@ == q.deposits@,
            p.expirations@ == q.expirations@,
            p.queue@ == q.queue@,
        ensures
            p.wf(),
    {
        Self::lemma_buckets_carry(p, q);
    }

    /// An empty pallet with the given constants.
    pub fn new(config: Config) -> (p: Pallet)
        ensures
            p.wf(),
            p.cfg() == config,
            p.sponsorship_map() == Map::<AccountId, SponsorshipRecord>::empty(),
            forall|w: AccountId| #[trigger] p.ledger_of(w) == empty_sponsor_state(),
            forall|w: AccountId| #[trigger] p.deposit_of(w) == 0,
            forall|blk: BlockNumber| #[trigger] p.bucket(blk) == Seq::<AccountId>::empty(),
            p.queue() == Seq::<AccountId>::empty(),
            p.event_log() == Seq::<Event>::empty(),
            p.ledger_consistent(),
            p.queue_covers_auto_unlock(),
            p.buckets_cover_leases(),
    {
        let p = Pallet {
            config,
            sponsorships: HashMap::new(),
            ledger: HashMap::new(),
            deposits: HashMap::new(),
            expirations: HashMap::new(),
            queue: Vec::new(),
            events: Vec::new(),
        };
        proof {
            assert forall|s: AccountId| #[trigger] p.ledger_of(s).active_amount == total_sponsored(p.sponsorship_map(), s)
                && p.ledger_of(s).active_count == count_sponsored(p.sponsorship_map(), s) by {
                let set = crate::existential_sponsorship::sums::sponsored_by(p.sponsorship_map(), s);
                assert(set =~= Set::empty());
                crate::existential_sponsorship::sums::lemma_sum_empty(p.sponsorship_map());
            }
        }
        p
    }

    pub fn config(&self) -> (c: Config)
        ensures
            c == self.cfg(),
    {
        self.config
    }

    /// The sponsorship of `beneficiary`, if any.
    pub fn sponsorship(&self, beneficiary: AccountId) -> (r: Option<SponsorshipRecord>)
        ensures
            r == (if self.sponsorship_map().contains_key(beneficiary) {
                Some(self.sponsorship_map()[beneficiary])
            } else {
                None
            }),
    {
        match self.sponsorships.get(&beneficiary) {
            Some(r) => Some(*r),
            None => None,
        }
    }

    /// The ledger of `sponsor`.
    pub fn sponsor_ledger(&self, sponsor: AccountId) -> (l: SponsorState)
        ensures
            l == self.ledger_of(sponsor),
    {
        match self.ledger.get(&sponsor) {
            Some(l) => *l,
            None => SponsorState::default(),
        }
    }

    /// The storage deposit held for `beneficiary`'s sponsorship.
    pub fn storage_deposit_held(&self, beneficiary: AccountId) -> (d: Balance)
        ensures
            d == self.deposit_of(beneficiary),
    {
        match self.deposits.get(&beneficiary) {
            Some(d) => *d,
            None => 0,
        }
    }

    /// The beneficiaries whose leases end at `block`.
    pub fn expirations(&self, block: BlockNumber) -> (v: Vec<AccountId>)
        ensures
            v@ == self.bucket(block),
    {
        match self.expirations.get(&block) {
            Some(v) => copy_vec(v),
            None => Vec::new(),
        }
    }

    /// The auto-unlock queue.
    pub fn auto_unlock_queue(&self) -> (v: Vec<AccountId>)
        ensures
            v@ == self.queue(),
    {
        copy_vec(&self.queue)
    }

    /// The number of events deposited so far.
    pub fn event_count(&self) -> (n: usize)
        ensures
            n == self.event_log().len(),
    {
        self.events.len()
    }

    /// The `i`-th event deposited.
    pub fn event(&self, i: usize) -> (e: Event)
        requires
            i < self.event_log().len(),
        ensures
            e == self.event_log()[i as int],
    {
        self.events[i]
    }

    /// The smallest amount a sponsorship may have.
    pub fn minimum_sponsorship(&self) -> (m: Balance)
        ensures
            m == minimum_sponsorship_of(self.cfg()),
    {
        if self.config.min_sponsorship >= self.config.existential_deposit {
            self.config.min_sponsorship
        } else {
            self.config.existential_deposit
        }
    }

    /// Checks a lease at block `now`: it may not end in the past nor later
    /// than the longest lease allows.
    pub fn validate_lease(&self, lease: Lease, now: BlockNumber) -> (r: Result<(), Error>)
        ensures
            match r {
                Ok(()) => lease_error(lease, now, self.cfg().max_lease_duration) is None,
                Err(e) => lease_error(lease, now, self.cfg().max_lease_duration) == Some(e),
            },
    {
        match lease {
            Lease::Indefinite => Ok(()),
            Lease::Until(end) => {
                if end < now {
                    return Err(Error::LeaseInPast);
                }
                if end - now > self.config.max_lease_duration {
                    return Err(Error::LeaseTooLong);
                }
                Ok(())
            },
        }
    }

    /// Starts the per-block counters afresh when `now` is a new block.
    pub fn refresh_per_block_ledger(ledger: &mut SponsorState, now: BlockNumber)
        ensures
            *final(ledger) == refreshed(*old(ledger), now),
    {
        if ledger.last_block != now {
            ledger.last_block = now;
            ledger.sponsored_amount_in_block = 0;
            ledger.new_sponsorships_in_block = 0;
        }
    }

    /// Whether the beneficiary's own balance covers the sponsored amount.
    pub fn auto_unlock_condition_met(
        condition: AutoUnlockCondition,
        amount: Balance,
        funds: BeneficiaryFunds,
    ) -> (r: bool)
        ensures
            r == condition_met(condition, amount, funds),
    {
        match condition {
            AutoUnlockCondition::SpendableGeSponsored => funds.spendable >= amount,
            AutoUnlockCondition::FreeGeSponsored => funds.free >= amount,
        }
    }

    /// Whether recording `beneficiary` as expiring under `lease` would
    /// overflow its bucket.
    pub fn expiration_would_overflow(&self, beneficiary: AccountId, lease: Lease) -> (r: bool)
        ensures
            r == self.expiration_overflows(beneficiary, lease),
    {
        match lease {
            Lease::Indefinite => false,
            Lease::Until(end) => match self.expirations.get(&end) {
                Some(v) => !vec_contains(v, beneficiary) && v.len() >= self.config.max_queue_processing_per_block as usize,
                None => 0 >= self.config.max_queue_processing_per_block as usize,
            },
        }
    }

    /// Whether adding `beneficiary` to the auto-unlock queue would overflow it.
    pub fn queue_would_overflow(&self, beneficiary: AccountId) -> (r: bool)
        ensures
            r == self.queue_overflows(beneficiary),
    {
        !vec_contains(&self.queue, beneficiary) && self.queue.len() >= self.config.max_queue_processing_per_block as usize
    }

    /// Records `beneficiary` as expiring when its lease ends.
    pub fn insert_expiration(&mut self, beneficiary: AccountId, lease: Lease) -> (r: Result<(), Error>)
        requires
            old(self).wf(),
        ensures
            final(self).wf(),
            r is Err <==> old(self).expiration_overflows(beneficiary, lease),
            r is Err ==> r == Err::<(), Error>(Error::QueueFull) && *final(self) == *old(self),
            r is Ok ==> {
                &&& final(self).same_records(old(self))
                &&& final(self).queue() == old(self).queue()
                &&& final(self).event_log() == old(self).event_log()
                &&& forall|blk: BlockNumber| #[trigger] final(self).bucket(blk) == old(self).bucket_with(beneficiary, lease, blk)
            },
    {
        if self.expiration_would_overflow(beneficiary, lease) {
            return Err(Error::QueueFull);
        }
        if let Lease::Until(end) = lease {
            let present = match self.expirations.get(&end) {
                Some(v) => vec_contains(v, beneficiary),
                None => false,
            };
            if !present {
                let mut bucket = match self.expirations.remove(&end) {
                    Some(v) => v,
                    None => Vec::new(),
                };
                bucket.push(beneficiary);
                self.expirations.insert(end, bucket);
            }
            proof {
                lemma_with_member_no_duplicates(old(self).bucket(end), beneficiary);
                assert forall|blk: BlockNumber| #[trigger] self.bucket(blk) == old(self).bucket_with(beneficiary, lease, blk) by {
                    if blk == end && !present {
                        assert(self.bucket(blk) =~= old(self).bucket(end).push(beneficiary));
                    }
                }
                Self::lemma_buckets_carry_but(self, old(self), end);
            }
        }
        Ok(())
    }

    /// Forgets that `beneficiary` expires under `lease`.
    pub fn remove_expiration(&mut self, beneficiary: AccountId, lease: Lease)
        requires
            old(self).wf(),
        ensures
            final(self).wf(),
            final(self).same_records(old(self)),
            final(self).queue() == old(self).queue(),
            final(self).event_log() == old(self).event_log(),
            forall|blk: BlockNumber| #[trigger] final(self).bucket(blk) == old(self).bucket_without(beneficiary, lease, blk),
    {
        if let Lease::Until(end) = lease {
            let bucket = match self.expirations.get(&end) {
                Some(v) => vec_without(v, beneficiary),
                None => Vec::new(),
            };
            proof {
                if !old(self).expirations@.contains_key(end) {
                    reveal(Seq::filter);
                    assert(without(Seq::<AccountId>::empty(), beneficiary) =~= Seq::<AccountId>::empty());
                }
                lemma_without_no_duplicates(old(self).bucket(end), beneficiary);
            }
            self.expirations.insert(end, bucket);
            proof {
                Self::lemma_buckets_carry_but(self, old(self), end);
            }
        }
    }

    /// Adds `beneficiary` to the auto-unlock queue unless it is there.
    pub fn enqueue_auto_unlock(&mut self, beneficiary: AccountId) -> (r: Result<(), Error>)
        requires
            old(self).wf(),
        ensures
            final(self).wf(),
            r is Err <==> old(self).queue_overflows(beneficiary),
            r is Err ==> r == Err::<(), Error>(Error::QueueFull) && *final(self) == *old(self),
            r is Ok ==> {
                &&& final(self).same_records(old(self))
                &&& final(self).same_buckets(old(self))
                &&& final(self).event_log() == old(self).event_log()
                &&& final(self).queue() == with_member(old(self).queue(), beneficiary)
            },
    {
        if vec_contains(&self.queue, beneficiary) {
            return Ok(());
        }
        if self.queue.len() >= self.config.max_queue_processing_per_block as usize {
            return Err(Error::QueueFull);
        }
        self.queue.push(beneficiary);
        proof {
            lemma_with_member_no_duplicates(old(self).queue(), beneficiary);
            Self::lemma_buckets_carry(self, old(self));
        }
        Ok(())
    }

    /// Takes `beneficiary` out of the auto-unlock queue.
    pub fn dequeue_auto_unlock(&mut self, beneficiary: AccountId)
        requires
            old(self).wf(),
        ensures
            final(self).wf(),
            final(self).same_records(old(self)),
            final(self).same_buckets(old(self)),
            final(self).event_log() == old(self).event_log(),
            final(self).queue() == without(old(self).queue(), beneficiary),
    {
        let q = vec_without(&self.queue, beneficiary);
        proof {
            lemma_without_no_duplicates(old(self).queue(), beneficiary);
        }
        self.queue = q;
        proof {
            Self::lemma_buckets_carry(self, old(self));
        }
    }

    /// Why sponsoring `beneficiary` fails, if it does. The checks run in
    /// this order and the first that fails decides the error.
    pub open spec fn sponsor_failure(
        &self,
        sponsor: AccountId,
        beneficiary: AccountId,
        amount: Balance,
        auto_unlock: AutoUnlockMode,
        lease: Lease,
        env: SponsorEnv,
    ) -> Option<Error> {
        let cfg = self.cfg();
        let ledger = refreshed(self.ledger_of(sponsor), env.now);
        let deposit = cfg.sponsorship_storage_deposit;
        let total = sat_add(amount, deposit);
        if self.sponsorship_map().contains_key(beneficiary) {
            Some(Error::AlreadySponsored)
        } else if amount < minimum_sponsorship_of(cfg) {
            Some(Error::AmountTooLow)
        } else if lease_error(lease, env.now, cfg.max_lease_duration) is Some {
            lease_error(lease, env.now, cfg.max_lease_duration)
        } else if sat_add(ledger.active_amount, amount) > cfg.max_total_sponsored_per_sponsor {
            Some(Error::SponsorCapExceeded)
        } else if sat_add32(ledger.active_count, 1) > cfg.max_sponsored_accounts_per_sponsor {
            Some(Error::SponsorCountCapExceeded)
        } else if sat_add(ledger.sponsored_amount_in_block, amount) > cfg.max_sponsored_amount_per_block {
            Some(Error::SponsorPerBlockCapExceeded)
        } else if sat_add32(ledger.new_sponsorships_in_block, 1) > cfg.max_new_sponsorships_per_block {
            Some(Error::SponsorPerBlockCountExceeded)
        } else if env.sponsor_reducible < total {
            Some(Error::SponsorMinRemainingViolation)
        } else if sat_sub(env.sponsor_balance, total) < cfg.sponsor_min_remaining {
            Some(Error::SponsorMinRemainingViolation)
        } else if !env.beneficiary_hold_available {
            Some(Error::HoldUnavailable)
        } else if deposit != 0 && !env.sponsor_hold_available {
            Some(Error::HoldUnavailable)
        } else if !env.transfer_and_hold_ok {
            Some(Error::CannotTransferAndHold)
        } else if deposit != 0 && !env.deposit_hold_ok {
            Some(Error::StorageDepositFailed)
        } else if self.expiration_overflows(beneficiary, lease) {
            Some(Error::QueueFull)
        } else if auto_unlock is Enabled && self.queue_overflows(beneficiary) {
            Some(Error::QueueFull)
        } else {
            None
        }
    }

    /// `self` is `pre` after `sponsor` sponsored `beneficiary` with `amount`
    /// at block `now`.
    pub open spec fn sponsored_from(
        &self,
        pre: &Pallet,
        sponsor: AccountId,
        beneficiary: AccountId,
        amount: Balance,
        auto_unlock: AutoUnlockMode,
        lease: Lease,
        now: BlockNumber,
        emit_event: bool,
    ) -> bool {
        let deposit = pre.cfg().sponsorship_storage_deposit;
        &&& self.cfg() == pre.cfg()
        &&& self.sponsorship_map() == pre.sponsorship_map().insert(
            beneficiary,
            SponsorshipRecord { sponsor, amount, auto_unlock, lease, created_at: now },
        )
        &&& forall|w: AccountId| #[trigger] self.ledger_of(w) == (if w == sponsor {
            ledger_with_new(refreshed(pre.ledger_of(sponsor), now), amount)
        } else {
            pre.ledger_of(w)
        })
        &&& forall|w: AccountId| #[trigger] self.deposit_of(w) == (if w == beneficiary && deposit != 0 {
            deposit
        } else {
            pre.deposit_of(w)
        })
        &&& forall|blk: BlockNumber| #[trigger] self.bucket(blk) == pre.bucket_with(beneficiary, lease, blk)
        &&& self.queue() == (if auto_unlock is Enabled {
            with_member(pre.queue(), beneficiary)
        } else {
            pre.queue()
        })
        &&& self.event_log() == (if emit_event {
            pre.event_log().push(Event::Sponsored { sponsor, beneficiary, amount, auto_unlock, lease })
        } else {
            pre.event_log()
        })
    }

    /// The balance operations a sponsorship performs, in order: the
    /// beneficiary gets a provider reference, the amount moves from the
    /// sponsor onto hold at the beneficiary, and a non-zero storage deposit
    /// goes on hold at the sponsor.
    pub open spec fn sponsor_ops_of(cfg: Config, sponsor: AccountId, beneficiary: AccountId, amount: Balance) -> Seq<CurrencyOp> {
        let deposit = cfg.sponsorship_storage_deposit;
        seq![
            CurrencyOp::IncProviders { who: beneficiary },
            CurrencyOp::TransferAndHold { reason: HoldReason::Sponsorship, from: sponsor, to: beneficiary, amount },
        ] + (if deposit != 0 {
            seq![CurrencyOp::Hold { reason: HoldReason::StorageDeposit, who: sponsor, amount: deposit }]
        } else {
            Seq::empty()
        })
    }

    /// The balance operations that sponsoring `beneficiary` with `amount`
    /// performs.
    pub fn sponsor_ops(&self, sponsor: AccountId, beneficiary: AccountId, amount: Balance) -> (ops: Vec<CurrencyOp>)
        ensures
            ops@ == Self::sponsor_ops_of(self.cfg(), sponsor, beneficiary, amount),
    {
        let mut ops: Vec<CurrencyOp> = Vec::new();
        ops.push(CurrencyOp::IncProviders { who: beneficiary });
        ops.push(CurrencyOp::TransferAndHold { reason: HoldReason::Sponsorship, from: sponsor, to: beneficiary, amount });
        let deposit = self.config.sponsorship_storage_deposit;
        if deposit != 0 {
            ops.push(CurrencyOp::Hold { reason: HoldReason::StorageDeposit, who: sponsor, amount: deposit });
        }
        proof {
            let expected = Self::sponsor_ops_of(self.cfg(), sponsor, beneficiary, amount);
            assert(ops@ =~= expected);
        }
        ops
    }

    /// Creates a sponsorship of `beneficiary` by `sponsor`, given what the
    /// currency reported and what its operations did (`env`). All or
    /// nothing: on an error the storage is unchanged.
    pub fn do_sponsor(
        &mut self,
        sponsor: AccountId,
        beneficiary: AccountId,
        amount: Balance,
        auto_unlock: AutoUnlockMode,
        lease: Lease,
        emit_event: bool,
        env: &SponsorEnv,
    ) -> (r: Result<(), Error>)
        requires
            old(self).wf(),
        ensures
            final(self).wf(),
            match r {
                Ok(()) => old(self).sponsor_failure(sponsor, beneficiary, amount, auto_unlock, lease, *env) is None
                    && final(self).sponsored_from(old(self), sponsor, beneficiary, amount, auto_unlock, lease, env.now, emit_event),
                Err(e) => old(self).sponsor_failure(sponsor, beneficiary, amount, auto_unlock, lease, *env) == Some(e)
                    && *final(self) == *old(self),
            },
            old(self).ledger_consistent() && old(self).cfg().caps_below_max() ==> final(self).ledger_consistent(),
            old(self).queue_covers_auto_unlock() ==> final(self).queue_covers_auto_unlock(),
            old(self).buckets_cover_leases() ==> final(self).buckets_cover_leases(),
    {
        if self.sponsorships.contains_key(&beneficiary) {
            return Err(Error::AlreadySponsored);
        }
        if amount < self.minimum_sponsorship() {
            return Err(Error::AmountTooLow);
        }
        let now = env.now;
        self.validate_lease(lease, now)?;
        let mut ledger = self.sponsor_ledger(sponsor);
        Self::refresh_per_block_ledger(&mut ledger, now);
        let cfg = self.config;
        if ledger.active_amount.saturating_add(amount) > cfg.max_total_sponsored_per_sponsor {
            return Err(Error::SponsorCapExceeded);
        }
        if ledger.active_count.saturating_add(1) > cfg.max_sponsored_accounts_per_sponsor {
            return Err(Error::SponsorCountCapExceeded);
        }
        if ledger.sponsored_amount_in_block.saturating_add(amount) > cfg.max_sponsored_amount_per_block {
            return Err(Error::SponsorPerBlockCapExceeded);
        }
        if ledger.new_sponsorships_in_block.saturating_add(1) > cfg.max_new_sponsorships_per_block {
            return Err(Error::SponsorPerBlockCountExceeded);
        }
        let deposit = cfg.sponsorship_storage_deposit;
        let total_deduction = amount.saturating_add(deposit);
        if env.sponsor_reducible < total_deduction {
            return Err(Error::SponsorMinRemainingViolation);
        }
        if env.sponsor_balance.saturating_sub(total_deduction) < cfg.sponsor_min_remaining {
            return Err(Error::SponsorMinRemainingViolation);
        }
        if !env.beneficiary_hold_available {
            return Err(Error::HoldUnavailable);
        }
        if deposit != 0 && !env.sponsor_hold_available {
            return Err(Error::HoldUnavailable);
        }
        if !env.transfer_and_hold_ok {
            return Err(Error::CannotTransferAndHold);
        }
        if deposit != 0 && !env.deposit_hold_ok {
            return Err(Error::StorageDepositFailed);
        }
        if self.expiration_would_overflow(beneficiary, lease) {
            return Err(Error::QueueFull);
        }
        let enabled = match auto_unlock {
            AutoUnlockMode::Enabled(_) => true,
            AutoUnlockMode::Disabled => false,
        };
        if enabled && self.queue_would_overflow(beneficiary) {
            return Err(Error::QueueFull);
        }
        let record = SponsorshipRecord { sponsor, amount, auto_unlock, lease, created_at: now };
        self.sponsorships.insert(beneficiary, record);
        if deposit != 0 {
            self.deposits.insert(beneficiary, deposit);
        }
        ledger.active_amount = ledger.active_amount.saturating_add(amount);
        ledger.active_count = ledger.active_count.saturating_add(1);
        ledger.sponsored_amount_in_block = ledger.sponsored_amount_in_block.saturating_add(amount);
        ledger.new_sponsorships_in_block = ledger.new_sponsorships_in_block.saturating_add(1);
        self.ledger.insert(sponsor, ledger);
        proof {
            Self::lemma_buckets_carry(self, old(self));
            assert forall|w: AccountId| #[trigger] self.deposit_of(w) != 0 implies self.sponsorships@.contains_key(w) by {
                if w != beneficiary {
                    assert(old(self).deposit_of(w) == self.deposit_of(w));
                }
            }
        }
        let ghost mid = *self;
        let _ = self.insert_expiration(beneficiary, lease);
        let ghost mid2 = *self;
        if enabled {
            let _ = self.enqueue_auto_unlock(beneficiary);
        }
        let ghost mid3 = *self;
        if emit_event {
            self.events.push(Event::Sponsored { sponsor, beneficiary, amount, auto_unlock, lease });
        }
        proof {
            Self::lemma_buckets_carry(self, &mid3);
            assert(mid3.same_records(&mid));
            assert(self.same_records(&mid));
            assert forall|blk: BlockNumber| #[trigger] self.bucket(blk) == old(self).bucket_with(beneficiary, lease, blk) by {
                assert(mid3.bucket(blk) == mid2.bucket(blk));
                assert(mid2.bucket(blk) == mid.bucket_with(beneficiary, lease, blk));
                assert(mid.bucket(blk) == old(self).bucket(blk));
            }
            assert(mid.ledger@ == old(self).ledger@.insert(sponsor, ledger));
            assert forall|w: AccountId| #[trigger] self.ledger_of(w) == (if w == sponsor {
                ledger_with_new(refreshed(old(self).ledger_of(sponsor), now), amount)
            } else {
                old(self).ledger_of(w)
            }) by {
                assert(self.ledger_of(w) == mid.ledger_of(w));
            }
            assert forall|w: AccountId| #[trigger] self.deposit_of(w) == (if w == beneficiary && deposit != 0 {
                deposit
            } else {
                old(self).deposit_of(w)
            }) by {
                assert(self.deposit_of(w) == mid.deposit_of(w));
            }
            assert(self.queue() == (if auto_unlock is Enabled {
                with_member(old(self).queue(), beneficiary)
            } else {
                old(self).queue()
            }));
            assert(self.sponsored_from(old(self), sponsor, beneficiary, amount, auto_unlock, lease, env.now, emit_event));
            let m = old(self).sponsorship_map();
            if old(self).ledger_consistent() && old(self).cfg().caps_below_max() {
                assert forall|s: AccountId| #[trigger] self.ledger_of(s).active_amount == total_sponsored(self.sponsorship_map(), s)
                    && self.ledger_of(s).active_count == count_sponsored(self.sponsorship_map(), s) by {
                    lemma_totals_after_insert(m, beneficiary, record, s);
                    assert(old(self).ledger_of(s).active_amount == total_sponsored(m, s));
                    assert(self.ledger_of(s) == mid.ledger_of(s));
                }
            }
            if old(self).queue_covers_auto_unlock() {
                assert forall|b: AccountId| #[trigger] self.sponsorship_map().contains_key(b)
                    && self.sponsorship_map()[b].auto_unlock is Enabled implies self.queue().contains(b) by {
                    lemma_with_member_contains(old(self).queue(), beneficiary, b);
                    if b != beneficiary {
                        assert(old(self).sponsorship_map().contains_key(b));
                    }
                }
            }
            if old(self).buckets_cover_leases() {
                Self::lemma_cover_sponsored(self, old(self), sponsor, beneficiary, amount, auto_unlock, lease, env.now, emit_event);
            }
        }
        Ok(())
    }

    /// Why revoking `beneficiary`'s sponsorship fails, if it does, given what
    /// the currency's operations did.
    pub open spec fn revoke_failure(&self, beneficiary: AccountId, outcome: RevokeOutcome) -> Option<Error> {
        if !self.sponsorship_map().contains_key(beneficiary) {
            Some(Error::NotSponsored)
        } else if !outcome.transfer_on_hold_ok {
            Some(Error::CannotTransferOnHold)
        } else if self.deposit_of(beneficiary) != 0 && !outcome.release_ok {
            Some(Error::StorageDepositFailed)
        } else {
            None
        }
    }

    /// `self` is `pre` once `beneficiary`'s sponsorship is gone: the record,
    /// its deposit, its expiry entry and its queue entry are removed and its
    /// sponsor's ledger no longer counts it.
    pub open spec fn revoked_from(&self, pre: &Pallet, beneficiary: AccountId) -> bool {
        let r = pre.sponsorship_map()[beneficiary];
        &&& self.cfg() == pre.cfg()
        &&& self.sponsorship_map() == pre.sponsorship_map().remove(beneficiary)
        &&& forall|w: AccountId| #[trigger] self.ledger_of(w) == (if w == r.sponsor {
            ledger_without(pre.ledger_of(w), r.amount)
        } else {
            pre.ledger_of(w)
        })
        &&& forall|w: AccountId| #[trigger] self.deposit_of(w) == (if w == beneficiary { 0 } else { pre.deposit_of(w) })
        &&& forall|blk: BlockNumber| #[trigger] self.bucket(blk) == pre.bucket_without(beneficiary, r.lease, blk)
        &&& self.queue() == without(pre.queue(), beneficiary)
    }

    /// The balance operations that ending `beneficiary`'s sponsorship
    /// performs, in order: the held amount goes back to the sponsor as free
    /// balance, a non-zero storage deposit is released at the sponsor, and
    /// the beneficiary loses its provider reference. None where there is no
    /// sponsorship.
    pub open spec fn revoke_ops_of(&self, beneficiary: AccountId) -> Seq<CurrencyOp> {
        if !self.sponsorship_map().contains_key(beneficiary) {
            Seq::empty()
        } else {
            let r = self.sponsorship_map()[beneficiary];
            let deposit = self.deposit_of(beneficiary);
            seq![
                CurrencyOp::TransferOnHold {
                    reason: HoldReason::Sponsorship,
                    from: beneficiary,
                    to: r.sponsor,
                    amount: r.amount,
                },
            ] + (if deposit != 0 {
                seq![CurrencyOp::Release { reason: HoldReason::StorageDeposit, who: r.sponsor, amount: deposit }]
            } else {
                Seq::empty()
            }) + seq![CurrencyOp::DecProviders { who: beneficiary }]
        }
    }

    pub fn revoke_ops(&self, beneficiary: AccountId) -> (ops: Vec<CurrencyOp>)
        ensures
            ops@ == self.revoke_ops_of(beneficiary),
    {
        let mut ops: Vec<CurrencyOp> = Vec::new();
        match self.sponsorships.get(&beneficiary) {
            None => {},
            Some(r) => {
                let r = *r;
                ops.push(CurrencyOp::TransferOnHold {
                    reason: HoldReason::Sponsorship,
                    from: beneficiary,
                    to: r.sponsor,
                    amount: r.amount,
                });
                let deposit = self.storage_deposit_held(beneficiary);
                if deposit != 0 {
                    ops.push(CurrencyOp::Release { reason: HoldReason::StorageDeposit, who: r.sponsor, amount: deposit });
                }
                ops.push(CurrencyOp::DecProviders { who: beneficiary });
            },
        }
        proof {
            assert(ops@ =~= self.revoke_ops_of(beneficiary));
        }
        ops
    }

    /// Ends `beneficiary`'s sponsorship and returns its record, given what
    /// the currency's operations did. All or nothing.
    pub fn revoke_sponsorship(&mut self, beneficiary: AccountId, outcome: RevokeOutcome) -> (r: Result<SponsorshipRecord, Error>)
        requires
            old(self).wf(),
        ensures
            final(self).wf(),
            match r {
                Ok(rec) => old(self).revoke_failure(beneficiary, outcome) is None
                    && rec == old(self).sponsorship_map()[beneficiary]
                    && final(self).revoked_from(old(self), beneficiary)
                    && final(self).event_log() == old(self).event_log(),
                Err(e) => old(self).revoke_failure(beneficiary, outcome) == Some(e) && *final(self) == *old(self),
            },
            old(self).ledger_consistent() ==> final(self).ledger_consistent(),
            old(self).queue_covers_auto_unlock() ==> final(self).queue_covers_auto_unlock(),
            old(self).buckets_cover_leases() ==> final(self).buckets_cover_leases(),
    {
        let record = match self.sponsorships.get(&beneficiary) {
            Some(r) => *r,
            None => return Err(Error::NotSponsored),
        };
        if !outcome.transfer_on_hold_ok {
            return Err(Error::CannotTransferOnHold);
        }
        let deposit = self.storage_deposit_held(beneficiary);
        if deposit != 0 && !outcome.release_ok {
            return Err(Error::StorageDepositFailed);
        }
        self.deposits.remove(&beneficiary);
        self.sponsorships.remove(&beneficiary);
        let mut ledger = self.sponsor_ledger(record.sponsor);
        ledger.active_amount = ledger.active_amount.saturating_sub(record.amount);
        ledger.active_count = ledger.active_count.saturating_sub(1);
        self.ledger.insert(record.sponsor, ledger);
        proof {
            Self::lemma_buckets_carry(self, old(self));
            assert forall|w: AccountId| #[trigger] self.deposit_of(w) != 0 implies self.sponsorships@.contains_key(w) by {
                assert(old(self).deposit_of(w) == self.deposit_of(w));
            }
        }
        let ghost mid = *self;
        self.remove_expiration(beneficiary, record.lease);
        let ghost mid2 = *self;
        self.dequeue_auto_unlock(beneficiary);
        proof {
            assert(self.same_records(&mid));
            assert forall|blk: BlockNumber| #[trigger] self.bucket(blk) == old(self).bucket_without(beneficiary, record.lease, blk) by {
                assert(mid2.bucket(blk) == mid.bucket_without(beneficiary, record.lease, blk));
                assert(mid.bucket(blk) == old(self).bucket(blk));
            }
            assert forall|w: AccountId| #[trigger] self.ledger_of(w) == (if w == record.sponsor {
                ledger_without(old(self).ledger_of(w), record.amount)
            } else {
                old(self).ledger_of(w)
            }) by {
                assert(self.ledger_of(w) == mid.ledger_of(w));
            }
            assert forall|w: AccountId| #[trigger] self.deposit_of(w) == (if w == beneficiary { 0 } else { old(self).deposit_of(w) }) by {
                assert(self.deposit_of(w) == mid.deposit_of(w));
            }
            let m = old(self).sponsorship_map();
            if old(self).ledger_consistent() {
                lemma_total_covers_member(m, beneficiary);
                assert(old(self).ledger_of(record.sponsor).active_amount == total_sponsored(m, record.sponsor));
                assert forall|s: AccountId| #[trigger] self.ledger_of(s).active_amount == total_sponsored(self.sponsorship_map(), s)
                    && self.ledger_of(s).active_count == count_sponsored(self.sponsorship_map(), s) by {
                    lemma_totals_after_remove(m, beneficiary, s);
                    assert(old(self).ledger_of(s).active_amount == total_sponsored(m, s));
                    assert(self.ledger_of(s) == mid.ledger_of(s));
                }
            }
            if old(self).queue_covers_auto_unlock() {
                assert forall|b: AccountId| #[trigger] self.sponsorship_map().contains_key(b)
                    && self.sponsorship_map()[b].auto_unlock is Enabled implies self.queue().contains(b) by {
                    lemma_without_contains(old(self).queue(), beneficiary, b);
                    assert(old(self).sponsorship_map().contains_key(b));
                }
            }
            if old(self).buckets_cover_leases() {
                Self::lemma_cover_revoked(self, old(self), beneficiary);
            }
        }
        Ok(record)
    }

    /// Why an unlock by `origin` fails, if it does.
    pub open spec fn unlock_failure(&self, origin: Origin, beneficiary: AccountId, outcome: RevokeOutcome) -> Option<DispatchError> {
        match origin {
            Origin::Signed(caller) => if !self.sponsorship_map().contains_key(beneficiary) {
                Some(DispatchError::Module(Error::NotSponsored))
            } else if caller != self.sponsorship_map()[beneficiary].sponsor {
                Some(DispatchError::Module(Error::NotSponsor))
            } else if self.revoke_failure(beneficiary, outcome) is Some {
                Some(DispatchError::Module(self.revoke_failure(beneficiary, outcome).unwrap()))
            } else {
                None
            },
            _ => Some(DispatchError::BadOrigin),
        }
    }

    /// `self` is `pre` once `beneficiary`'s sponsorship ended for `reason`
    /// and the `Unlocked` event was deposited.
    pub open spec fn unlocked_from(&self, pre: &Pallet, beneficiary: AccountId, reason: UnlockReason) -> bool {
        let r = pre.sponsorship_map()[beneficiary];
        &&& self.revoked_from(pre, beneficiary)
        &&& self.event_log() == pre.event_log().push(
            Event::Unlocked { sponsor: r.sponsor, beneficiary, amount: r.amount, reason },
        )
    }

    /// Ends a sponsorship at the request of its sponsor; the sponsored
    /// amount goes back to the sponsor.
    pub fn unlock(&mut self, origin: Origin, beneficiary: AccountId, outcome: RevokeOutcome) -> (r: Result<(), DispatchError>)
        requires
            old(self).wf(),
        ensures
            final(self).wf(),
            match r {
                Ok(()) => old(self).unlock_failure(origin, beneficiary, outcome) is None
                    && final(self).unlocked_from(old(self), beneficiary, UnlockReason::Manual),
                Err(e) => old(self).unlock_failure(origin, beneficiary, outcome) == Some(e) && *final(self) == *old(self),
            },
            old(self).ledger_consistent() ==> final(self).ledger_consistent(),
            old(self).queue_covers_auto_unlock() ==> final(self).queue_covers_auto_unlock(),
            old(self).buckets_cover_leases() ==> final(self).buckets_cover_leases(),
    {
        let caller = match origin {
            Origin::Signed(who) => who,
            _ => return Err(DispatchError::BadOrigin),
        };
        match self.unlock_sponsorship(caller, beneficiary, outcome) {
            Ok(()) => Ok(()),
            Err(e) => Err(DispatchError::Module(e)),
        }
    }

    /// Ends a sponsorship at the request of the force origin (root); the
    /// sponsored amount goes back to the sponsor.
    pub fn force_unlock(&mut self, origin: Origin, beneficiary: AccountId, outcome: RevokeOutcome) -> (r: Result<(), DispatchError>)
        requires
            old(self).wf(),
        ensures
            final(self).wf(),
            match r {
                Ok(()) => origin == Origin::Root && old(self).revoke_failure(beneficiary, outcome) is None
                    && final(self).unlocked_from(old(self), beneficiary, UnlockReason::Force),
                Err(e) => *final(self) == *old(self) && (if origin != Origin::Root {
                    e == DispatchError::BadOrigin
                } else {
                    old(self).revoke_failure(beneficiary, outcome) == Some(e->Module_0) && e is Module
                }),
            },
            old(self).ledger_consistent() ==> final(self).ledger_consistent(),
            old(self).queue_covers_auto_unlock() ==> final(self).queue_covers_auto_unlock(),
            old(self).buckets_cover_leases() ==> final(self).buckets_cover_leases(),
    {
        if origin != Origin::Root {
            return Err(DispatchError::BadOrigin);
        }
        let record = match self.revoke_sponsorship(beneficiary, outcome) {
            Ok(rec) => rec,
            Err(e) => return Err(DispatchError::Module(e)),
        };
        let ghost mid = *self;
        self.events.push(Event::Unlocked {
            sponsor: record.sponsor,
            beneficiary,
            amount: record.amount,
            reason: UnlockReason::Force,
        });
        proof {
            Self::lemma_events_only_wf(self, &mid);
            assert(self.same_records(&mid));
            assert(self.same_buckets(&mid));
        }
        Ok(())
    }

    /// Ends a sponsorship on behalf of `sponsor`, who must be its sponsor.
    pub fn unlock_sponsorship(&mut self, sponsor: AccountId, beneficiary: AccountId, outcome: RevokeOutcome) -> (r: Result<(), Error>)
        requires
            old(self).wf(),
        ensures
            final(self).wf(),
            match r {
                Ok(()) => old(self).unlock_failure(Origin::Signed(sponsor), beneficiary, outcome) is None
                    && final(self).unlocked_from(old(self), beneficiary, UnlockReason::Manual),
                Err(e) => old(self).unlock_failure(Origin::Signed(sponsor), beneficiary, outcome) == Some(DispatchError::Module(e))
                    && *final(self) == *old(self),
            },
            old(self).ledger_consistent() ==> final(self).ledger_consistent(),
            old(self).queue_covers_auto_unlock() ==> final(self).queue_covers_auto_unlock(),
            old(self).buckets_cover_leases() ==> final(self).buckets_cover_leases(),
    {
        let record = match self.sponsorships.get(&beneficiary) {
            Some(r) => *r,
            None => return Err(Error::NotSponsored),
        };
        if record.sponsor != sponsor {
            return Err(Error::NotSponsor);
        }
        let record = self.revoke_sponsorship(beneficiary, outcome)?;
        let ghost mid = *self;
        self.events.push(Event::Unlocked {
            sponsor: record.sponsor,
            beneficiary,
            amount: record.amount,
            reason: UnlockReason::Manual,
        });
        proof {
            Self::lemma_events_only_wf(self, &mid);
            assert(self.same_records(&mid));
            assert(self.same_buckets(&mid));
        }
        Ok(())
    }

    /// Sponsors `beneficiary` with `amount` on behalf of the signed caller.
    pub fn sponsor(
        &mut self,
        origin: Origin,
        beneficiary: AccountId,
        amount: Balance,
        auto_unlock: AutoUnlockMode,
        lease: Lease,
        env: &SponsorEnv,
    ) -> (r: Result<(), DispatchError>)
        requires
            old(self).wf(),
        ensures
            final(self).wf(),
            match origin {
                Origin::Signed(sponsor) => match r {
                    Ok(()) => old(self).sponsor_failure(sponsor, beneficiary, amount, auto_unlock, lease, *env) is None
                        && final(self).sponsored_from(old(self), sponsor, beneficiary, amount, auto_unlock, lease, env.now, true),
                    Err(e) => Some(e) == (match old(self).sponsor_failure(sponsor, beneficiary, amount, auto_unlock, lease, *env) {
                        Some(err) => Some(DispatchError::Module(err)),
                        None => None,
                    }) && *final(self) == *old(self),
                },
                _ => r == Err::<(), DispatchError>(DispatchError::BadOrigin) && *final(self) == *old(self),
            },
            old(self).ledger_consistent() && old(self).cfg().caps_below_max() ==> final(self).ledger_consistent(),
            old(self).queue_covers_auto_unlock() ==> final(self).queue_covers_auto_unlock(),
            old(self).buckets_cover_leases() ==> final(self).buckets_cover_leases(),
    {
        let sponsor = match origin {
            Origin::Signed(who) => who,
            _ => return Err(DispatchError::BadOrigin),
        };
        match self.do_sponsor(sponsor, beneficiary, amount, auto_unlock, lease, true, env) {
            Ok(()) => Ok(()),
            Err(e) => Err(DispatchError::Module(e)),
        }
    }

    /// Sponsors `beneficiary` with the smallest amount allowed on behalf of
    /// the signed caller.
    pub fn sponsor_minimum(
        &mut self,
        origin: Origin,
        beneficiary: AccountId,
        auto_unlock: AutoUnlockMode,
        lease: Lease,
        env: &SponsorEnv,
    ) -> (r: Result<(), DispatchError>)
        requires
            old(self).wf(),
        ensures
            final(self).wf(),
            ({
                let amount = minimum_sponsorship_of(old(self).cfg());
                match origin {
                    Origin::Signed(sponsor) => match r {
                        Ok(()) => old(self).sponsor_failure(sponsor, beneficiary, amount, auto_unlock, lease, *env) is None
                            && final(self).sponsored_from(old(self), sponsor, beneficiary, amount, auto_unlock, lease, env.now, true),
                        Err(e) => Some(e) == (match old(self).sponsor_failure(sponsor, beneficiary, amount, auto_unlock, lease, *env) {
                            Some(err) => Some(DispatchError::Module(err)),
                            None => None,
                        }) && *final(self) == *old(self),
                    },
                    _ => r == Err::<(), DispatchError>(DispatchError::BadOrigin) && *final(self) == *old(self),
                }
            }),
            old(self).ledger_consistent() && old(self).cfg().caps_below_max() ==> final(self).ledger_consistent(),
            old(self).queue_covers_auto_unlock() ==> final(self).queue_covers_auto_unlock(),
            old(self).buckets_cover_leases() ==> final(self).buckets_cover_leases(),
    {
        let amount = self.minimum_sponsorship();
        self.sponsor(origin, beneficiary, amount, auto_unlock, lease, env)
    }

    /// Creates a sponsorship on behalf of another pallet; the `Sponsored`
    /// event is deposited.
    pub fn create_sponsorship(
        &mut self,
        sponsor: AccountId,
        beneficiary: AccountId,
        amount: Balance,
        auto_unlock: AutoUnlockMode,
        lease: Lease,
        env: &SponsorEnv,
    ) -> (r: Result<(), Error>)
        requires
            old(self).wf(),
        ensures
            final(self).wf(),
            match r {
                Ok(()) => old(self).sponsor_failure(sponsor, beneficiary, amount, auto_unlock, lease, *env) is None
                    && final(self).sponsored_from(old(self), sponsor, beneficiary, amount, auto_unlock, lease, env.now, true),
                Err(e) => old(self).sponsor_failure(sponsor, beneficiary, amount, auto_unlock, lease, *env) == Some(e)
                    && *final(self) == *old(self),
            },
            old(self).ledger_consistent() && old(self).cfg().caps_below_max() ==> final(self).ledger_consistent(),
            old(self).queue_covers_auto_unlock() ==> final(self).queue_covers_auto_unlock(),
            old(self).buckets_cover_leases() ==> final(self).buckets_cover_leases(),
    {
        self.do_sponsor(sponsor, beneficiary, amount, auto_unlock, lease, true, env)
    }

    /// Why the sponsor's policy change fails, if it does.
    pub open spec fn set_policy_failure(
        &self,
        origin: Origin,
        beneficiary: AccountId,
        auto_unlock: AutoUnlockMode,
        lease: Lease,
        now: BlockNumber,
    ) -> Option<DispatchError> {
        match origin {
            Origin::Signed(caller) => if !self.sponsorship_map().contains_key(beneficiary) {
                Some(DispatchError::Module(Error::NotSponsored))
            } else if caller != self.sponsorship_map()[beneficiary].sponsor {
                Some(DispatchError::Module(Error::NotSponsor))
            } else if lease_error(lease, now, self.cfg().max_lease_duration) is Some {
                Some(DispatchError::Module(lease_error(lease, now, self.cfg().max_lease_duration).unwrap()))
            } else if self.sponsorship_map()[beneficiary].lease != lease && self.expiration_overflows(beneficiary, lease) {
                Some(DispatchError::Module(Error::QueueFull))
            } else if auto_unlock is Enabled && self.queue_overflows(beneficiary) {
                Some(DispatchError::Module(Error::QueueFull))
            } else {
                None
            },
            _ => Some(DispatchError::BadOrigin),
        }
    }

    /// The bucket of `block` once `b` moved from expiring under `from` to
    /// expiring under `to`.
    pub open spec fn bucket_moved(&self, b: AccountId, from: Lease, to: Lease, block: BlockNumber) -> Seq<AccountId> {
        if from == to {
            self.bucket(block)
        } else if to == Lease::Until(block) {
            with_member(self.bucket(block), b)
        } else if from == Lease::Until(block) {
            without(self.bucket(block), b)
        } else {
            self.bucket(block)
        }
    }

    /// `self` is `pre` once `caller` gave `beneficiary`'s sponsorship a new
    /// auto-unlock mode and lease.
    pub open spec fn policy_set_from(
        &self,
        pre: &Pallet,
        caller: AccountId,
        beneficiary: AccountId,
        auto_unlock: AutoUnlockMode,
        lease: Lease,
    ) -> bool {
        let r = pre.sponsorship_map()[beneficiary];
        &&& self.cfg() == pre.cfg()
        &&& self.sponsorship_map() == pre.sponsorship_map().insert(
            beneficiary,
            SponsorshipRecord {
                sponsor: r.sponsor,
                amount: r.amount,
                auto_unlock,
                lease,
                created_at: r.created_at,
            },
        )
        &&& forall|w: AccountId| #[trigger] self.ledger_of(w) == pre.ledger_of(w)
        &&& forall|w: AccountId| #[trigger] self.deposit_of(w) == pre.deposit_of(w)
        &&& forall|blk: BlockNumber| #[trigger] self.bucket(blk) == pre.bucket_moved(beneficiary, r.lease, lease, blk)
        &&& self.queue() == (if auto_unlock is Enabled {
            with_member(pre.queue(), beneficiary)
        } else {
            pre.queue()
        })
        &&& self.event_log() == pre.event_log().push(
            Event::PolicyUpdated { sponsor: caller, beneficiary, auto_unlock, lease },
        )
    }

    /// A changed lease moves the sponsorship to the bucket of its new lease.
    proof fn lemma_cover_policy(
        post: &Pallet,
        pre: &Pallet,
        caller: AccountId,
        beneficiary: AccountId,
        auto_unlock: AutoUnlockMode,
        lease: Lease,
    )
        requires
            pre.buckets_cover_leases(),
            pre.sponsorship_map().contains_key(beneficiary),
            post.policy_set_from(pre, caller, beneficiary, auto_unlock, lease),
        ensures
            post.buckets_cover_leases(),
    {
        let from = pre.sponsorship_map()[beneficiary].lease;
        assert forall|b: AccountId| #[trigger] post.sponsorship_map().contains_key(b)
            && post.sponsorship_map()[b].lease is Until
            implies post.bucket(post.sponsorship_map()[b].lease->Until_0).contains(b) by {
            let t = post.sponsorship_map()[b].lease->Until_0;
            lemma_with_member_contains(pre.bucket(t), beneficiary, b);
            lemma_without_contains(pre.bucket(t), beneficiary, b);
            if b != beneficiary {
                assert(pre.bucket(t).contains(b));
            }
        }
    }

    /// Lets the sponsor change a sponsorship's auto-unlock mode and lease.
    /// All or nothing.
    pub fn set_policy(
        &mut self,
        origin: Origin,
        beneficiary: AccountId,
        auto_unlock: AutoUnlockMode,
        lease: Lease,
        now: BlockNumber,
    ) -> (r: Result<(), DispatchError>)
        requires
            old(self).wf(),
        ensures
            final(self).wf(),
            match r {
                Ok(()) => old(self).set_policy_failure(origin, beneficiary, auto_unlock, lease, now) is None
                    && final(self).policy_set_from(old(self), origin->Signed_0, beneficiary, auto_unlock, lease),
                Err(e) => old(self).set_policy_failure(origin, beneficiary, auto_unlock, lease, now) == Some(e)
                    && *final(self) == *old(self),
            },
            old(self).ledger_consistent() ==> final(self).ledger_consistent(),
            old(self).queue_covers_auto_unlock() ==> final(self).queue_covers_auto_unlock(),
            old(self).buckets_cover_leases() ==> final(self).buckets_cover_leases(),
    {
        let caller = match origin {
            Origin::Signed(who) => who,
            _ => return Err(DispatchError::BadOrigin),
        };
        let record = match self.sponsorships.get(&beneficiary) {
            Some(r) => *r,
            None => return Err(DispatchError::Module(Error::NotSponsored)),
        };
        if caller != record.sponsor {
            return Err(DispatchError::Module(Error::NotSponsor));
        }
        match self.validate_lease(lease, now) {
            Ok(()) => {},
            Err(e) => return Err(DispatchError::Module(e)),
        }
        let lease_changed = record.lease != lease;
        if lease_changed && self.expiration_would_overflow(beneficiary, lease) {
            return Err(DispatchError::Module(Error::QueueFull));
        }
        let enabled = match auto_unlock {
            AutoUnlockMode::Enabled(_) => true,
            AutoUnlockMode::Disabled => false,
        };
        if enabled && self.queue_would_overflow(beneficiary) {
            return Err(DispatchError::Module(Error::QueueFull));
        }
        let ghost s0 = *self;
        if lease_changed {
            let _ = self.insert_expiration(beneficiary, lease);
        }
        let ghost s1 = *self;
        if lease_changed {
            self.remove_expiration(beneficiary, record.lease);
        }
        let ghost s2 = *self;
        if enabled {
            let _ = self.enqueue_auto_unlock(beneficiary);
        }
        let ghost s3 = *self;
        let new_record = SponsorshipRecord {
            sponsor: record.sponsor,
            amount: record.amount,
            auto_unlock,
            lease,
            created_at: record.created_at,
        };
        self.sponsorships.insert(beneficiary, new_record);
        self.events.push(Event::PolicyUpdated { sponsor: caller, beneficiary, auto_unlock, lease });
        proof {
            Self::lemma_buckets_carry(self, &s3);
            assert(s3.same_records(&s0));
            assert forall|w: AccountId| #[trigger] self.ledger_of(w) == old(self).ledger_of(w) by {
                assert(s3.ledger_of(w) == s0.ledger_of(w));
            }
            assert forall|w: AccountId| #[trigger] self.deposit_of(w) == old(self).deposit_of(w) by {
                assert(s3.deposit_of(w) == s0.deposit_of(w));
            }
            assert forall|blk: BlockNumber| #[trigger] self.bucket(blk) == old(self).bucket_moved(beneficiary, record.lease, lease, blk) by {
                assert(s3.bucket(blk) == s2.bucket(blk));
                if lease_changed {
                    assert(s2.bucket(blk) == s1.bucket_without(beneficiary, record.lease, blk));
                    assert(s1.bucket(blk) == s0.bucket_with(beneficiary, lease, blk));
                    if lease == Lease::Until(blk) {
                        assert(record.lease != Lease::Until(blk));
                    }
                }
            }
            let m = old(self).sponsorship_map();
            if old(self).ledger_consistent() {
                assert forall|s: AccountId| #[trigger] self.ledger_of(s).active_amount == total_sponsored(self.sponsorship_map(), s)
                    && self.ledger_of(s).active_count == count_sponsored(self.sponsorship_map(), s) by {
                    lemma_totals_after_update(m, beneficiary, new_record, s);
                    assert(old(self).ledger_of(s).active_amount == total_sponsored(m, s));
                }
            }
            if old(self).queue_covers_auto_unlock() {
                assert forall|b: AccountId| #[trigger] self.sponsorship_map().contains_key(b)
                    && self.sponsorship_map()[b].auto_unlock is Enabled implies self.queue().contains(b) by {
                    lemma_with_member_contains(old(self).queue(), beneficiary, b);
                    if b != beneficiary {
                        assert(old(self).sponsorship_map().contains_key(b));
                    }
                }
            }
            if old(self).buckets_cover_leases() {
                assert(self.policy_set_from(old(self), caller, beneficiary, auto_unlock, lease));
                Self::lemma_cover_policy(self, old(self), caller, beneficiary, auto_unlock, lease);
            }
        }
        Ok(())
    }

    /// Why an auto-unlock attempt fails, if it does.
    pub open spec fn auto_unlock_failure(&self, beneficiary: AccountId, funds: BeneficiaryFunds, outcome: RevokeOutcome) -> Option<Error> {
        if !self.sponsorship_map().contains_key(beneficiary) {
            Some(Error::NotSponsored)
        } else if self.auto_unlock_due(beneficiary, funds) {
            self.revoke_failure(beneficiary, outcome)
        } else {
            None
        }
    }

    /// Whether `beneficiary`'s sponsorship has auto-unlock enabled and its
    /// condition is met by the beneficiary's own funds.
    pub open spec fn auto_unlock_due(&self, beneficiary: AccountId, funds: BeneficiaryFunds) -> bool {
        let r = self.sponsorship_map()[beneficiary];
        match r.auto_unlock {
            AutoUnlockMode::Enabled(c) => condition_met(c, r.amount, funds),
            AutoUnlockMode::Disabled => false,
        }
    }

    /// Ends `beneficiary`'s sponsorship if its auto-unlock condition is met,
    /// and says whether it did.
    pub fn try_auto_unlock_internal(
        &mut self,
        beneficiary: AccountId,
        funds: BeneficiaryFunds,
        outcome: RevokeOutcome,
        emit_event: bool,
    ) -> (r: Result<bool, Error>)
        requires
            old(self).wf(),
        ensures
            final(self).wf(),
            match r {
                Ok(unlocked) => old(self).auto_unlock_failure(beneficiary, funds, outcome) is None
                    && unlocked == old(self).auto_unlock_due(beneficiary, funds)
                    && (if unlocked {
                        let rec = old(self).sponsorship_map()[beneficiary];
                        &&& final(self).revoked_from(old(self), beneficiary)
                        &&& final(self).event_log() == (if emit_event {
                            old(self).event_log().push(Event::AutoUnlocked {
                                sponsor: rec.sponsor,
                                beneficiary,
                                amount: rec.amount,
                                condition: rec.auto_unlock->Enabled_0,
                            })
                        } else {
                            old(self).event_log()
                        })
                    } else {
                        *final(self) == *old(self)
                    }),
                Err(e) => old(self).auto_unlock_failure(beneficiary, funds, outcome) == Some(e) && *final(self) == *old(self),
            },
            old(self).ledger_consistent() ==> final(self).ledger_consistent(),
            old(self).queue_covers_auto_unlock() ==> final(self).queue_covers_auto_unlock(),
            old(self).buckets_cover_leases() ==> final(self).buckets_cover_leases(),
    {
        let record = match self.sponsorships.get(&beneficiary) {
            Some(r) => *r,
            None => return Err(Error::NotSponsored),
        };
        let condition = match record.auto_unlock {
            AutoUnlockMode::Enabled(c) => c,
            AutoUnlockMode::Disabled => return Ok(false),
        };
        if !Self::auto_unlock_condition_met(condition, record.amount, funds) {
            return Ok(false);
        }
        let record = self.revoke_sponsorship(beneficiary, outcome)?;
        if emit_event {
            let ghost mid = *self;
            self.events.push(Event::AutoUnlocked { sponsor: record.sponsor, beneficiary, amount: record.amount, condition });
            proof {
                Self::lemma_events_only_wf(self, &mid);
                assert(self.same_records(&mid));
                assert(self.same_buckets(&mid));
            }
        }
        Ok(true)
    }

    /// Lets anyone trigger the auto-unlock check of a sponsorship.
    pub fn refresh(
        &mut self,
        origin: Origin,
        beneficiary: AccountId,
        funds: BeneficiaryFunds,
        outcome: RevokeOutcome,
    ) -> (r: Result<(), DispatchError>)
        requires
            old(self).wf(),
        ensures
            final(self).wf(),
            match origin {
                Origin::Signed(_) => match r {
                    Ok(()) => old(self).auto_unlock_failure(beneficiary, funds, outcome) is None
                        && (if old(self).auto_unlock_due(beneficiary, funds) {
                            let rec = old(self).sponsorship_map()[beneficiary];
                            &&& final(self).revoked_from(old(self), beneficiary)
                            &&& final(self).event_log() == old(self).event_log().push(Event::AutoUnlocked {
                                sponsor: rec.sponsor,
                                beneficiary,
                                amount: rec.amount,
                                condition: rec.auto_unlock->Enabled_0,
                            })
                        } else {
                            *final(self) == *old(self)
                        }),
                    Err(e) => Some(e) == (match old(self).auto_unlock_failure(beneficiary, funds, outcome) {
                        Some(err) => Some(DispatchError::Module(err)),
                        None => None,
                    }) && *final(self) == *old(self),
                },
                _ => r == Err::<(), DispatchError>(DispatchError::BadOrigin) && *final(self) == *old(self),
            },
            old(self).ledger_consistent() ==> final(self).ledger_consistent(),
            old(self).queue_covers_auto_unlock() ==> final(self).queue_covers_auto_unlock(),
            old(self).buckets_cover_leases() ==> final(self).buckets_cover_leases(),
    {
        match origin {
            Origin::Signed(_) => {},
            _ => return Err(DispatchError::BadOrigin),
        }
        match self.try_auto_unlock_internal(beneficiary, funds, outcome, true) {
            Ok(_) => Ok(()),
            Err(e) => Err(DispatchError::Module(e)),
        }
    }

    /// The auto-unlock check on behalf of another pallet.
    pub fn try_auto_unlock(&mut self, beneficiary: AccountId, funds: BeneficiaryFunds, outcome: RevokeOutcome) -> (r: Result<(), Error>)
        requires
            old(self).wf(),
        ensures
            final(self).wf(),
            match r {
                Ok(()) => old(self).auto_unlock_failure(beneficiary, funds, outcome) is None
                    && (if old(self).auto_unlock_due(beneficiary, funds) {
                        let rec = old(self).sponsorship_map()[beneficiary];
                        &&& final(self).revoked_from(old(self), beneficiary)
                        &&& final(self).event_log() == old(self).event_log().push(Event::AutoUnlocked {
                            sponsor: rec.sponsor,
                            beneficiary,
                            amount: rec.amount,
                            condition: rec.auto_unlock->Enabled_0,
                        })
                    } else {
                        *final(self) == *old(self)
                    }),
                Err(e) => old(self).auto_unlock_failure(beneficiary, funds, outcome) == Some(e) && *final(self) == *old(self),
            },
            old(self).ledger_consistent() ==> final(self).ledger_consistent(),
            old(self).queue_covers_auto_unlock() ==> final(self).queue_covers_auto_unlock(),
            old(self).buckets_cover_leases() ==> final(self).buckets_cover_leases(),
    {
        let _ = self.try_auto_unlock_internal(beneficiary, funds, outcome, true)?;
        Ok(())
    }

    /// The sponsorship of `beneficiary` as other pallets see it.
    pub fn sponsorship_of(&self, beneficiary: AccountId) -> (v: Option<SponsorshipView>)
        ensures
            match v {
                Some(view) => self.sponsorship_map().contains_key(beneficiary) && ({
                    let r = self.sponsorship_map()[beneficiary];
                    view == SponsorshipView {
                        sponsor: r.sponsor,
                        beneficiary,
                        amount: r.amount,
                        auto_unlock: r.auto_unlock,
                        lease: r.lease,
                        created_at: r.created_at,
                    }
                }),
                None => !self.sponsorship_map().contains_key(beneficiary),
            },
    {
        match self.sponsorships.get(&beneficiary) {
            Some(r) => Some(SponsorshipView {
                sponsor: r.sponsor,
                beneficiary,
                amount: r.amount,
                auto_unlock: r.auto_unlock,
                lease: r.lease,
                created_at: r.created_at,
            }),
            None => None,
        }
    }

    pub fn is_sponsored(&self, beneficiary: AccountId) -> (b: bool)
        ensures
            b == self.sponsorship_map().contains_key(beneficiary),
    {
        self.sponsorships.contains_key(&beneficiary)
    }

    /// The sponsored amount of `beneficiary` (zero when not sponsored).
    pub fn sponsored_amount(&self, beneficiary: AccountId) -> (a: Balance)
        ensures
            a == (if self.sponsorship_map().contains_key(beneficiary) {
                self.sponsorship_map()[beneficiary].amount
            } else {
                0
            }),
    {
        match self.sponsorships.get(&beneficiary) {
            Some(r) => r.amount,
            None => 0,
        }
    }

    pub fn sponsor_of(&self, beneficiary: AccountId) -> (s: Option<AccountId>)
        ensures
            s == (if self.sponsorship_map().contains_key(beneficiary) {
                Some(self.sponsorship_map()[beneficiary].sponsor)
            } else {
                None
            }),
    {
        match self.sponsorships.get(&beneficiary) {
            Some(r) => Some(r.sponsor),
            None => None,
        }
    }
}

/// Whether `x` occurs in `items` at a position in `lo..hi`.
pub open spec fn occurs_between(items: Seq<AccountId>, lo: int, hi: int, x: AccountId) -> bool {
    exists|j: int| lo <= j < hi && 0 <= j < items.len() && #[trigger] items[j] == x
}

/// One pass over the beneficiaries whose leases end at a block. The runtime
/// drives it: for each entry it asks [`Pallet::expiry_probe`] what is needed,
/// performs the revocation's balance operations when one is due, and hands
/// their outcome to [`Pallet::expiry_step`].
pub struct ExpiryRound {
    block: BlockNumber,
    items: Vec<AccountId>,
    next: usize,
}

impl ExpiryRound {
    /// The block whose expiries are processed.
    pub closed spec fn block(&self) -> BlockNumber {
        self.block
    }

    /// The beneficiaries recorded as expiring at the block.
    pub closed spec fn items(&self) -> Seq<AccountId> {
        self.items@
    }

    /// How many entries were processed so far.
    pub closed spec fn cursor(&self) -> nat {
        self.next as nat
    }

    pub closed spec fn wf(&self) -> bool {
        &&& self.next <= self.items@.len()
        &&& self.items@.len() <= u32::MAX
    }

    pub fn is_done(&self) -> (b: bool)
        requires
            self.wf(),
        ensures
            b == (self.cursor() == self.items().len()),
    {
        self.next == self.items.len()
    }
}

/// What the next entry of an expiry pass needs.
#[derive(Clone, Copy, Debug, PartialEq, Eq, Structural)]
pub enum ExpiryProbe {
    /// Every entry was processed.
    Done,
    /// The entry is no longer sponsored under a lease ending at this block;
    /// nothing is done for it.
    Skip { beneficiary: AccountId },
    /// The sponsorship expires: perform its revocation's balance operations.
    Revoke { beneficiary: AccountId },
}

/// One pass over the auto-unlock queue, driven like [`ExpiryRound`].
pub struct AutoUnlockRound {
    items: Vec<AccountId>,
    next: usize,
    limit: usize,
    unprocessed: Vec<AccountId>,
    requeue: Vec<AccountId>,
    processed: u32,
}

impl AutoUnlockRound {
    /// The queue as it was when the pass began.
    pub closed spec fn items(&self) -> Seq<AccountId> {
        self.items@
    }

    /// How many entries were looked at so far.
    pub closed spec fn cursor(&self) -> nat {
        self.next as nat
    }

    /// How many entries one pass may check; later ones wait for the next pass.
    pub closed spec fn limit(&self) -> nat {
        self.limit as nat
    }

    /// Entries beyond the limit, kept for the next pass.
    pub closed spec fn postponed(&self) -> Seq<AccountId> {
        self.unprocessed@
    }

    /// Entries checked and kept because they were not unlocked.
    pub closed spec fn requeued(&self) -> Seq<AccountId> {
        self.requeue@
    }

    /// How many entries were checked.
    pub closed spec fn processed(&self) -> u32 {
        self.processed
    }

    pub closed spec fn wf(&self) -> bool {
        &&& self.next <= self.items@.len()
        &&& self.items@.no_duplicates()
        &&& self.items@.len() <= self.limit
        &&& self.limit <= u32::MAX
        &&& self.processed as int == (if self.next <= self.limit { self.next as int } else { self.limit as int })
        &&& self.unprocessed@.no_duplicates()
        &&& self.requeue@.no_duplicates()
        &&& self.unprocessed@.len() + self.requeue@.len() <= self.next
        &&& forall|k: int| 0 <= k < self.unprocessed@.len() ==> occurs_between(self.items@, self.limit as int, self.next as int, #[trigger] self.unprocessed@[k])
        &&& forall|k: int| 0 <= k < self.requeue@.len() ==> occurs_between(self.items@, 0, if self.next <= self.limit { self.next as int } else { self.limit as int }, #[trigger] self.requeue@[k])
    }

    pub fn is_done(&self) -> (b: bool)
        requires
            self.wf(),
        ensures
            b == (self.cursor() == self.items().len()),
    {
        self.next == self.items.len()
    }
}

/// What the next entry of an auto-unlock pass needs.
#[derive(Clone, Copy, Debug, PartialEq, Eq, Structural)]
pub enum AutoUnlockProbe {
    /// Every entry was looked at.
    Done,
    /// The entry is beyond this pass's limit and waits for the next one.
    Postpone { beneficiary: AccountId },
    /// The entry is no longer sponsored, or no longer has auto-unlock
    /// enabled; it leaves the queue.
    Drop { beneficiary: AccountId },
    /// Report the beneficiary's funds; if `condition` holds for `amount`,
    /// also perform the revocation's balance operations.
    Check { beneficiary: AccountId, condition: AutoUnlockCondition, amount: Balance },
}

impl Pallet {
    /// Whether `beneficiary`'s sponsorship expires at `block`.
    pub open spec fn expiry_due(&self, block: BlockNumber, beneficiary: AccountId) -> bool {
        &&& self.sponsorship_map().contains_key(beneficiary)
        &&& self.sponsorship_map()[beneficiary].lease == Lease::Until(block)
    }

    /// Every sponsorship with a lease is still to be looked at in the pass
    /// when its lease ends at the pass's block, and listed in the bucket of
    /// its lease's last block otherwise.
    pub open spec fn expiry_round_covers(&self, round: &ExpiryRound) -> bool {
        forall|b: AccountId| #[trigger] self.sponsorship_map().contains_key(b)
            && self.sponsorship_map()[b].lease is Until
            ==> if self.sponsorship_map()[b].lease->Until_0 == round.block() {
                round.items().skip(round.cursor() as int).contains(b)
            } else {
                self.bucket(self.sponsorship_map()[b].lease->Until_0).contains(b)
            }
    }

    /// Looking at an entry keeps the pass's coverage, unless the entry was
    /// due and stayed (its revocation failed).
    proof fn lemma_expiry_round_advance(post: &Pallet, pre: &Pallet, r0: &ExpiryRound, r1: &ExpiryRound)
        requires
            pre.expiry_round_covers(r0),
            r0.cursor() < r0.items().len(),
            r1.items() == r0.items(),
            r1.block() == r0.block(),
            r1.cursor() == r0.cursor() + 1,
            ({
                let b = r0.items()[r0.cursor() as int];
                ||| post.sponsorship_map() == pre.sponsorship_map() && post.same_buckets(pre)
                    && !pre.expiry_due(r0.block(), b)
                ||| pre.sponsorship_map().contains_key(b) && post.revoked_from(pre, b)
            }),
        ensures
            post.expiry_round_covers(r1),
    {
        let c = r0.cursor() as int;
        let b = r0.items()[c];
        assert(r0.items().skip(c) =~= seq![b] + r0.items().skip(c + 1));
        assert forall|w: AccountId| #[trigger] post.sponsorship_map().contains_key(w)
            && post.sponsorship_map()[w].lease is Until
            implies (if post.sponsorship_map()[w].lease->Until_0 == r1.block() {
                r1.items().skip(r1.cursor() as int).contains(w)
            } else {
                post.bucket(post.sponsorship_map()[w].lease->Until_0).contains(w)
            }) by {
            let t = post.sponsorship_map()[w].lease->Until_0;
            assert(pre.sponsorship_map().contains_key(w));
            assert(pre.sponsorship_map()[w] == post.sponsorship_map()[w]);
            if t == r0.block() {
                assert(r0.items().skip(c).contains(w));
                assert(w != b);
                let j = choose|j: int| 0 <= j < r0.items().skip(c).len() && r0.items().skip(c)[j] == w;
                assert(j != 0);
                assert(r0.items().skip(c + 1)[j - 1] == w);
            } else {
                assert(pre.bucket(t).contains(w));
                if pre.sponsorship_map().contains_key(b) && post.revoked_from(pre, b) {
                    lemma_without_contains(pre.bucket(t), b, w);
                }
            }
        }
    }

    /// Once the pass has looked at every entry, every remaining lease is
    /// listed in its bucket again.
    pub proof fn lemma_finished_expiry_round_covers(&self, round: &ExpiryRound)
        requires
            self.expiry_round_covers(round),
            round.cursor() == round.items().len(),
        ensures
            self.buckets_cover_leases(),
    {
        assert forall|b: AccountId| #[trigger] self.sponsorship_map().contains_key(b)
            && self.sponsorship_map()[b].lease is Until
            implies self.bucket(self.sponsorship_map()[b].lease->Until_0).contains(b) by {
            if self.sponsorship_map()[b].lease->Until_0 == round.block() {
                assert(round.items().skip(round.cursor() as int).len() == 0);
            }
        }
    }

    /// Starts the pass over the sponsorships expiring at `now`; their bucket
    /// is taken out of storage.
    pub fn begin_expiry_round(&mut self, now: BlockNumber) -> (round: ExpiryRound)
        requires
            old(self).wf(),
        ensures
            final(self).wf(),
            round.wf(),
            round.block() == now,
            round.items() == old(self).bucket(now),
            round.items().len() <= old(self).capacity(),
            round.cursor() == 0,
            final(self).same_records(old(self)),
            final(self).queue() == old(self).queue(),
            final(self).event_log() == old(self).event_log(),
            forall|blk: BlockNumber| #[trigger] final(self).bucket(blk) == (if blk == now {
                Seq::<AccountId>::empty()
            } else {
                old(self).bucket(blk)
            }),
            old(self).ledger_consistent() ==> final(self).ledger_consistent(),
            old(self).queue_covers_auto_unlock() ==> final(self).queue_covers_auto_unlock(),
            old(self).buckets_cover_leases() ==> final(self).expiry_round_covers(&round),
    {
        let items = match self.expirations.remove(&now) {
            Some(v) => v,
            None => Vec::new(),
        };
        proof {
            assert(old(self).bucket(now).len() <= old(self).capacity());
            Self::lemma_buckets_carry_but(self, old(self), now);
            if old(self).ledger_consistent() {
                Self::lemma_same_records_consistent(self, old(self));
            }
        }
        let round = ExpiryRound { block: now, items, next: 0 };
        proof {
            if old(self).buckets_cover_leases() {
                assert(round.items().skip(0) =~= round.items());
                assert forall|b: AccountId| #[trigger] self.sponsorship_map().contains_key(b)
                    && self.sponsorship_map()[b].lease is Until
                    implies (if self.sponsorship_map()[b].lease->Until_0 == round.block() {
                        round.items().skip(round.cursor() as int).contains(b)
                    } else {
                        self.bucket(self.sponsorship_map()[b].lease->Until_0).contains(b)
                    }) by {
                    assert(old(self).bucket(old(self).sponsorship_map()[b].lease->Until_0).contains(b));
                }
            }
        }
        round
    }

    /// What the next entry of the pass needs.
    pub fn expiry_probe(&self, round: &ExpiryRound) -> (p: ExpiryProbe)
        requires
            round.wf(),
        ensures
            p == (if round.cursor() == round.items().len() {
                ExpiryProbe::Done
            } else if self.expiry_due(round.block(), round.items()[round.cursor() as int]) {
                ExpiryProbe::Revoke { beneficiary: round.items()[round.cursor() as int] }
            } else {
                ExpiryProbe::Skip { beneficiary: round.items()[round.cursor() as int] }
            }),
    {
        if round.next == round.items.len() {
            return ExpiryProbe::Done;
        }
        let beneficiary = round.items[round.next];
        match self.sponsorships.get(&beneficiary) {
            Some(r) => if r.lease == Lease::Until(round.block) {
                ExpiryProbe::Revoke { beneficiary }
            } else {
                ExpiryProbe::Skip { beneficiary }
            },
            None => ExpiryProbe::Skip { beneficiary },
        }
    }

    /// Processes the next entry of the pass: a sponsorship whose lease ends
    /// at the pass's block is revoked (and `Expired` deposited) when its
    /// balance operations succeeded; otherwise nothing changes.
    pub fn expiry_step(&mut self, round: &mut ExpiryRound, outcome: RevokeOutcome)
        requires
            old(self).wf(),
            old(round).wf(),
            old(round).cursor() < old(round).items().len(),
        ensures
            final(self).wf(),
            final(round).wf(),
            final(round).block() == old(round).block(),
            final(round).items() == old(round).items(),
            final(round).cursor() == old(round).cursor() + 1,
            ({
                let b = old(round).items()[old(round).cursor() as int];
                if old(self).expiry_due(old(round).block(), b) && old(self).revoke_failure(b, outcome) is None {
                    let rec = old(self).sponsorship_map()[b];
                    &&& final(self).revoked_from(old(self), b)
                    &&& final(self).event_log() == old(self).event_log().push(
                        Event::Expired { sponsor: rec.sponsor, beneficiary: b, amount: rec.amount },
                    )
                } else {
                    *final(self) == *old(self)
                }
            }),
            old(self).ledger_consistent() ==> final(self).ledger_consistent(),
            old(self).queue_covers_auto_unlock() ==> final(self).queue_covers_auto_unlock(),
            ({
                let b = old(round).items()[old(round).cursor() as int];
                old(self).expiry_round_covers(old(round))
                    && !(old(self).expiry_due(old(round).block(), b) && old(self).revoke_failure(b, outcome) is Some)
                    ==> final(self).expiry_round_covers(final(round))
            }),
    {
        let beneficiary = round.items[round.next];
        round.next = round.next + 1;
        let due = match self.sponsorships.get(&beneficiary) {
            Some(r) => r.lease == Lease::Until(round.block),
            None => false,
        };
        if !due {
            proof {
                if old(self).expiry_round_covers(old(round)) {
                    Self::lemma_expiry_round_advance(self, old(self), old(round), round);
                }
            }
            return;
        }
        if let Ok(record) = self.revoke_sponsorship(beneficiary, outcome) {
            let ghost mid = *self;
            self.events.push(Event::Expired { sponsor: record.sponsor, beneficiary, amount: record.amount });
            proof {
                Self::lemma_events_only_wf(self, &mid);
                assert(self.same_records(&mid));
                assert(self.same_buckets(&mid));
                if old(self).expiry_round_covers(old(round)) {
                    assert(self.revoked_from(old(self), beneficiary));
                    Self::lemma_expiry_round_advance(self, old(self), old(round), round);
                }
            }
        }
    }

    /// Ends the pass and says how many entries it had.
    pub fn finish_expiry_round(round: ExpiryRound) -> (n: u32)
        requires
            round.wf(),
            round.cursor() == round.items().len(),
        ensures
            n == round.items().len(),
    {
        round.items.len() as u32
    }

    /// Every auto-unlock-enabled sponsorship is still to be looked at in the
    /// pass, or was kept for the next one.
    pub open spec fn round_covers(&self, round: &AutoUnlockRound) -> bool {
        forall|b: AccountId| #[trigger] self.sponsorship_map().contains_key(b)
            && self.sponsorship_map()[b].auto_unlock is Enabled ==> {
            ||| round.items().skip(round.cursor() as int).contains(b)
            ||| round.postponed().contains(b)
            ||| round.requeued().contains(b)
        }
    }

    /// Starts a pass over the auto-unlock queue; the queue is taken out of
    /// storage.
    pub fn begin_auto_unlock_round(&mut self) -> (round: AutoUnlockRound)
        requires
            old(self).wf(),
        ensures
            final(self).wf(),
            round.wf(),
            round.items() == old(self).queue(),
            round.cursor() == 0,
            round.limit() == old(self).capacity(),
            round.postponed() == Seq::<AccountId>::empty(),
            round.requeued() == Seq::<AccountId>::empty(),
            round.processed() == 0,
            final(self).same_records(old(self)),
            final(self).same_buckets(old(self)),
            final(self).event_log() == old(self).event_log(),
            final(self).queue() == Seq::<AccountId>::empty(),
            old(self).ledger_consistent() ==> final(self).ledger_consistent(),
            old(self).queue_covers_auto_unlock() ==> final(self).round_covers(&round),
            old(self).buckets_cover_leases() ==> final(self).buckets_cover_leases(),
    {
        let mut items: Vec<AccountId> = Vec::new();
        std::mem::swap(&mut items, &mut self.queue);
        let round = AutoUnlockRound {
            items,
            next: 0,
            limit: self.config.max_queue_processing_per_block as usize,
            unprocessed: Vec::new(),
            requeue: Vec::new(),
            processed: 0,
        };
        proof {
            Self::lemma_buckets_carry(self, old(self));
            if old(self).ledger_consistent() {
                Self::lemma_same_records_consistent(self, old(self));
            }
            assert(round.items().skip(0) =~= round.items());
        }
        round
    }

    /// What the next entry of the pass needs.
    pub fn auto_unlock_probe(&self, round: &AutoUnlockRound) -> (p: AutoUnlockProbe)
        requires
            round.wf(),
        ensures
            p == (if round.cursor() == round.items().len() {
                AutoUnlockProbe::Done
            } else {
                let b = round.items()[round.cursor() as int];
                if round.cursor() >= round.limit() {
                    AutoUnlockProbe::Postpone { beneficiary: b }
                } else if !self.sponsorship_map().contains_key(b) || self.sponsorship_map()[b].auto_unlock is Disabled {
                    AutoUnlockProbe::Drop { beneficiary: b }
                } else {
                    AutoUnlockProbe::Check {
                        beneficiary: b,
                        condition: self.sponsorship_map()[b].auto_unlock->Enabled_0,
                        amount: self.sponsorship_map()[b].amount,
                    }
                }
            }),
    {
        if round.next == round.items.len() {
            return AutoUnlockProbe::Done;
        }
        let beneficiary = round.items[round.next];
        if round.next >= round.limit {
            return AutoUnlockProbe::Postpone { beneficiary };
        }
        match self.sponsorships.get(&beneficiary) {
            Some(r) => match r.auto_unlock {
                AutoUnlockMode::Enabled(condition) => AutoUnlockProbe::Check { beneficiary, condition, amount: r.amount },
                AutoUnlockMode::Disabled => AutoUnlockProbe::Drop { beneficiary },
            },
            None => AutoUnlockProbe::Drop { beneficiary },
        }
    }

    /// Looks at the next entry of the pass: beyond the limit it is kept for
    /// the next pass; a sponsorship whose condition holds is revoked (and
    /// `AutoUnlocked` deposited) when its balance operations succeeded, and
    /// kept otherwise; an entry without an enabled sponsorship is dropped.
    pub fn auto_unlock_step(&mut self, round: &mut AutoUnlockRound, funds: BeneficiaryFunds, outcome: RevokeOutcome)
        requires
            old(self).wf(),
            old(round).wf(),
            old(round).cursor() < old(round).items().len(),
            old(self).queue().len() == 0,
        ensures
            final(self).wf(),
            final(round).wf(),
            final(self).queue().len() == 0,
            final(round).items() == old(round).items(),
            final(round).limit() == old(round).limit(),
            final(round).cursor() == old(round).cursor() + 1,
            ({
                let i = old(round).cursor();
                let b = old(round).items()[i as int];
                if i >= old(round).limit() {
                    &&& final(round).postponed() == old(round).postponed().push(b)
                    &&& final(round).requeued() == old(round).requeued()
                    &&& final(round).processed() == old(round).processed()
                    &&& *final(self) == *old(self)
                } else {
                    &&& final(round).postponed() == old(round).postponed()
                    &&& final(round).processed() == sat_add32(old(round).processed(), 1)
                    &&& if !old(self).sponsorship_map().contains_key(b) || old(self).sponsorship_map()[b].auto_unlock is Disabled {
                        &&& final(round).requeued() == old(round).requeued()
                        &&& *final(self) == *old(self)
                    } else if old(self).auto_unlock_due(b, funds) && old(self).revoke_failure(b, outcome) is None {
                        let rec = old(self).sponsorship_map()[b];
                        &&& final(round).requeued() == old(round).requeued()
                        &&& final(self).revoked_from(old(self), b)
                        &&& final(self).event_log() == old(self).event_log().push(Event::AutoUnlocked {
                            sponsor: rec.sponsor,
                            beneficiary: b,
                            amount: rec.amount,
                            condition: rec.auto_unlock->Enabled_0,
                        })
                    } else {
                        &&& final(round).requeued() == old(round).requeued().push(b)
                        &&& *final(self) == *old(self)
                    }
                }
            }),
            old(self).ledger_consistent() ==> final(self).ledger_consistent(),
            old(self).round_covers(old(round)) ==> final(self).round_covers(final(round)),
            old(self).buckets_cover_leases() ==> final(self).buckets_cover_leases(),
    {
        let i = round.next;
        let beneficiary = round.items[i];
        let ghost items = round.items@;
        proof {
            // Entries kept so far come from earlier positions, so they differ
            // from this one.
            assert forall|k: int| 0 <= k < round.unprocessed@.len() implies round.unprocessed@[k] != beneficiary by {
                assert(occurs_between(items, round.limit as int, round.next as int, round.unprocessed@[k]));
                let j = choose|j: int| round.limit <= j < round.next && 0 <= j < items.len() && #[trigger] items[j] == round.unprocessed@[k];
                assert(items[j] != items[i as int]);
            }
            assert forall|k: int| 0 <= k < round.requeue@.len() implies round.requeue@[k] != beneficiary by {
                let hi = if round.next <= round.limit { round.next as int } else { round.limit as int };
                assert(occurs_between(items, 0, hi, round.requeue@[k]));
                let j = choose|j: int| 0 <= j < hi && 0 <= j < items.len() && #[trigger] items[j] == round.requeue@[k];
                assert(items[j] != items[i as int]);
            }
            assert(items.skip(i as int) =~= seq![beneficiary] + items.skip(i + 1));
        }
        round.next = i + 1;
        if i >= round.limit {
            round.unprocessed.push(beneficiary);
            proof {
                assert(!old(round).unprocessed@.contains(beneficiary));
                lemma_with_member_no_duplicates(old(round).unprocessed@, beneficiary);
                assert forall|k: int| 0 <= k < round.unprocessed@.len() implies occurs_between(items, round.limit as int, round.next as int, #[trigger] round.unprocessed@[k]) by {
                    if k == round.unprocessed@.len() - 1 {
                        assert(items[i as int] == round.unprocessed@[k]);
                    } else {
                        assert(round.unprocessed@[k] == old(round).unprocessed@[k]);
                        assert(occurs_between(items, round.limit as int, i as int, old(round).unprocessed@[k]));
                        let j = choose|j: int| round.limit <= j < i && 0 <= j < items.len() && #[trigger] items[j] == old(round).unprocessed@[k];
                        assert(items[j] == round.unprocessed@[k]);
                    }
                }
                assert forall|k: int| 0 <= k < round.requeue@.len() implies occurs_between(items, 0, if round.next <= round.limit { round.next as int } else { round.limit as int }, #[trigger] round.requeue@[k]) by {
                    let hi0 = if i <= round.limit { i as int } else { round.limit as int };
                    assert(occurs_between(items, 0, hi0, old(round).requeue@[k]));
                    let j = choose|j: int| 0 <= j < hi0 && 0 <= j < items.len() && #[trigger] items[j] == old(round).requeue@[k];
                    assert(items[j] == round.requeue@[k]);
                }
                Self::lemma_round_covers_step(self, old(round), round, beneficiary);
            }
            return;
        }
        round.processed = round.processed.saturating_add(1);
        let record = match self.sponsorships.get(&beneficiary) {
            Some(r) => *r,
            None => {
                proof {
                    Self::lemma_round_covers_step(self, old(round), round, beneficiary);
                    Self::lemma_round_advance(old(round), round);
                }
                return;
            },
        };
        let condition = match record.auto_unlock {
            AutoUnlockMode::Enabled(c) => c,
            AutoUnlockMode::Disabled => {
                proof {
                    Self::lemma_round_covers_step(self, old(round), round, beneficiary);
                    Self::lemma_round_advance(old(round), round);
                }
                return;
            },
        };
        let mut revoked = false;
        if Self::auto_unlock_condition_met(condition, record.amount, funds) {
            if let Ok(rec) = self.revoke_sponsorship(beneficiary, outcome) {
                let ghost mid = *self;
                self.events.push(Event::AutoUnlocked { sponsor: rec.sponsor, beneficiary, amount: rec.amount, condition });
                proof {
                    Self::lemma_events_only_wf(self, &mid);
                    assert(self.same_records(&mid));
                    assert(self.same_buckets(&mid));
                    reveal(Seq::filter);
                    assert(without(Seq::<AccountId>::empty(), beneficiary) =~= Seq::<AccountId>::empty());
                    assert(old(self).queue() =~= Seq::<AccountId>::empty());
                }
                revoked = true;
            }
        }
        if revoked {
            proof {
                Self::lemma_round_advance(old(round), round);
            }
        } else {
            round.requeue.push(beneficiary);
            proof {
                assert(!old(round).requeue@.contains(beneficiary));
                lemma_with_member_no_duplicates(old(round).requeue@, beneficiary);
                assert forall|k: int| 0 <= k < round.requeue@.len() implies occurs_between(items, 0, if round.next <= round.limit { round.next as int } else { round.limit as int }, #[trigger] round.requeue@[k]) by {
                    if k == round.requeue@.len() - 1 {
                        assert(items[i as int] == round.requeue@[k]);
                    } else {
                        assert(round.requeue@[k] == old(round).requeue@[k]);
                        assert(occurs_between(items, 0, i as int, old(round).requeue@[k]));
                        let j = choose|j: int| 0 <= j < i && 0 <= j < items.len() && #[trigger] items[j] == old(round).requeue@[k];
                        assert(items[j] == round.requeue@[k]);
                    }
                }
                assert forall|k: int| 0 <= k < round.unprocessed@.len() implies occurs_between(items, round.limit as int, round.next as int, #[trigger] round.unprocessed@[k]) by {
                    assert(occurs_between(items, round.limit as int, i as int, old(round).unprocessed@[k]));
                    let j = choose|j: int| round.limit <= j < i && 0 <= j < items.len() && #[trigger] items[j] == old(round).unprocessed@[k];
                    assert(items[j] == round.unprocessed@[k]);
                }
            }
        }
        proof {
            if old(self).round_covers(old(round)) {
                assert forall|b: AccountId| #[trigger] self.sponsorship_map().contains_key(b)
                    && self.sponsorship_map()[b].auto_unlock is Enabled implies {
                    ||| round.items().skip(round.cursor() as int).contains(b)
                    ||| round.postponed().contains(b)
                    ||| round.requeued().contains(b)
                } by {
                    assert(old(self).sponsorship_map().contains_key(b));
                    if b == beneficiary {
                        assert(!revoked);
                        assert(round.requeue@[round.requeue@.len() - 1] == b);
                    } else {
                        if old(round).requeue@.contains(b) {
                            let k = choose|k: int| 0 <= k < old(round).requeue@.len() && old(round).requeue@[k] == b;
                            assert(round.requeue@[k] == b);
                        }
                        Self::lemma_covered_other(old(round), round, b, beneficiary);
                    }
                }
            }
        }
    }

    /// Moving the cursor past an entry without keeping it keeps the pass
    /// well formed.
    proof fn lemma_round_advance(r0: &AutoUnlockRound, r1: &AutoUnlockRound)
        requires
            r0.wf(),
            r0.next < r0.items@.len(),
            r1.items@ == r0.items@,
            r1.limit == r0.limit,
            r1.next == r0.next + 1,
            r1.unprocessed@ == r0.unprocessed@,
            r1.requeue@ == r0.requeue@,
            r1.processed as int == (if r1.next <= r1.limit { r1.next as int } else { r1.limit as int }),
        ensures
            r1.wf(),
    {
        assert forall|k: int| 0 <= k < r1.unprocessed@.len() implies occurs_between(r1.items@, r1.limit as int, r1.next as int, #[trigger] r1.unprocessed@[k]) by {
            assert(occurs_between(r0.items@, r0.limit as int, r0.next as int, r0.unprocessed@[k]));
            let j = choose|j: int| r0.limit <= j < r0.next && 0 <= j < r0.items@.len() && #[trigger] r0.items@[j] == r0.unprocessed@[k];
            assert(r1.items@[j] == r1.unprocessed@[k]);
        }
        assert forall|k: int| 0 <= k < r1.requeue@.len() implies occurs_between(r1.items@, 0, if r1.next <= r1.limit { r1.next as int } else { r1.limit as int }, #[trigger] r1.requeue@[k]) by {
            let hi0 = if r0.next <= r0.limit { r0.next as int } else { r0.limit as int };
            assert(occurs_between(r0.items@, 0, hi0, r0.requeue@[k]));
            let j = choose|j: int| 0 <= j < hi0 && 0 <= j < r0.items@.len() && #[trigger] r0.items@[j] == r0.requeue@[k];
            assert(r1.items@[j] == r1.requeue@[k]);
        }
    }

    /// An entry other than the one just looked at stays covered.
    proof fn lemma_covered_other(r0: &AutoUnlockRound, r1: &AutoUnlockRound, b: AccountId, current: AccountId)
        requires
            r0.cursor() < r0.items().len(),
            r1.items() == r0.items(),
            r1.cursor() == r0.cursor() + 1,
            current == r0.items()[r0.cursor() as int],
            b != current,
            r0.postponed().contains(b) ==> r1.postponed().contains(b),
            r0.requeued().contains(b) ==> r1.requeued().contains(b),
            ({
                ||| r0.items().skip(r0.cursor() as int).contains(b)
                ||| r0.postponed().contains(b)
                ||| r0.requeued().contains(b)
            }),
        ensures
            ({
                ||| r1.items().skip(r1.cursor() as int).contains(b)
                ||| r1.postponed().contains(b)
                ||| r1.requeued().contains(b)
            }),
    {
        let items = r0.items();
        let i = r0.cursor() as int;
        if items.skip(i).contains(b) {
            let k = choose|k: int| 0 <= k < items.skip(i).len() && items.skip(i)[k] == b;
            assert(k != 0);
            assert(items.skip(i + 1)[k - 1] == b);
        }
    }

    /// Covering survives a step that leaves the records alone and keeps the
    /// lists' entries.
    proof fn lemma_round_covers_step(p: &Pallet, r0: &AutoUnlockRound, r1: &AutoUnlockRound, current: AccountId)
        requires
            r0.cursor() < r0.items().len(),
            r1.items() == r0.items(),
            r1.cursor() == r0.cursor() + 1,
            current == r0.items()[r0.cursor() as int],
            r0.postponed().is_prefix_of(r1.postponed()),
            r0.requeued().is_prefix_of(r1.requeued()),
            r1.postponed().contains(current) || !(p.sponsorship_map().contains_key(current)
                && p.sponsorship_map()[current].auto_unlock is Enabled),
        ensures
            p.round_covers(r0) ==> p.round_covers(r1),
    {
        if p.round_covers(r0) {
            assert forall|b: AccountId| #[trigger] p.sponsorship_map().contains_key(b)
                && p.sponsorship_map()[b].auto_unlock is Enabled implies {
                ||| r1.items().skip(r1.cursor() as int).contains(b)
                ||| r1.postponed().contains(b)
                ||| r1.requeued().contains(b)
            } by {
                if b != current {
                    if r0.postponed().contains(b) {
                        let k = choose|k: int| 0 <= k < r0.postponed().len() && r0.postponed()[k] == b;
                        assert(r1.postponed()[k] == b);
                    }
                    if r0.requeued().contains(b) {
                        let k = choose|k: int| 0 <= k < r0.requeued().len() && r0.requeued()[k] == b;
                        assert(r1.requeued()[k] == b);
                    }
                    Self::lemma_covered_other(r0, r1, b, current);
                }
            }
        }
    }

    /// Ends the pass: the queue becomes the postponed entries followed by
    /// the requeued ones, and the number of entries checked is returned.
    pub fn finish_auto_unlock_round(&mut self, round: AutoUnlockRound) -> (n: u32)
        requires
            old(self).wf(),
            round.wf(),
            round.cursor() == round.items().len(),
            round.limit() == old(self).capacity(),
            old(self).queue().len() == 0,
        ensures
            final(self).wf(),
            n == round.processed(),
            n == round.items().len(),
            n <= old(self).capacity(),
            final(self).queue() == round.postponed() + round.requeued(),
            final(self).queue().len() <= round.items().len(),
            final(self).same_records(old(self)),
            final(self).same_buckets(old(self)),
            final(self).event_log() == old(self).event_log(),
            old(self).ledger_consistent() ==> final(self).ledger_consistent(),
            old(self).round_covers(&round) ==> final(self).queue_covers_auto_unlock(),
            old(self).buckets_cover_leases() ==> final(self).buckets_cover_leases(),
    {
        let AutoUnlockRound { items, next, limit, unprocessed, requeue, processed } = round;
        let mut queue = unprocessed;
        let mut k: usize = 0;
        while k < requeue.len()
            invariant
                k <= requeue@.len(),
                queue@ == unprocessed@ + requeue@.take(k as int),
            decreases requeue@.len() - k,
        {
            queue.push(requeue[k]);
            k = k + 1;
            proof {
                assert(queue@ =~= unprocessed@ + requeue@.take(k as int));
            }
        }
        proof {
            assert(requeue@.take(requeue@.len() as int) =~= requeue@);
            let q = queue@;
            let u = unprocessed@;
            let r = requeue@;
            assert forall|a: int, b: int| 0 <= a < q.len() && 0 <= b < q.len() && a != b implies q[a] != q[b] by {
                if a < u.len() && b < u.len() {
                    assert(q[a] == u[a] && q[b] == u[b]);
                } else if a >= u.len() && b >= u.len() {
                    assert(q[a] == r[a - u.len()] && q[b] == r[b - u.len()]);
                } else {
                    let (x, y) = if a < u.len() { (a, b - u.len()) } else { (b, a - u.len()) };
                    assert(q[x] == u[x]);
                    assert(q[a] != q[b]) by {
                        let hi = if next <= limit { next as int } else { limit as int };
                        assert(occurs_between(items@, limit as int, next as int, u[x]));
                        assert(occurs_between(items@, 0, hi, r[y]));
                        let j1 = choose|j: int| limit <= j < next && 0 <= j < items@.len() && #[trigger] items@[j] == u[x];
                        let j2 = choose|j: int| 0 <= j < hi && 0 <= j < items@.len() && #[trigger] items@[j] == r[y];
                        assert(j1 != j2);
                    }
                }
            }
        }
        self.queue = queue;
        proof {
            Self::lemma_buckets_carry(self, old(self));
            if old(self).ledger_consistent() {
                Self::lemma_same_records_consistent(self, old(self));
            }
            if old(self).round_covers(&round) {
                assert forall|b: AccountId| #[trigger] self.sponsorship_map().contains_key(b)
                    && self.sponsorship_map()[b].auto_unlock is Enabled implies self.queue().contains(b) by {
                    let u = unprocessed@;
                    let r = requeue@;
                    assert(items@.skip(next as int).len() == 0);
                    if u.contains(b) {
                        let k = choose|k: int| 0 <= k < u.len() && u[k] == b;
                        assert(self.queue()[k] == b);
                    } else {
                        assert(r.contains(b));
                        let k = choose|k: int| 0 <= k < r.len() && r[k] == b;
                        assert(self.queue()[u.len() + k] == b);
                    }
                }
            }
        }
        processed
    }
}

/// One sponsorship configured at genesis: sponsor, beneficiary, amount,
/// auto-unlock mode and lease.
pub type InitialSponsorship = (AccountId, AccountId, Balance, AutoUnlockMode, Lease);

/// The sponsorships that exist from the first block.
pub struct GenesisConfig {
    pub initial_sponsorships: Vec<InitialSponsorship>,
}

impl Default for GenesisConfig {
    fn default() -> (g: GenesisConfig)
        ensures
            g.initial_sponsorships@ == Seq::<InitialSponsorship>::empty(),
    {
        GenesisConfig { initial_sponsorships: Vec::new() }
    }
}

/// `states` is a run of sponsorships: each state is the previous one after
/// the next configured sponsorship was accepted, without events.
pub open spec fn genesis_run(
    states: Seq<Pallet>,
    items: Seq<InitialSponsorship>,
    envs: Seq<SponsorEnv>,
) -> bool {
    &&& states.len() == items.len() + 1
    &&& forall|i: int| #![trigger states[i + 1]] 0 <= i < items.len() ==> genesis_step(states[i], states[i + 1], items[i], envs[i])
}

/// `next` is `prev` after the configured sponsorship `item` was accepted,
/// without an event.
pub open spec fn genesis_step(prev: Pallet, next: Pallet, item: InitialSponsorship, env: SponsorEnv) -> bool {
    &&& prev.sponsor_failure(item.0, item.1, item.2, item.3, item.4, env) is None
    &&& next.sponsored_from(&prev, item.0, item.1, item.2, item.3, item.4, env.now, false)
}

/// Two pallets that agree on everything the specification sees.
pub open spec fn same_view(a: Pallet, b: Pallet) -> bool {
    &&& a.cfg() == b.cfg()
    &&& a.sponsorship_map() == b.sponsorship_map()
    &&& forall|w: AccountId| #![trigger a.ledger_of(w)] #![trigger b.ledger_of(w)] a.ledger_of(w) == b.ledger_of(w)
    &&& forall|w: AccountId| #![trigger a.deposit_of(w)] #![trigger b.deposit_of(w)] a.deposit_of(w) == b.deposit_of(w)
    &&& forall|blk: BlockNumber| #![trigger a.bucket(blk)] #![trigger b.bucket(blk)] a.bucket(blk) == b.bucket(blk)
    &&& a.queue() == b.queue()
    &&& a.event_log() == b.event_log()
}

/// Sponsoring the same way from pallets that agree gives pallets that
/// agree, and the same decision.
proof fn lemma_same_view_step(a0: Pallet, b0: Pallet, a1: Pallet, b1: Pallet, item: InitialSponsorship, env: SponsorEnv)
    requires
        same_view(a0, b0),
        genesis_step(b0, b1, item, env),
        a1.sponsored_from(&a0, item.0, item.1, item.2, item.3, item.4, env.now, false),
    ensures
        a0.sponsor_failure(item.0, item.1, item.2, item.3, item.4, env) is None,
        same_view(a1, b1),
{
    assert(a0.ledger_of(item.0) == b0.ledger_of(item.0));
    match item.4 {
        Lease::Until(end) => { assert(a0.bucket(end) == b0.bucket(end)); },
        Lease::Indefinite => {},
    }
    assert forall|w: AccountId| #![trigger a1.ledger_of(w)] #![trigger b1.ledger_of(w)] a1.ledger_of(w) == b1.ledger_of(w) by {
        assert(a0.ledger_of(w) == b0.ledger_of(w));
    }
    assert forall|w: AccountId| #![trigger a1.deposit_of(w)] #![trigger b1.deposit_of(w)] a1.deposit_of(w) == b1.deposit_of(w) by {
        assert(a0.deposit_of(w) == b0.deposit_of(w));
    }
    assert forall|blk: BlockNumber| #![trigger a1.bucket(blk)] #![trigger b1.bucket(blk)] a1.bucket(blk) == b1.bucket(blk) by {
        assert(a0.bucket(blk) == b0.bucket(blk));
    }
}

impl GenesisConfig {
    /// Creates the configured sponsorships in order, each with what the
    /// currency reported for it, as `do_sponsor` without events. A chain
    /// must not start with a refused genesis configuration: every configured
    /// sponsorship must be accepted.
    pub fn build(&self, pallet: &mut Pallet, envs: &Vec<SponsorEnv>)
        requires
            old(pallet).wf(),
            envs@.len() == self.initial_sponsorships@.len(),
            exists|run: Seq<Pallet>| #[trigger] genesis_run(run, self.initial_sponsorships@, envs@)
                && run[0] == *old(pallet),
        ensures
            final(pallet).wf(),
            exists|states: Seq<Pallet>| #[trigger] genesis_run(states, self.initial_sponsorships@, envs@)
                && states[0] == *old(pallet) && states.last() == *final(pallet),
            old(pallet).ledger_consistent() && old(pallet).cfg().caps_below_max() ==> final(pallet).ledger_consistent(),
            old(pallet).queue_covers_auto_unlock() ==> final(pallet).queue_covers_auto_unlock(),
            old(pallet).buckets_cover_leases() ==> final(pallet).buckets_cover_leases(),
    {
        let items = &self.initial_sponsorships;
        let ghost run: Seq<Pallet> = choose|run: Seq<Pallet>| #[trigger] genesis_run(run, self.initial_sponsorships@, envs@)
            && run[0] == *old(pallet);
        let ghost states: Seq<Pallet> = seq![*pallet];
        let ghost cfg0 = pallet.cfg();
        let mut i: usize = 0;
        while i < items.len()
            invariant
                i <= items@.len(),
                items@.len() == envs@.len(),
                items == &self.initial_sponsorships,
                genesis_run(run, items@, envs@),
                same_view(*pallet, run[i as int]),
                pallet.wf(),
                pallet.cfg() == cfg0,
                cfg0 == old(pallet).cfg(),
                genesis_run(states, items@.take(i as int), envs@.take(i as int)),
                states[0] == *old(pallet),
                states.last() == *pallet,
                old(pallet).ledger_consistent() && cfg0.caps_below_max() ==> pallet.ledger_consistent(),
                old(pallet).queue_covers_auto_unlock() ==> pallet.queue_covers_auto_unlock(),
                old(pallet).buckets_cover_leases() ==> pallet.buckets_cover_leases(),
            decreases items@.len() - i,
        {
            let (sponsor, beneficiary, amount, auto_unlock, lease) = items[i];
            let ghost before = *pallet;
            proof {
                assert(genesis_step(run[i as int], run[i + 1], items@[i as int], envs@[i as int]));
                assert(before.sponsor_failure(sponsor, beneficiary, amount, auto_unlock, lease, envs@[i as int])
                    == run[i as int].sponsor_failure(sponsor, beneficiary, amount, auto_unlock, lease, envs@[i as int])) by {
                    assert(before.ledger_of(sponsor) == run[i as int].ledger_of(sponsor));
                    match lease {
                        Lease::Until(end) => { assert(before.bucket(end) == run[i as int].bucket(end)); },
                        Lease::Indefinite => {},
                    }
                }
            }
            match pallet.do_sponsor(sponsor, beneficiary, amount, auto_unlock, lease, false, &envs[i]) {
                Ok(()) => {},
                Err(e) => {
                    proof {
                        assert(false);
                    }
                },
            }
            proof {
                lemma_same_view_step(before, run[i as int], *pallet, run[i + 1], items@[i as int], envs@[i as int]);
                let items_next = items@.take(i + 1);
                let envs_next = envs@.take(i + 1);
                let new_states = states.push(*pallet);
                assert forall|k: int| #![trigger new_states[k + 1]] 0 <= k < items_next.len() implies
                    genesis_step(new_states[k], new_states[k + 1], items_next[k], envs_next[k]) by {
                    if k < i {
                        assert(items_next[k] == items@.take(i as int)[k]);
                        assert(envs_next[k] == envs@.take(i as int)[k]);
                        assert(new_states[k] == states[k]);
                        assert(new_states[k + 1] == states[k + 1]);
                    } else {
                        assert(k == i);
                        assert(items_next[k] == items@[i as int]);
                        assert(envs_next[k] == envs@[i as int]);
                        assert(new_states[k] == before);
                        assert(new_states[k + 1] == *pallet);
                    }
                }
                states = new_states;
                assert(genesis_run(states, items_next, envs_next));
            }
            i = i + 1;
        }
        proof {
            assert(items@.take(items@.len() as int) =~= items@);
            assert(envs@.take(envs@.len() as int) =~= envs@);
        }
    }
}

} // verus!
