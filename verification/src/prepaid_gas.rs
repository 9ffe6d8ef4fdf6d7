//! Prepaid gas: anyone buys transaction credit for a beneficiary by moving
//! native balance into the pallet's account; the fee adapter spends and
//! refunds that credit.
use vstd::prelude::*;
use std::collections::HashMap;
use crate::origin::{Origin, le_u64, modl, pallet_account_u64};
use crate::gas_transaction_payment::{PrepaidFee, TransactionValidityError, sat_add};

verus! {

pub type AccountId = u64;

pub type Balance = u128;

#[derive(Clone, Copy, Debug)]
pub struct Config {
    /// The pallet id from which the pallet's account is derived.
    pub pallet_id: [u8; 8],
    /// The smallest purchase.
    pub min_purchase: Balance,
}

#[derive(Clone, Copy, Debug, PartialEq, Eq, Structural)]
pub enum Event {
    PrepaidPurchased { sponsor: AccountId, beneficiary: AccountId, amount: Balance, remaining: Balance },
    PrepaidFeeWithdrawn { who: AccountId, amount: Balance, remaining: Balance },
    PrepaidFeeRefunded { who: AccountId, amount: Balance, remaining: Balance },
}

#[derive(Clone, Copy, Debug, PartialEq, Eq, Structural)]
pub enum Error {
    PurchaseAmountTooLow,
    CannotPurchaseCredit,
}

#[derive(Clone, Copy, Debug, PartialEq, Eq, Structural)]
pub enum DispatchError {
    BadOrigin,
    Module(Error),
}

/// A balance operation the runtime performs for a purchase.
#[derive(Clone, Copy, Debug, PartialEq, Eq, Structural)]
pub enum CurrencyOp {
    /// The pallet's account gets a provider reference (once).
    IncProviders { who: AccountId },
    /// Native balance moves, keeping the sender alive.
    Transfer { from: AccountId, to: AccountId, amount: Balance },
}

/// The pallet's account for a pallet id.
pub open spec fn account_of(id: [u8; 8]) -> AccountId {
    le_u64(modl() + id@.take(4)) as u64
}

pub struct Pallet {
    config: Config,
    credits: HashMap<AccountId, Balance>,
    account_initialized: bool,
    events: Vec<Event>,
}

impl Pallet {
    pub closed spec fn cfg(&self) -> Config {
        self.config
    }

    /// The prepaid credit of `who` (zero where none is stored).
    pub closed spec fn credit_view(&self, who: AccountId) -> Balance {
        if self.credits@.contains_key(who) {
            self.credits@[who]
        } else {
            0
        }
    }

    /// Whether the pallet's account was given its provider reference.
    pub closed spec fn initialized(&self) -> bool {
        self.account_initialized
    }

    pub closed spec fn event_log(&self) -> Seq<Event> {
        self.events@
    }

    pub fn new(config: Config) -> (p: Pallet)
        ensures
            p.cfg() == config,
            forall|w: AccountId| #[trigger] p.credit_view(w) == 0,
            !p.initialized(),
            p.event_log() == Seq::<Event>::empty(),
    {
        Pallet { config, credits: HashMap::new(), account_initialized: false, events: Vec::new() }
    }

    /// The pallet's account, which holds the funds backing all credit.
    pub fn account_id(&self) -> (a: AccountId)
        ensures
            a == account_of(self.cfg().pallet_id),
    {
        pallet_account_u64(self.config.pallet_id)
    }

    /// The prepaid credit of `who`.
    pub fn remaining_credit(&self, who: AccountId) -> (c: Balance)
        ensures
            c == self.credit_view(who),
    {
        match self.credits.get(&who) {
            Some(c) => *c,
            None => 0,
        }
    }

    pub fn event_count(&self) -> (n: usize)
        ensures
            n == self.event_log().len(),
    {
        self.events.len()
    }

    pub fn event(&self, i: usize) -> (e: Event)
        requires
            i < self.event_log().len(),
        ensures
            e == self.event_log()[i as int],
    {
        self.events[i]
    }

    /// Why a purchase fails, if it does.
    pub open spec fn purchase_failure(&self, amount: Balance, transfer_ok: bool) -> Option<Error> {
        if amount == 0 || amount < self.cfg().min_purchase {
            Some(Error::PurchaseAmountTooLow)
        } else if !transfer_ok {
            Some(Error::CannotPurchaseCredit)
        } else {
            None
        }
    }

    /// The balance operations of a purchase: the pallet's account gets its
    /// provider reference the first time, then the amount moves from the
    /// sponsor to the pallet's account.
    pub open spec fn purchase_ops_of(&self, sponsor: AccountId, amount: Balance) -> Seq<CurrencyOp> {
        let account = account_of(self.cfg().pallet_id);
        (if self.initialized() {
            Seq::empty()
        } else {
            seq![CurrencyOp::IncProviders { who: account }]
        }) + seq![CurrencyOp::Transfer { from: sponsor, to: account, amount }]
    }

    pub fn purchase_ops(&self, sponsor: AccountId, amount: Balance) -> (ops: Vec<CurrencyOp>)
        ensures
            ops@ == self.purchase_ops_of(sponsor, amount),
    {
        let account = self.account_id();
        let mut ops: Vec<CurrencyOp> = Vec::new();
        if !self.account_initialized {
            ops.push(CurrencyOp::IncProviders { who: account });
        }
        ops.push(CurrencyOp::Transfer { from: sponsor, to: account, amount });
        proof {
            assert(ops@ =~= self.purchase_ops_of(sponsor, amount));
        }
        ops
    }

    /// Gives the pallet's account its provider reference the first time.
    fn ensure_pallet_account(&mut self)
        ensures
            final(self).initialized(),
            final(self).cfg() == old(self).cfg(),
            final(self).credits@ == old(self).credits@,
            final(self).event_log() == old(self).event_log(),
    {
        if !self.account_initialized {
            self.account_initialized = true;
        }
    }

    /// `next` is `self` after `amount` of credit was bought for
    /// `beneficiary` by `sponsor`: the pallet's account is initialized, the
    /// beneficiary's credit grew by the amount (saturating), nobody else's
    /// changed, and `PrepaidPurchased` was deposited.
    pub open spec fn purchased(self, next: Pallet, sponsor: AccountId, beneficiary: AccountId, amount: Balance) -> bool {
        let remaining = sat_add(self.credit_view(beneficiary), amount);
        &&& next.cfg() == self.cfg()
        &&& next.initialized()
        &&& next.credit_view(beneficiary) == remaining
        &&& forall|w: AccountId| w != beneficiary ==> #[trigger] next.credit_view(w) == self.credit_view(w)
        &&& next.event_log() == self.event_log().push(
            Event::PrepaidPurchased { sponsor, beneficiary, amount, remaining },
        )
    }

    /// Buys `amount` of credit for `beneficiary`, paid by `sponsor`, given
    /// whether the transfer to the pallet's account succeeded. All or
    /// nothing.
    pub fn purchase_for(
        &mut self,
        sponsor: AccountId,
        beneficiary: AccountId,
        amount: Balance,
        transfer_ok: bool,
    ) -> (r: Result<(), Error>)
        ensures
            match r {
                Ok(()) => old(self).purchase_failure(amount, transfer_ok) is None
                    && old(self).purchased(*final(self), sponsor, beneficiary, amount),
                Err(e) => old(self).purchase_failure(amount, transfer_ok) == Some(e) && *final(self) == *old(self),
            },
    {
        if amount == 0 || amount < self.config.min_purchase {
            return Err(Error::PurchaseAmountTooLow);
        }
        if !transfer_ok {
            return Err(Error::CannotPurchaseCredit);
        }
        self.ensure_pallet_account();
        let stored = self.remaining_credit(beneficiary);
        let remaining = stored.saturating_add(amount);
        self.credits.insert(beneficiary, remaining);
        self.events.push(Event::PrepaidPurchased { sponsor, beneficiary, amount, remaining });
        Ok(())
    }

    /// Buys credit for `beneficiary` on behalf of the signed caller.
    pub fn purchase(&mut self, origin: Origin, beneficiary: AccountId, amount: Balance, transfer_ok: bool) -> (r: Result<(), DispatchError>)
        ensures
            match origin {
                Origin::Signed(sponsor) => match r {
                    Ok(()) => old(self).purchase_failure(amount, transfer_ok) is None
                        && old(self).purchased(*final(self), sponsor, beneficiary, amount),
                    Err(e) => Some(e) == (match old(self).purchase_failure(amount, transfer_ok) {
                        Some(err) => Some(DispatchError::Module(err)),
                        None => None,
                    }) && *final(self) == *old(self),
                },
                _ => r == Err::<(), DispatchError>(DispatchError::BadOrigin) && *final(self) == *old(self),
            },
    {
        let sponsor = match origin {
            Origin::Signed(who) => who,
            _ => return Err(DispatchError::BadOrigin),
        };
        match self.purchase_for(sponsor, beneficiary, amount, transfer_ok) {
            Ok(()) => Ok(()),
            Err(e) => Err(DispatchError::Module(e)),
        }
    }
}

impl Pallet {
    /// `next` is `self` after `amount` was taken off `who`'s credit: the
    /// credit covered it, the rest of the state is as before, and a
    /// `PrepaidFeeWithdrawn` event was deposited (nothing at all changes for
    /// a zero amount).
    pub open spec fn credit_withdrawn(self, next: Pallet, who: AccountId, amount: Balance) -> bool {
        &&& amount <= self.credit_view(who)
        &&& if amount == 0 {
            next == self
        } else {
            &&& next.cfg() == self.cfg()
            &&& next.initialized() == self.initialized()
            &&& next.credit_view(who) == self.credit_view(who) - amount
            &&& forall|w: AccountId| w != who ==> #[trigger] next.credit_view(w) == self.credit_view(w)
            &&& next.event_log() == self.event_log().push(
                Event::PrepaidFeeWithdrawn { who, amount, remaining: next.credit_view(who) },
            )
        }
    }

    /// `next` is `self` after `amount` was given back to `who`'s credit
    /// (saturating), with a `PrepaidFeeRefunded` event (nothing at all
    /// changes for a zero amount).
    pub open spec fn credit_refunded(self, next: Pallet, who: AccountId, amount: Balance) -> bool {
        if amount == 0 {
            next == self
        } else {
            &&& next.cfg() == self.cfg()
            &&& next.initialized() == self.initialized()
            &&& next.credit_view(who) == sat_add(self.credit_view(who), amount)
            &&& forall|w: AccountId| w != who ==> #[trigger] next.credit_view(w) == self.credit_view(w)
            &&& next.event_log() == self.event_log().push(
                Event::PrepaidFeeRefunded { who, amount, remaining: next.credit_view(who) },
            )
        }
    }
}

impl PrepaidFee for Pallet {
    open spec fn credit_of(&self, who: AccountId) -> Balance {
        self.credit_view(who)
    }

    open spec fn funding_account(&self) -> AccountId {
        account_of(self.cfg().pallet_id)
    }

    /// Refunds are never refused.
    open spec fn refund_refused(&self, who: AccountId, amount: Balance) -> bool {
        false
    }

    fn account_id(&self) -> (a: AccountId) {
        Pallet::account_id(self)
    }

    fn credit(&self, who: AccountId) -> (c: Balance) {
        self.remaining_credit(who)
    }

    /// Takes `amount` off `who`'s credit and deposits `PrepaidFeeWithdrawn`;
    /// nothing happens for a zero amount.
    fn withdraw_credit(&mut self, who: AccountId, amount: Balance) -> (r: Result<(), TransactionValidityError>)
        ensures
            r is Ok ==> old(self).credit_withdrawn(*final(self), who, amount),
            r is Err ==> r == Err::<(), TransactionValidityError>(TransactionValidityError::Payment) && *final(self) == *old(self),
    {
        if amount == 0 {
            return Ok(());
        }
        let stored = self.remaining_credit(who);
        if stored < amount {
            return Err(TransactionValidityError::Payment);
        }
        let remaining = stored - amount;
        self.credits.insert(who, remaining);
        self.events.push(Event::PrepaidFeeWithdrawn { who, amount, remaining });
        Ok(())
    }

    /// Adds `amount` to `who`'s credit (saturating) and deposits
    /// `PrepaidFeeRefunded`; nothing happens for a zero amount. Never fails.
    fn refund_credit(&mut self, who: AccountId, amount: Balance) -> (r: Result<(), TransactionValidityError>)
        ensures
            r is Ok,
            old(self).credit_refunded(*final(self), who, amount),
    {
        if amount == 0 {
            return Ok(());
        }
        let stored = self.remaining_credit(who);
        let remaining = stored.saturating_add(amount);
        self.credits.insert(who, remaining);
        self.events.push(Event::PrepaidFeeRefunded { who, amount, remaining });
        Ok(())
    }
}

/// Giving back what was just taken off an account's credit restores every
/// account's credit.
pub proof fn law_refund_undoes_withdraw(p0: Pallet, p1: Pallet, p2: Pallet, who: AccountId, amount: Balance)
    requires
        p0.credit_withdrawn(p1, who, amount),
        p1.credit_refunded(p2, who, amount),
    ensures
        forall|w: AccountId| #[trigger] p2.credit_view(w) == p0.credit_view(w),
        p2.cfg() == p0.cfg(),
        p2.initialized() == p0.initialized(),
{
}

/// Credit bought for an account can be spent: after a purchase, taking the
/// purchased amount off the beneficiary's credit is never refused.
pub proof fn law_purchased_credit_can_be_spent(p0: Pallet, p1: Pallet, sponsor: AccountId, beneficiary: AccountId, amount: Balance)
    requires
        p0.purchased(p1, sponsor, beneficiary, amount),
    ensures
        amount <= p1.credit_of(beneficiary),
        p1.credit_of(beneficiary) == sat_add(p0.credit_of(beneficiary), amount),
{
}

} // verus!
