//! Plain data of the sponsorship pallet.
use vstd::prelude::*;
pub use crate::origin::Origin;

verus! {

pub type AccountId = u64;

pub type Balance = u128;

pub type BlockNumber = u64;

/// Which of the beneficiary's own balances must cover the sponsored amount
/// before an auto-unlock happens.
#[derive(Clone, Copy, Debug, PartialEq, Eq, Structural)]
pub enum AutoUnlockCondition {
    SpendableGeSponsored,
    FreeGeSponsored,
}

#[derive(Clone, Copy, Debug, PartialEq, Eq, Structural)]
pub enum AutoUnlockMode {
    Disabled,
    Enabled(AutoUnlockCondition),
}

/// How long a sponsorship lasts: without end, or until a block.
#[derive(Clone, Copy, Debug, PartialEq, Eq, Structural)]
pub enum Lease {
    Indefinite,
    Until(BlockNumber),
}

#[derive(Clone, Copy, Debug, PartialEq, Eq, Structural)]
pub enum UnlockReason {
    Manual,
    Force,
}

/// Per-sponsor bookkeeping: what is currently sponsored and what was
/// created in the block `last_block`.
#[derive(Clone, Copy, Debug, PartialEq, Eq, Structural)]
pub struct SponsorState {
    pub active_amount: Balance,
    pub active_count: u32,
    pub last_block: BlockNumber,
    pub sponsored_amount_in_block: Balance,
    pub new_sponsorships_in_block: u32,
}

/// The ledger of a sponsor that never sponsored.
pub open spec fn empty_sponsor_state() -> SponsorState {
    SponsorState {
        active_amount: 0,
        active_count: 0,
        last_block: 0,
        sponsored_amount_in_block: 0,
        new_sponsorships_in_block: 0,
    }
}

impl Default for SponsorState {
    fn default() -> (s: SponsorState)
        ensures
            s == empty_sponsor_state(),
    {
        SponsorState {
            active_amount: 0,
            active_count: 0,
            last_block: 0,
            sponsored_amount_in_block: 0,
            new_sponsorships_in_block: 0,
        }
    }
}

/// A sponsorship as other pallets see it.
#[derive(Clone, Copy, Debug, PartialEq, Eq, Structural)]
pub struct SponsorshipView {
    pub sponsor: AccountId,
    pub beneficiary: AccountId,
    pub amount: Balance,
    pub auto_unlock: AutoUnlockMode,
    pub lease: Lease,
    pub created_at: BlockNumber,
}

/// A stored sponsorship, keyed by its beneficiary.
#[derive(Clone, Copy, Debug, PartialEq, Eq, Structural)]
pub struct SponsorshipRecord {
    pub sponsor: AccountId,
    pub amount: Balance,
    pub auto_unlock: AutoUnlockMode,
    pub lease: Lease,
    pub created_at: BlockNumber,
}

/// Why funds are on hold.
#[derive(Clone, Copy, Debug, PartialEq, Eq, Structural)]
pub enum HoldReason {
    /// The sponsored amount, held in the beneficiary's account.
    Sponsorship,
    /// The storage deposit, held in the sponsor's account.
    StorageDeposit,
}

#[derive(Clone, Copy, Debug, PartialEq, Eq, Structural)]
pub enum Event {
    Sponsored {
        sponsor: AccountId,
        beneficiary: AccountId,
        amount: Balance,
        auto_unlock: AutoUnlockMode,
        lease: Lease,
    },
    Unlocked { sponsor: AccountId, beneficiary: AccountId, amount: Balance, reason: UnlockReason },
    PolicyUpdated {
        sponsor: AccountId,
        beneficiary: AccountId,
        auto_unlock: AutoUnlockMode,
        lease: Lease,
    },
    Expired { sponsor: AccountId, beneficiary: AccountId, amount: Balance },
    AutoUnlocked {
        sponsor: AccountId,
        beneficiary: AccountId,
        amount: Balance,
        condition: AutoUnlockCondition,
    },
}

#[derive(Clone, Copy, Debug, PartialEq, Eq, Structural)]
pub enum Error {
    AlreadySponsored,
    NotSponsored,
    NotSponsor,
    AmountTooLow,
    LeaseTooLong,
    LeaseInPast,
    SponsorCapExceeded,
    SponsorCountCapExceeded,
    SponsorPerBlockCapExceeded,
    SponsorPerBlockCountExceeded,
    SponsorMinRemainingViolation,
    HoldUnavailable,
    CannotTransferAndHold,
    CannotTransferOnHold,
    StorageDepositFailed,
    QueueFull,
}

/// Why a call failed: a wrong origin, or an error of this pallet.
#[derive(Clone, Copy, Debug, PartialEq, Eq, Structural)]
pub enum DispatchError {
    BadOrigin,
    Module(Error),
}

/// The pallet's constants.
#[derive(Clone, Copy, Debug, PartialEq, Eq, Structural)]
pub struct Config {
    /// The currency's minimum balance (existential deposit).
    pub existential_deposit: Balance,
    pub min_sponsorship: Balance,
    pub sponsor_min_remaining: Balance,
    pub max_total_sponsored_per_sponsor: Balance,
    pub max_sponsored_accounts_per_sponsor: u32,
    pub max_sponsored_amount_per_block: Balance,
    pub max_new_sponsorships_per_block: u32,
    pub max_lease_duration: BlockNumber,
    pub max_queue_processing_per_block: u32,
    pub sponsorship_storage_deposit: Balance,
}

/// What the currency reports, and what its operations did, for one
/// sponsorship attempt.
#[derive(Clone, Copy, Debug, PartialEq, Eq, Structural)]
pub struct SponsorEnv {
    /// The current block.
    pub now: BlockNumber,
    /// The sponsor's reducible balance (preserving the account, politely).
    pub sponsor_reducible: Balance,
    /// The sponsor's total free balance.
    pub sponsor_balance: Balance,
    /// Whether a sponsorship hold can be placed on the beneficiary.
    pub beneficiary_hold_available: bool,
    /// Whether a storage-deposit hold can be placed on the sponsor.
    pub sponsor_hold_available: bool,
    /// Whether the transfer of the amount onto hold at the beneficiary succeeded.
    pub transfer_and_hold_ok: bool,
    /// Whether placing the storage deposit on hold at the sponsor succeeded.
    pub deposit_hold_ok: bool,
}

impl SponsorEnv {
    /// The reports agree with each other: what the sponsor can spend is
    /// part of its balance.
    pub open spec fn consistent(self) -> bool {
        self.sponsor_reducible <= self.sponsor_balance
    }
}

/// What the currency's operations did when a sponsorship was revoked.
#[derive(Clone, Copy, Debug, PartialEq, Eq, Structural)]
pub struct RevokeOutcome {
    /// Whether the held amount went back to the sponsor as free balance.
    pub transfer_on_hold_ok: bool,
    /// Whether the storage deposit was released at the sponsor.
    pub release_ok: bool,
}

/// The beneficiary's own balances, as the currency reports them.
#[derive(Clone, Copy, Debug, PartialEq, Eq, Structural)]
pub struct BeneficiaryFunds {
    /// Reducible balance, preserving the account.
    pub spendable: Balance,
    /// Total free balance.
    pub free: Balance,
}

/// A balance operation that the runtime's currency or system pallet performs
/// on behalf of the pallet.
#[derive(Clone, Copy, Debug, PartialEq, Eq, Structural)]
pub enum CurrencyOp {
    IncProviders { who: AccountId },
    DecProviders { who: AccountId },
    TransferAndHold { reason: HoldReason, from: AccountId, to: AccountId, amount: Balance },
    Hold { reason: HoldReason, who: AccountId, amount: Balance },
    TransferOnHold { reason: HoldReason, from: AccountId, to: AccountId, amount: Balance },
    Release { reason: HoldReason, who: AccountId, amount: Balance },
}

/// `a + b`, clamped at `u128::MAX`.
pub open spec fn sat_add(a: u128, b: u128) -> u128 {
    if a + b > u128::MAX { u128::MAX } else { (a + b) as u128 }
}

/// `a - b`, clamped at zero.
pub open spec fn sat_sub(a: u128, b: u128) -> u128 {
    if a < b { 0 } else { (a - b) as u128 }
}

/// `a + b`, clamped at `u32::MAX`.
pub open spec fn sat_add32(a: u32, b: u32) -> u32 {
    if a + b > u32::MAX { u32::MAX } else { (a + b) as u32 }
}

/// `a - b`, clamped at zero.
pub open spec fn sat_sub32(a: u32, b: u32) -> u32 {
    if a < b { 0 } else { (a - b) as u32 }
}

} // verus!
