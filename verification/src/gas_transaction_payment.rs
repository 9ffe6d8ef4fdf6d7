//! Transaction fees paid from prepaid credit, falling back to the payer's
//! native balance.
//!
//! The fee adapter decides which source pays, how much is charged and how
//! much is refunded once the actual fee is known. The currency operations
//! (withdrawals, deposits back into accounts) are performed by the runtime's
//! currency; the functions here take their outcomes as plain values. An
//! amount withdrawn from the currency (a credit) is represented by its
//! value.
use vstd::prelude::*;
use vstd::string::StringExecFns;

verus! {

pub type AccountId = u64;

pub type Balance = u128;

/// Why a transaction cannot pay its fee.
#[derive(Clone, Copy, Debug, PartialEq, Eq, Structural)]
pub enum TransactionValidityError {
    /// The fee cannot be paid.
    Payment,
    /// Another reason, reported by a prepaid-credit provider.
    Other(u8),
}

/// `a - b`, clamped at zero.
pub open spec fn sat_sub(a: u128, b: u128) -> u128 {
    if a < b { 0 } else { (a - b) as u128 }
}

/// `a + b`, clamped at `u128::MAX`.
pub open spec fn sat_add(a: u128, b: u128) -> u128 {
    if a + b > u128::MAX { u128::MAX } else { (a + b) as u128 }
}

pub open spec fn min(a: u128, b: u128) -> u128 {
    if a <= b { a } else { b }
}

/// Splitting a credit at `amount`: the first part holds what `amount` asks
/// for (at most the whole credit), the second part the rest.
pub open spec fn split_spec(credit: Balance, amount: Balance) -> (Balance, Balance) {
    (min(credit, amount), (credit - min(credit, amount)) as u128)
}

pub fn split_credit(credit: Balance, amount: Balance) -> (r: (Balance, Balance))
    ensures
        r == split_spec(credit, amount),
        r.0 + r.1 == credit,
{
    let first = if credit <= amount { credit } else { amount };
    (first, credit - first)
}

/// A provider of prepaid transaction credit.
pub trait PrepaidFee {
    /// The credit of `who`.
    spec fn credit_of(&self, who: AccountId) -> Balance;

    /// The account that holds the funds backing the credit.
    spec fn funding_account(&self) -> AccountId;

    /// Whether the provider refuses to give `amount` back to `who`'s credit.
    spec fn refund_refused(&self, who: AccountId, amount: Balance) -> bool;

    fn account_id(&self) -> (a: AccountId)
        ensures
            a == self.funding_account(),
    ;

    fn credit(&self, who: AccountId) -> (c: Balance)
        ensures
            c == self.credit_of(who),
    ;

    /// Takes `amount` off `who`'s credit; refused exactly when the credit is
    /// short.
    fn withdraw_credit(&mut self, who: AccountId, amount: Balance) -> (r: Result<(), TransactionValidityError>)
        ensures
            final(self).funding_account() == old(self).funding_account(),
            forall|w: AccountId| w != who ==> #[trigger] final(self).credit_of(w) == old(self).credit_of(w),
            r is Ok <==> amount <= old(self).credit_of(who),
            r is Ok ==> final(self).refund_refused(who, amount) == old(self).refund_refused(who, amount),
            match r {
                Ok(()) => amount <= old(self).credit_of(who)
                    && final(self).credit_of(who) == old(self).credit_of(who) - amount,
                Err(_) => final(self).credit_of(who) == old(self).credit_of(who),
            },
    ;

    /// Gives `amount` back to `who`'s credit; refused exactly when the
    /// provider refuses it.
    fn refund_credit(&mut self, who: AccountId, amount: Balance) -> (r: Result<(), TransactionValidityError>)
        ensures
            final(self).funding_account() == old(self).funding_account(),
            r is Err <==> old(self).refund_refused(who, amount),
            forall|w: AccountId| w != who ==> #[trigger] final(self).credit_of(w) == old(self).credit_of(w),
            match r {
                Ok(()) => final(self).credit_of(who) == sat_add(old(self).credit_of(who), amount),
                Err(_) => final(self).credit_of(who) == old(self).credit_of(who),
            },
    ;
}

/// What was withdrawn for a transaction's fee, kept until the actual fee
/// is known.
#[derive(Clone, Copy, Debug, PartialEq, Eq, Structural)]
#[allow(inconsistent_fields)]
pub enum LiquidityInfo {
    /// Paid from the payer's native balance.
    Native { who: AccountId, fee_credit: Option<Balance>, tip_credit: Option<Balance> },
    /// The inclusion fee was paid from prepaid credit (and withdrawn from the
    /// funding account); the tip, if any, from the payer's native balance.
    Prepaid { who: AccountId, paid_inclusion_fee: Balance, fee_credit: Balance, tip_credit: Option<Balance> },
    /// Nothing was charged.
    NoCharge,
}

impl Default for LiquidityInfo {
    fn default() -> (l: LiquidityInfo)
        ensures
            l == LiquidityInfo::NoCharge,
    {
        LiquidityInfo::NoCharge
    }
}

/// The character of a decimal digit.
pub open spec fn digit_char(d: nat) -> char {
    (48 + d) as char
}

/// The decimal digits of `n`, most significant first.
pub open spec fn decimal(n: nat) -> Seq<char>
    decreases n,
{
    if n < 10 {
        seq![digit_char(n)]
    } else {
        decimal(n / 10) + seq![digit_char(n % 10)]
    }
}

/// The debugging text of a liquidity record: who paid and, for prepaid
/// fees, the inclusion fee; the credits are not shown.
pub open spec fn liquidity_text(info: LiquidityInfo) -> Seq<char> {
    match info {
        LiquidityInfo::Native { who, .. } => "Native { who: "@ + decimal(who as nat) + " }"@,
        LiquidityInfo::Prepaid { who, paid_inclusion_fee, .. } => "Prepaid { who: "@ + decimal(who as nat)
            + ", paid_inclusion_fee: "@ + decimal(paid_inclusion_fee as nat) + " }"@,
        LiquidityInfo::NoCharge => "NoCharge"@,
    }
}

fn digit_str(d: u128) -> (s: &'static str)
    requires
        d < 10,
    ensures
        s@ == seq![digit_char(d as nat)],
{
    if d == 0 {
        proof { reveal_strlit("0"); }
        "0"
    } else if d == 1 {
        proof { reveal_strlit("1"); }
        "1"
    } else if d == 2 {
        proof { reveal_strlit("2"); }
        "2"
    } else if d == 3 {
        proof { reveal_strlit("3"); }
        "3"
    } else if d == 4 {
        proof { reveal_strlit("4"); }
        "4"
    } else if d == 5 {
        proof { reveal_strlit("5"); }
        "5"
    } else if d == 6 {
        proof { reveal_strlit("6"); }
        "6"
    } else if d == 7 {
        proof { reveal_strlit("7"); }
        "7"
    } else if d == 8 {
        proof { reveal_strlit("8"); }
        "8"
    } else {
        proof { reveal_strlit("9"); }
        "9"
    }
}

/// Appends the decimal digits of `n`.
fn push_decimal(s: &mut String, n: u128)
    ensures
        final(s)@ == old(s)@ + decimal(n as nat),
    decreases n,
{
    if n >= 10 {
        push_decimal(s, n / 10);
    }
    s.append(digit_str(n % 10));
    proof {
        if n >= 10 {
            assert(decimal(n as nat) == decimal((n / 10) as nat) + seq![digit_char((n % 10) as nat)]);
        }
        assert(s@ =~= old(s)@ + decimal(n as nat));
    }
}

impl LiquidityInfo {
    /// The text this record is shown as when debugging.
    pub fn debug_text(&self) -> (t: String)
        ensures
            t@ == liquidity_text(*self),
    {
        match self {
            LiquidityInfo::Native { who, .. } => {
                let mut t = String::from_str("Native { who: ");
                push_decimal(&mut t, *who as u128);
                t.append(" }");
                t
            },
            LiquidityInfo::Prepaid { who, paid_inclusion_fee, .. } => {
                let mut t = String::from_str("Prepaid { who: ");
                push_decimal(&mut t, *who as u128);
                t.append(", paid_inclusion_fee: ");
                push_decimal(&mut t, *paid_inclusion_fee);
                t.append(" }");
                t
            },
            LiquidityInfo::NoCharge => String::from_str("NoCharge"),
        }
    }
}

/// What the currency reports, and what its withdrawals did, when a fee is
/// withdrawn.
#[derive(Clone, Copy, Debug, PartialEq, Eq, Structural)]
pub struct WithdrawEnv {
    /// Whether the payer can pay the tip from its native balance.
    pub tip_withdrawable: bool,
    /// Whether the payer can pay the whole fee from its native balance.
    pub fee_withdrawable: bool,
    /// Whether withdrawing the inclusion fee from the funding account succeeded.
    pub funding_withdraw_ok: bool,
    /// Whether withdrawing the tip from the payer succeeded.
    pub tip_withdraw_ok: bool,
    /// Whether withdrawing the whole fee from the payer succeeded.
    pub native_withdraw_ok: bool,
}

impl WithdrawEnv {
    /// The currency's reports agree with what its withdrawals did: a
    /// withdrawal from the payer succeeds only where it was reported
    /// possible.
    pub open spec fn consistent(self) -> bool {
        &&& self.native_withdraw_ok ==> self.fee_withdrawable
        &&& self.tip_withdraw_ok ==> self.tip_withdrawable
    }
}

/// What the currency did when refunds were paid back.
#[derive(Clone, Copy, Debug, PartialEq, Eq, Structural)]
pub struct SettleEnv {
    /// Whether the payer's account exists.
    pub account_exists: bool,
    /// Whether depositing the refund back (to the payer, or to the funding
    /// account for prepaid fees) succeeded.
    pub refund_deposit_ok: bool,
}

#[derive(Clone, Copy, Debug, PartialEq, Eq, Structural)]
pub enum Event {
    PrepaidFeePaid { who: AccountId, actual_fee: u128, tip: u128, remaining: u128 },
}

/// Where the withdrawn amounts went once the fee was settled.
#[derive(Clone, Debug, PartialEq, Eq)]
pub struct Settlement {
    /// The fee handler's calls, in order, each with the credits it was
    /// handed.
    pub fee_handler_calls: Vec<Vec<Balance>>,
    /// What was deposited back into the payer's account.
    pub refunded_to_payer: Balance,
    /// What was deposited back into the funding account (and returned to the
    /// payer's prepaid credit).
    pub refunded_to_credit: Balance,
    /// The event deposited, if any.
    pub event: Option<Event>,
}

/// The credits of each fee-handler call.
pub open spec fn calls_view(calls: Seq<Vec<Balance>>) -> Seq<Seq<Balance>> {
    Seq::new(calls.len(), |i: int| calls[i]@)
}

/// Sum of the credits handed over in all calls.
pub open spec fn calls_total(calls: Seq<Seq<Balance>>) -> int
    decreases calls.len(),
{
    if calls.len() == 0 {
        0
    } else {
        calls_total(calls.drop_last()) + total(calls.last())
    }
}

/// The tip's credit, if any, as the credits of one call.
pub open spec fn tip_credits(tip_credit: Option<Balance>) -> Seq<Balance> {
    match tip_credit {
        Some(t) => seq![t],
        None => Seq::empty(),
    }
}

/// Sum of a sequence of amounts.
pub open spec fn total(s: Seq<Balance>) -> int
    decreases s.len(),
{
    if s.len() == 0 {
        0
    } else {
        total(s.drop_last()) + s.last()
    }
}

/// The amounts a liquidity record holds.
pub open spec fn withdrawn(info: LiquidityInfo) -> int {
    match info {
        LiquidityInfo::Native { fee_credit, tip_credit, .. } =>
            (match fee_credit { Some(f) => f as int, None => 0 }) + (match tip_credit { Some(t) => t as int, None => 0 }),
        LiquidityInfo::Prepaid { fee_credit, tip_credit, .. } =>
            fee_credit + (match tip_credit { Some(t) => t as int, None => 0 }),
        LiquidityInfo::NoCharge => 0,
    }
}

pub struct PrepaidFeeAdapter;

impl PrepaidFeeAdapter {
    /// The fee without the tip.
    pub open spec fn inclusion_fee(fee_with_tip: Balance, tip: Balance) -> Balance {
        sat_sub(fee_with_tip, tip)
    }

    /// Whether the prepaid credit pays the inclusion fee: there is one and
    /// the credit covers it.
    pub open spec fn pays_from_credit<P: PrepaidFee>(prepaid: &P, who: AccountId, fee_with_tip: Balance, tip: Balance) -> bool {
        let inclusion = Self::inclusion_fee(fee_with_tip, tip);
        inclusion != 0 && prepaid.credit_of(who) >= inclusion
    }

    /// What withdrawing the fee does: the result and the payer's credit
    /// afterwards (`p0` before, `p1` after).
    pub open spec fn withdraw_outcome<P: PrepaidFee>(
        p0: P,
        p1: P,
        who: AccountId,
        fee_with_tip: Balance,
        tip: Balance,
        env: WithdrawEnv,
        r: Result<LiquidityInfo, TransactionValidityError>,
    ) -> bool {
        let inclusion = Self::inclusion_fee(fee_with_tip, tip);
        if fee_with_tip == 0 {
            r == Ok::<LiquidityInfo, TransactionValidityError>(LiquidityInfo::NoCharge)
                && p1.credit_of(who) == p0.credit_of(who)
        } else if Self::pays_from_credit(&p0, who, fee_with_tip, tip) {
            if tip != 0 && !env.tip_withdrawable {
                r == Err::<LiquidityInfo, TransactionValidityError>(TransactionValidityError::Payment)
                    && p1.credit_of(who) == p0.credit_of(who)
            } else {
                &&& r is Ok <==> env.funding_withdraw_ok && (tip == 0 || env.tip_withdraw_ok)
                &&& match r {
                    Ok(info) => info == LiquidityInfo::Prepaid {
                            who,
                            paid_inclusion_fee: inclusion,
                            fee_credit: inclusion,
                            tip_credit: if tip == 0 { None } else { Some(tip) },
                        }
                        && p1.credit_of(who) == p0.credit_of(who) - inclusion,
                    Err(e) => e == TransactionValidityError::Payment && if env.funding_withdraw_ok {
                        // the tip could not be withdrawn; the credit stays spent
                        p1.credit_of(who) == p0.credit_of(who) - inclusion
                    } else if p0.refund_refused(who, inclusion) {
                        // the provider refuses to give the credit back
                        p1.credit_of(who) == p0.credit_of(who) - inclusion
                    } else {
                        p1.credit_of(who) == p0.credit_of(who)
                    },
                }
            }
        } else if env.native_withdraw_ok {
            r == Ok::<LiquidityInfo, TransactionValidityError>(LiquidityInfo::Native {
                who,
                fee_credit: Some((fee_with_tip - min(fee_with_tip, tip)) as u128),
                tip_credit: Some(min(fee_with_tip, tip)),
            }) && p1.credit_of(who) == p0.credit_of(who)
        } else {
            r == Err::<LiquidityInfo, TransactionValidityError>(TransactionValidityError::Payment)
                && p1.credit_of(who) == p0.credit_of(who)
        }
    }

    /// Whether the dry check passes: nothing to pay, or the source that
    /// would pay reports it can.
    pub open spec fn can_withdraw_ok<P: PrepaidFee>(prepaid: &P, who: AccountId, fee_with_tip: Balance, tip: Balance, env: WithdrawEnv) -> bool {
        fee_with_tip == 0 || if Self::pays_from_credit(prepaid, who, fee_with_tip, tip) {
            tip == 0 || env.tip_withdrawable
        } else {
            env.fee_withdrawable
        }
    }

    /// Checks that `who` can pay `amount` from its native balance (nothing
    /// to check for zero).
    pub fn can_withdraw_native(amount: Balance, withdrawable: bool) -> (r: Result<(), TransactionValidityError>)
        ensures
            r is Ok <==> (amount == 0 || withdrawable),
            r is Err ==> r == Err::<(), TransactionValidityError>(TransactionValidityError::Payment),
    {
        if amount == 0 {
            return Ok(());
        }
        if withdrawable {
            Ok(())
        } else {
            Err(TransactionValidityError::Payment)
        }
    }

    /// Checks that the tip can be paid from the native balance.
    pub fn withdraw_tip(tip: Balance, withdrawable: bool) -> (r: Result<(), TransactionValidityError>)
        ensures
            r is Ok <==> (tip == 0 || withdrawable),
            r is Err ==> r == Err::<(), TransactionValidityError>(TransactionValidityError::Payment),
    {
        Self::can_withdraw_native(tip, withdrawable)
    }

    /// The credit withdrawn from the payer for `amount`: none for zero.
    pub fn native_credit(amount: Balance, withdraw_ok: bool) -> (r: Result<Option<Balance>, TransactionValidityError>)
        ensures
            r == (if amount == 0 {
                Ok(None)
            } else if withdraw_ok {
                Ok(Some(amount))
            } else {
                Err(TransactionValidityError::Payment)
            }),
    {
        if amount == 0 {
            return Ok(None);
        }
        if withdraw_ok {
            Ok(Some(amount))
        } else {
            Err(TransactionValidityError::Payment)
        }
    }

    /// Whether the fee could be paid, without paying it.
    pub fn can_withdraw_fee<P: PrepaidFee>(
        prepaid: &P,
        who: AccountId,
        fee_with_tip: Balance,
        tip: Balance,
        env: &WithdrawEnv,
    ) -> (r: Result<(), TransactionValidityError>)
        ensures
            r is Ok <==> Self::can_withdraw_ok(prepaid, who, fee_with_tip, tip, *env),
            r is Err ==> r == Err::<(), TransactionValidityError>(TransactionValidityError::Payment),
    {
        if fee_with_tip == 0 {
            return Ok(());
        }
        let inclusion_fee = fee_with_tip.saturating_sub(tip);
        if inclusion_fee != 0 && prepaid.credit(who) >= inclusion_fee {
            return Self::can_withdraw_native(tip, env.tip_withdrawable);
        }
        Self::can_withdraw_native(fee_with_tip, env.fee_withdrawable)
    }

    /// Withdraws the fee before the transaction runs: from prepaid credit
    /// when it covers the inclusion fee (the tip still comes from the
    /// native balance), otherwise the whole fee from the native balance.
    pub fn withdraw_fee<P: PrepaidFee>(
        prepaid: &mut P,
        who: AccountId,
        fee_with_tip: Balance,
        tip: Balance,
        env: &WithdrawEnv,
    ) -> (r: Result<LiquidityInfo, TransactionValidityError>)
        ensures
            final(prepaid).funding_account() == old(prepaid).funding_account(),
            forall|w: AccountId| w != who ==> #[trigger] final(prepaid).credit_of(w) == old(prepaid).credit_of(w),
            Self::withdraw_outcome(*old(prepaid), *final(prepaid), who, fee_with_tip, tip, *env, r),
    {
        if fee_with_tip == 0 {
            return Ok(LiquidityInfo::NoCharge);
        }
        let inclusion_fee = fee_with_tip.saturating_sub(tip);
        if inclusion_fee != 0 && prepaid.credit(who) >= inclusion_fee {
            Self::withdraw_tip(tip, env.tip_withdrawable)?;
            prepaid.withdraw_credit(who, inclusion_fee)?;
            if !env.funding_withdraw_ok {
                let _ = prepaid.refund_credit(who, inclusion_fee);
                return Err(TransactionValidityError::Payment);
            }
            let tip_credit = Self::native_credit(tip, env.tip_withdraw_ok)?;
            return Ok(LiquidityInfo::Prepaid { who, paid_inclusion_fee: inclusion_fee, fee_credit: inclusion_fee, tip_credit });
        }
        if !env.native_withdraw_ok {
            return Err(TransactionValidityError::Payment);
        }
        let (tip_credit, fee_credit) = split_credit(fee_with_tip, tip);
        Ok(LiquidityInfo::Native { who, fee_credit: Some(fee_credit), tip_credit: Some(tip_credit) })
    }

    /// Pays a native refund back to the payer; when the account is gone or
    /// the deposit fails, the refund goes to the fee handler with the fee.
    /// Returns the fee paid and what was refunded.
    pub fn refund_native_fee(paid_fee: Balance, refund: Balance, env: &SettleEnv) -> (r: (Balance, Balance))
        requires
            paid_fee + refund <= u128::MAX,
        ensures
            r == (if refund == 0 {
                (paid_fee, 0u128)
            } else if env.account_exists && env.refund_deposit_ok {
                (paid_fee, refund)
            } else {
                ((paid_fee + refund) as u128, 0u128)
            }),
    {
        if refund == 0 {
            return (paid_fee, 0);
        }
        if env.account_exists && env.refund_deposit_ok {
            (paid_fee, refund)
        } else {
            (paid_fee + refund, 0)
        }
    }

    /// Settles a fee paid from the native balance: the part of the fee
    /// credit above the actual fee is refunded, and the fee and the tip go
    /// to the fee handler.
    pub fn settle_native_fee(
        fee_credit: Option<Balance>,
        corrected_fee: Balance,
        tip_credit: Option<Balance>,
        env: &SettleEnv,
    ) -> (r: (Vec<Balance>, Balance))
        ensures
            r.0@ == Self::native_handler_credits(fee_credit, corrected_fee, tip_credit, *env),
            r.1 == Self::native_refund(fee_credit, corrected_fee, *env),
    {
        let mut credits: Vec<Balance> = Vec::new();
        let mut refunded: Balance = 0;
        if let Some(fee) = fee_credit {
            let (paid, refund) = split_credit(fee, corrected_fee);
            let (paid, back) = Self::refund_native_fee(paid, refund, env);
            credits.push(paid);
            refunded = back;
        }
        if let Some(t) = tip_credit {
            credits.push(t);
        }
        proof {
            assert(credits@ =~= Self::native_handler_credits(fee_credit, corrected_fee, tip_credit, *env));
        }
        (credits, refunded)
    }

    /// What a native fee credit refunds to the payer.
    pub open spec fn native_refund(fee_credit: Option<Balance>, corrected_fee: Balance, env: SettleEnv) -> Balance {
        match fee_credit {
            Some(fee) => {
                let refund = split_spec(fee, corrected_fee).1;
                if refund != 0 && env.account_exists && env.refund_deposit_ok { refund } else { 0 }
            },
            None => 0,
        }
    }

    /// The credits a native fee hands to the fee handler: the fee kept (with
    /// any refund that could not be paid back), then the tip.
    pub open spec fn native_handler_credits(
        fee_credit: Option<Balance>,
        corrected_fee: Balance,
        tip_credit: Option<Balance>,
        env: SettleEnv,
    ) -> Seq<Balance> {
        let fee_part = match fee_credit {
            Some(fee) => seq![(fee - Self::native_refund(fee_credit, corrected_fee, env)) as u128],
            None => Seq::empty(),
        };
        let tip_part = match tip_credit {
            Some(t) => seq![t],
            None => Seq::empty(),
        };
        fee_part + tip_part
    }

    /// Settles a fee paid from prepaid credit: the credit charged is the
    /// actual fee, never more than what was charged in advance; the rest is
    /// deposited back into the funding account and returned to the payer's
    /// credit. Returns the fee kept and what went back to the credit.
    pub fn settle_prepaid_fee<P: PrepaidFee>(
        prepaid: &mut P,
        who: AccountId,
        fee_credit: Balance,
        paid_inclusion_fee: Balance,
        corrected_fee: Balance,
        env: &SettleEnv,
    ) -> (r: Result<(Balance, Balance), TransactionValidityError>)
        ensures
            final(prepaid).funding_account() == old(prepaid).funding_account(),
            forall|w: AccountId| w != who ==> #[trigger] final(prepaid).credit_of(w) == old(prepaid).credit_of(w),
            ({
                let (kept, refund) = split_spec(fee_credit, min(corrected_fee, paid_inclusion_fee));
                if refund == 0 {
                    r == Ok::<(Balance, Balance), TransactionValidityError>((kept, 0u128))
                        && final(prepaid).credit_of(who) == old(prepaid).credit_of(who)
                } else if !env.refund_deposit_ok {
                    r == Ok::<(Balance, Balance), TransactionValidityError>((fee_credit, 0u128))
                        && final(prepaid).credit_of(who) == old(prepaid).credit_of(who)
                } else if old(prepaid).refund_refused(who, refund) {
                    r is Err && final(prepaid).credit_of(who) == old(prepaid).credit_of(who)
                } else {
                    r == Ok::<(Balance, Balance), TransactionValidityError>((kept, refund))
                        && final(prepaid).credit_of(who) == sat_add(old(prepaid).credit_of(who), refund)
                }
            }),
    {
        let fee_to_keep = if corrected_fee <= paid_inclusion_fee { corrected_fee } else { paid_inclusion_fee };
        let (paid, refund) = split_credit(fee_credit, fee_to_keep);
        if refund == 0 {
            return Ok((paid, 0));
        }
        if env.refund_deposit_ok {
            prepaid.refund_credit(who, refund)?;
            Ok((paid, refund))
        } else {
            Ok((paid + refund, 0))
        }
    }

    /// Settles the fee once the actual fee is known: refunds what was
    /// charged in excess, and hands the fee and the tip to the fee handler.
    pub fn correct_and_deposit_fee<P: PrepaidFee>(
        prepaid: &mut P,
        corrected_fee_with_tip: Balance,
        tip: Balance,
        liquidity_info: LiquidityInfo,
        env: &SettleEnv,
    ) -> (r: Result<Settlement, TransactionValidityError>)
        ensures
            Self::settle_outcome(*old(prepaid), *final(prepaid), corrected_fee_with_tip, tip, liquidity_info, *env, r),
    {
        let corrected_fee = corrected_fee_with_tip.saturating_sub(tip);
        match liquidity_info {
            LiquidityInfo::NoCharge => {
                let calls: Vec<Vec<Balance>> = Vec::new();
                proof {
                    assert(calls_view(calls@) =~= Seq::<Seq<Balance>>::empty());
                }
                Ok(Settlement { fee_handler_calls: calls, refunded_to_payer: 0, refunded_to_credit: 0, event: None })
            },
            LiquidityInfo::Native { who, fee_credit, tip_credit } => {
                let (credits, refunded) = Self::settle_native_fee(fee_credit, corrected_fee, tip_credit, env);
                let mut calls: Vec<Vec<Balance>> = Vec::new();
                calls.push(credits);
                proof {
                    assert(calls_view(calls@) =~= seq![credits@]);
                }
                Ok(Settlement { fee_handler_calls: calls, refunded_to_payer: refunded, refunded_to_credit: 0, event: None })
            },
            LiquidityInfo::Prepaid { who, paid_inclusion_fee, fee_credit, tip_credit } => {
                let (paid, refunded) = Self::settle_prepaid_fee(prepaid, who, fee_credit, paid_inclusion_fee, corrected_fee, env)?;
                // The kept fee and the tip go to the fee handler in two calls.
                let mut fee: Vec<Balance> = Vec::new();
                fee.push(paid);
                let mut tips: Vec<Balance> = Vec::new();
                if let Some(t) = tip_credit {
                    tips.push(t);
                }
                let mut calls: Vec<Vec<Balance>> = Vec::new();
                calls.push(fee);
                calls.push(tips);
                let remaining = prepaid.credit(who);
                let event = Event::PrepaidFeePaid { who, actual_fee: corrected_fee, tip, remaining };
                proof {
                    assert(fee@ =~= seq![paid]);
                    assert(tips@ =~= tip_credits(tip_credit));
                    assert(calls_view(calls@) =~= seq![seq![paid], tip_credits(tip_credit)]);
                }
                Ok(Settlement { fee_handler_calls: calls, refunded_to_payer: 0, refunded_to_credit: refunded, event: Some(event) })
            },
        }
    }

    /// What settling the fee does: the result and the prepaid credit
    /// afterwards (`p0` before, `p1` after).
    pub open spec fn settle_outcome<P: PrepaidFee>(
        p0: P,
        p1: P,
        corrected_fee_with_tip: Balance,
        tip: Balance,
        info: LiquidityInfo,
        env: SettleEnv,
        r: Result<Settlement, TransactionValidityError>,
    ) -> bool {
        let corrected_fee = sat_sub(corrected_fee_with_tip, tip);
        &&& p1.funding_account() == p0.funding_account()
        &&& match info {
            LiquidityInfo::NoCharge => r is Ok && calls_view(r->Ok_0.fee_handler_calls@) == Seq::<Seq<Balance>>::empty()
                && r->Ok_0.refunded_to_payer == 0 && r->Ok_0.refunded_to_credit == 0 && r->Ok_0.event is None
                && forall|w: AccountId| #[trigger] p1.credit_of(w) == p0.credit_of(w),
            LiquidityInfo::Native { who, fee_credit, tip_credit } => r is Ok
                && calls_view(r->Ok_0.fee_handler_calls@) == seq![Self::native_handler_credits(fee_credit, corrected_fee, tip_credit, env)]
                && r->Ok_0.refunded_to_payer == Self::native_refund(fee_credit, corrected_fee, env)
                && r->Ok_0.refunded_to_credit == 0 && r->Ok_0.event is None
                && forall|w: AccountId| #[trigger] p1.credit_of(w) == p0.credit_of(w),
            LiquidityInfo::Prepaid { who, paid_inclusion_fee, fee_credit, tip_credit } => {
                let (kept, refund) = split_spec(fee_credit, min(corrected_fee, paid_inclusion_fee));
                let back = if refund != 0 && env.refund_deposit_ok { refund } else { 0u128 };
                &&& forall|w: AccountId| w != who ==> #[trigger] p1.credit_of(w) == p0.credit_of(w)
                &&& r is Err <==> (refund != 0 && env.refund_deposit_ok && p0.refund_refused(who, refund))
                &&& match r {
                    Ok(st) => calls_view(st.fee_handler_calls@) == seq![seq![(fee_credit - back) as u128], tip_credits(tip_credit)]
                        && st.refunded_to_payer == 0 && st.refunded_to_credit == back
                        && p1.credit_of(who) == sat_add(p0.credit_of(who), back)
                        && st.event == Some(Event::PrepaidFeePaid {
                            who,
                            actual_fee: corrected_fee,
                            tip,
                            remaining: p1.credit_of(who),
                        }),
                    // only the provider's refund can fail
                    Err(_) => refund != 0 && env.refund_deposit_ok && p0.refund_refused(who, refund)
                        && p1.credit_of(who) == p0.credit_of(who),
                }
            },
        }
    }
}

/// Settling moves every withdrawn amount somewhere: what the fee handler
/// receives plus what is refunded adds up to what was withdrawn.
pub proof fn law_settlement_conserves_withdrawn<P: PrepaidFee>(
    p0: P,
    p1: P,
    corrected_fee_with_tip: Balance,
    tip: Balance,
    info: LiquidityInfo,
    env: SettleEnv,
    st: Settlement,
)
    requires
        PrepaidFeeAdapter::settle_outcome(p0, p1, corrected_fee_with_tip, tip, info, env, Ok(st)),
    ensures
        calls_total(calls_view(st.fee_handler_calls@)) + st.refunded_to_payer + st.refunded_to_credit == withdrawn(info),
{
    reveal_with_fuel(total, 3);
    reveal_with_fuel(calls_total, 3);
    let c = calls_view(st.fee_handler_calls@);
    assert forall|s: Seq<Balance>| s.len() <= 2 implies #[trigger] total(s) == (if s.len() == 0 {
        0
    } else if s.len() == 1 {
        s[0] as int
    } else {
        s[0] + s[1]
    }) by {
        if s.len() == 2 {
            assert(s.drop_last().drop_last() =~= Seq::<Balance>::empty());
        } else if s.len() == 1 {
            assert(s.drop_last() =~= Seq::<Balance>::empty());
        }
    }
    if c.len() == 2 {
        assert(c.drop_last().drop_last() =~= Seq::<Seq<Balance>>::empty());
        assert(c.drop_last().last() == c[0]);
    } else if c.len() == 1 {
        assert(c.drop_last() =~= Seq::<Seq<Balance>>::empty());
    }
}

/// A fee that is withdrawn passes the dry check made in the same state, as
/// long as the currency's reports agree with what its withdrawals do.
pub proof fn law_withdrawal_passes_dry_check<P: PrepaidFee>(
    p0: P,
    p1: P,
    who: AccountId,
    fee_with_tip: Balance,
    tip: Balance,
    env: WithdrawEnv,
    info: LiquidityInfo,
)
    requires
        env.consistent(),
        PrepaidFeeAdapter::withdraw_outcome(p0, p1, who, fee_with_tip, tip, env, Ok(info)),
    ensures
        PrepaidFeeAdapter::can_withdraw_ok(&p0, who, fee_with_tip, tip, env),
{
}

/// Prepaid credit pays the inclusion fee (the fee without the tip) whenever
/// it covers it: the tip is never counted against the credit. The fee is
/// then never taken from the native balance; it is charged to the credit
/// when the tip can be paid and the withdrawals succeed, and otherwise
/// refused. The dry check passes exactly when the tip can be paid.
pub proof fn law_credit_pays_the_inclusion_fee<P: PrepaidFee>(
    p0: P,
    p1: P,
    who: AccountId,
    fee_with_tip: Balance,
    tip: Balance,
    env: WithdrawEnv,
    r: Result<LiquidityInfo, TransactionValidityError>,
)
    requires
        tip < fee_with_tip,
        p0.credit_of(who) >= fee_with_tip - tip,
        PrepaidFeeAdapter::withdraw_outcome(p0, p1, who, fee_with_tip, tip, env, r),
    ensures
        PrepaidFeeAdapter::can_withdraw_ok(&p0, who, fee_with_tip, tip, env) == (tip == 0 || env.tip_withdrawable),
        !(r matches Ok(LiquidityInfo::Native { .. })),
        r is Ok <==> (tip == 0 || (env.tip_withdrawable && env.tip_withdraw_ok)) && env.funding_withdraw_ok,
        r is Ok ==> r == Ok::<LiquidityInfo, TransactionValidityError>(LiquidityInfo::Prepaid {
            who,
            paid_inclusion_fee: (fee_with_tip - tip) as u128,
            fee_credit: (fee_with_tip - tip) as u128,
            tip_credit: if tip == 0 { None } else { Some(tip) },
        }) && p1.credit_of(who) == p0.credit_of(who) - (fee_with_tip - tip),
        r is Err ==> r == Err::<LiquidityInfo, TransactionValidityError>(TransactionValidityError::Payment),
{
}

/// A fee paid from prepaid credit costs the payer's credit exactly the
/// actual inclusion fee, capped at what was charged in advance, once the
/// excess has been deposited back.
pub proof fn law_prepaid_credit_charged_actual_fee<P: PrepaidFee>(
    p0: P,
    p1: P,
    p2: P,
    who: AccountId,
    fee_with_tip: Balance,
    tip: Balance,
    wenv: WithdrawEnv,
    info: LiquidityInfo,
    corrected_fee_with_tip: Balance,
    senv: SettleEnv,
    st: Settlement,
)
    requires
        PrepaidFeeAdapter::withdraw_outcome(p0, p1, who, fee_with_tip, tip, wenv, Ok(info)),
        info is Prepaid,
        PrepaidFeeAdapter::settle_outcome(p1, p2, corrected_fee_with_tip, tip, info, senv, Ok(st)),
    ensures
        ({
            let inclusion = PrepaidFeeAdapter::inclusion_fee(fee_with_tip, tip);
            let actual = sat_sub(corrected_fee_with_tip, tip);
            &&& inclusion <= p0.credit_of(who)
            &&& senv.refund_deposit_ok ==> p2.credit_of(who) == p0.credit_of(who) - min(actual, inclusion)
            &&& !senv.refund_deposit_ok ==> p2.credit_of(who) == p0.credit_of(who) - inclusion
        }),
{
}

} // verus!
