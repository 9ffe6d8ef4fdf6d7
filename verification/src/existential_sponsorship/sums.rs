//! Totals over the sponsorship map: how much, and for how many beneficiaries,
//! each sponsor has sponsored.
use vstd::prelude::*;
use vstd::set::fold::lemma_fold_insert;
use crate::existential_sponsorship::types::{AccountId, SponsorshipRecord};

verus! {

/// Adds the sponsored amount of beneficiary `k` to an accumulator.
pub open spec fn amount_adder(m: Map<AccountId, SponsorshipRecord>) -> spec_fn(int, AccountId) -> int {
    |acc: int, k: AccountId| acc + m[k].amount
}

/// Sum of the sponsored amounts of the beneficiaries in `keys`.
pub open spec fn sum_amounts(keys: Set<AccountId>, m: Map<AccountId, SponsorshipRecord>) -> int {
    keys.fold(0int, amount_adder(m))
}

/// The beneficiaries whom `sponsor` sponsors.
pub open spec fn sponsored_by(m: Map<AccountId, SponsorshipRecord>, sponsor: AccountId) -> Set<AccountId> {
    m.dom().filter(|b: AccountId| m[b].sponsor == sponsor)
}

/// Everything `sponsor` currently has on hold at beneficiaries.
pub open spec fn total_sponsored(m: Map<AccountId, SponsorshipRecord>, sponsor: AccountId) -> int {
    sum_amounts(sponsored_by(m, sponsor), m)
}

/// How many beneficiaries `sponsor` currently sponsors.
pub open spec fn count_sponsored(m: Map<AccountId, SponsorshipRecord>, sponsor: AccountId) -> nat {
    sponsored_by(m, sponsor).len()
}

proof fn lemma_adder_commutative(m: Map<AccountId, SponsorshipRecord>)
    ensures
        vstd::set::fold::is_fun_commutative(amount_adder(m)),
{
}

pub proof fn lemma_sum_empty(m: Map<AccountId, SponsorshipRecord>)
    ensures
        sum_amounts(Set::empty(), m) == 0,
{
    vstd::set::fold::lemma_fold_empty(0int, amount_adder(m));
}

pub proof fn lemma_sum_insert(keys: Set<AccountId>, m: Map<AccountId, SponsorshipRecord>, k: AccountId)
    requires
        keys.finite(),
        !keys.contains(k),
    ensures
        sum_amounts(keys.insert(k), m) == sum_amounts(keys, m) + m[k].amount,
{
    lemma_adder_commutative(m);
    lemma_fold_insert(keys, 0int, amount_adder(m), k);
}

pub proof fn lemma_sum_remove(keys: Set<AccountId>, m: Map<AccountId, SponsorshipRecord>, k: AccountId)
    requires
        keys.finite(),
        keys.contains(k),
    ensures
        sum_amounts(keys, m) == sum_amounts(keys.remove(k), m) + m[k].amount,
{
    assert(keys.remove(k).insert(k) =~= keys);
    lemma_sum_insert(keys.remove(k), m, k);
}

/// Sums agree when the amounts agree on the summed keys.
pub proof fn lemma_sum_frame(
    keys: Set<AccountId>,
    m1: Map<AccountId, SponsorshipRecord>,
    m2: Map<AccountId, SponsorshipRecord>,
)
    requires
        keys.finite(),
        forall|k: AccountId| keys.contains(k) ==> m1[k].amount == m2[k].amount,
    ensures
        sum_amounts(keys, m1) == sum_amounts(keys, m2),
    decreases keys.len(),
{
    if keys.len() == 0 {
        assert(keys =~= Set::empty()) by {
            if exists|x: AccountId| keys.contains(x) {
                let x = choose|x: AccountId| keys.contains(x);
                vstd::set::axiom_set_contains_len(keys, x);
            }
        }
        lemma_sum_empty(m1);
        lemma_sum_empty(m2);
    } else {
        let k = keys.choose();
        vstd::set::axiom_set_choose_len(keys);
        lemma_sum_remove(keys, m1, k);
        lemma_sum_remove(keys, m2, k);
        lemma_sum_frame(keys.remove(k), m1, m2);
    }
}

/// A sum is at least each of its terms.
pub proof fn lemma_sum_ge_member(keys: Set<AccountId>, m: Map<AccountId, SponsorshipRecord>, k: AccountId)
    requires
        keys.finite(),
        keys.contains(k),
    ensures
        sum_amounts(keys, m) >= m[k].amount,
{
    lemma_sum_remove(keys, m, k);
    lemma_sum_nonneg(keys.remove(k), m);
}

pub proof fn lemma_sum_nonneg(keys: Set<AccountId>, m: Map<AccountId, SponsorshipRecord>)
    requires
        keys.finite(),
    ensures
        sum_amounts(keys, m) >= 0,
    decreases keys.len(),
{
    if keys.len() == 0 {
        assert(keys =~= Set::empty()) by {
            if exists|x: AccountId| keys.contains(x) {
                let x = choose|x: AccountId| keys.contains(x);
                vstd::set::axiom_set_contains_len(keys, x);
            }
        }
        lemma_sum_empty(m);
    } else {
        let k = keys.choose();
        vstd::set::axiom_set_choose_len(keys);
        lemma_sum_remove(keys, m, k);
        lemma_sum_nonneg(keys.remove(k), m);
    }
}

/// Adding a new sponsorship adds its amount, and one beneficiary, to its
/// sponsor's totals and leaves every other sponsor's totals alone.
pub proof fn lemma_totals_after_insert(
    m: Map<AccountId, SponsorshipRecord>,
    b: AccountId,
    r: SponsorshipRecord,
    s: AccountId,
)
    requires
        m.dom().finite(),
        !m.contains_key(b),
    ensures
        total_sponsored(m.insert(b, r), s) == total_sponsored(m, s) + (if r.sponsor == s { r.amount as int } else { 0 }),
        count_sponsored(m.insert(b, r), s) == count_sponsored(m, s) + (if r.sponsor == s { 1int } else { 0 }),
{
    let m2 = m.insert(b, r);
    let old_set = sponsored_by(m, s);
    let new_set = sponsored_by(m2, s);
    assert(old_set.finite()) by {
        vstd::set_lib::lemma_set_subset_finite(m.dom(), old_set);
    }
    assert(!old_set.contains(b));
    assert forall|k: AccountId| old_set.contains(k) implies m[k].amount == m2[k].amount by {}
    lemma_sum_frame(old_set, m, m2);
    if r.sponsor == s {
        assert(new_set =~= old_set.insert(b));
        lemma_sum_insert(old_set, m2, b);
    } else {
        assert(new_set =~= old_set);
    }
}

/// Removing a sponsorship takes its amount, and one beneficiary, off its
/// sponsor's totals and leaves every other sponsor's totals alone.
pub proof fn lemma_totals_after_remove(m: Map<AccountId, SponsorshipRecord>, b: AccountId, s: AccountId)
    requires
        m.dom().finite(),
        m.contains_key(b),
    ensures
        total_sponsored(m.remove(b), s) == total_sponsored(m, s) - (if m[b].sponsor == s { m[b].amount as int } else { 0 }),
        count_sponsored(m.remove(b), s) == count_sponsored(m, s) - (if m[b].sponsor == s { 1int } else { 0 }),
{
    let m2 = m.remove(b);
    let old_set = sponsored_by(m, s);
    let new_set = sponsored_by(m2, s);
    assert(old_set.finite()) by {
        vstd::set_lib::lemma_set_subset_finite(m.dom(), old_set);
    }
    if m[b].sponsor == s {
        assert(new_set =~= old_set.remove(b));
        lemma_sum_remove(old_set, m, b);
        assert forall|k: AccountId| old_set.remove(b).contains(k) implies m[k].amount == m2[k].amount by {}
        lemma_sum_frame(old_set.remove(b), m, m2);
    } else {
        assert(new_set =~= old_set);
        assert forall|k: AccountId| old_set.contains(k) implies m[k].amount == m2[k].amount by {}
        lemma_sum_frame(old_set, m, m2);
    }
}

/// Replacing a sponsorship by one with the same sponsor and amount leaves all
/// totals alone.
pub proof fn lemma_totals_after_update(
    m: Map<AccountId, SponsorshipRecord>,
    b: AccountId,
    r: SponsorshipRecord,
    s: AccountId,
)
    requires
        m.dom().finite(),
        m.contains_key(b),
        m[b].sponsor == r.sponsor,
        m[b].amount == r.amount,
    ensures
        total_sponsored(m.insert(b, r), s) == total_sponsored(m, s),
        count_sponsored(m.insert(b, r), s) == count_sponsored(m, s),
{
    let m2 = m.insert(b, r);
    let old_set = sponsored_by(m, s);
    assert(old_set.finite()) by {
        vstd::set_lib::lemma_set_subset_finite(m.dom(), old_set);
    }
    assert(sponsored_by(m2, s) =~= old_set);
    assert forall|k: AccountId| old_set.contains(k) implies m[k].amount == m2[k].amount by {}
    lemma_sum_frame(old_set, m, m2);
}

/// A sponsor's total covers each of its sponsorships, and its count is at
/// least one while it has one.
pub proof fn lemma_total_covers_member(m: Map<AccountId, SponsorshipRecord>, b: AccountId)
    requires
        m.dom().finite(),
        m.contains_key(b),
    ensures
        total_sponsored(m, m[b].sponsor) >= m[b].amount,
        count_sponsored(m, m[b].sponsor) >= 1,
{
    let set = sponsored_by(m, m[b].sponsor);
    assert(set.finite()) by {
        vstd::set_lib::lemma_set_subset_finite(m.dom(), set);
    }
    assert(set.contains(b));
    lemma_sum_ge_member(set, m, b);
    vstd::set::axiom_set_contains_len(set, b);
}

} // verus!
