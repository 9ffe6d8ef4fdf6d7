//! Two-dimensional execution weights and the weight tables of the pallets.
use vstd::prelude::*;

verus! {

/// An amount of execution resources: reference time and proof size.
#[derive(Clone, Copy, Debug, PartialEq, Eq, Structural)]
pub struct Weight {
    pub ref_time: u64,
    pub proof_size: u64,
}

/// `a + b`, clamped at `u64::MAX`.
pub open spec fn sat_add(a: u64, b: u64) -> u64 {
    if a + b > u64::MAX { u64::MAX } else { (a + b) as u64 }
}

/// `a * b`, clamped at `u64::MAX`.
pub open spec fn sat_mul(a: u64, b: u64) -> u64 {
    if a * b > u64::MAX { u64::MAX } else { (a * b) as u64 }
}

pub fn mul_sat(a: u64, b: u64) -> (r: u64)
    ensures
        r == sat_mul(a, b),
{
    match a.checked_mul(b) {
        Some(p) => p,
        None => u64::MAX,
    }
}

/// The weight with the given components.
pub open spec fn weight(ref_time: u64, proof_size: u64) -> Weight {
    Weight { ref_time, proof_size }
}

/// Component-wise saturating sum.
pub open spec fn add_spec(a: Weight, b: Weight) -> Weight {
    weight(sat_add(a.ref_time, b.ref_time), sat_add(a.proof_size, b.proof_size))
}

/// Component-wise saturating product with a scalar.
pub open spec fn scale_spec(a: Weight, n: u64) -> Weight {
    weight(sat_mul(a.ref_time, n), sat_mul(a.proof_size, n))
}

impl Weight {
    pub fn from_parts(ref_time: u64, proof_size: u64) -> (w: Weight)
        ensures
            w == weight(ref_time, proof_size),
    {
        Weight { ref_time, proof_size }
    }

    /// Component-wise saturating sum.
    pub fn saturating_add(self, other: Weight) -> (w: Weight)
        ensures
            w == add_spec(self, other),
    {
        Weight {
            ref_time: self.ref_time.saturating_add(other.ref_time),
            proof_size: self.proof_size.saturating_add(other.proof_size),
        }
    }

    /// Component-wise saturating product with a scalar.
    pub fn saturating_mul(self, n: u64) -> (w: Weight)
        ensures
            w == scale_spec(self, n),
    {
        Weight { ref_time: mul_sat(self.ref_time, n), proof_size: mul_sat(self.proof_size, n) }
    }
}

/// The reference time of one database read and of one write.
#[derive(Clone, Copy, Debug, PartialEq, Eq, Structural)]
pub struct RuntimeDbWeight {
    pub read: u64,
    pub write: u64,
}

/// The database weights of RocksDB: a read costs 25 µs, a write 100 µs.
pub open spec fn rocks_db_weight() -> RuntimeDbWeight {
    RuntimeDbWeight { read: 25_000_000, write: 100_000_000 }
}

pub fn rocks_db() -> (w: RuntimeDbWeight)
    ensures
        w == rocks_db_weight(),
{
    RuntimeDbWeight { read: 25_000_000, write: 100_000_000 }
}

pub open spec fn reads_spec(db: RuntimeDbWeight, r: u64) -> Weight {
    weight(sat_mul(db.read, r), 0)
}

pub open spec fn writes_spec(db: RuntimeDbWeight, w: u64) -> Weight {
    weight(sat_mul(db.write, w), 0)
}

pub open spec fn reads_writes_spec(db: RuntimeDbWeight, r: u64, w: u64) -> Weight {
    weight(sat_add(sat_mul(db.read, r), sat_mul(db.write, w)), 0)
}

impl RuntimeDbWeight {
    /// The weight of `r` reads.
    pub fn reads(self, r: u64) -> (w: Weight)
        ensures
            w == reads_spec(self, r),
    {
        Weight::from_parts(mul_sat(self.read, r), 0)
    }

    /// The weight of `w` writes.
    pub fn writes(self, w: u64) -> (x: Weight)
        ensures
            x == writes_spec(self, w),
    {
        Weight::from_parts(mul_sat(self.write, w), 0)
    }

    /// The weight of `r` reads and `w` writes.
    pub fn reads_writes(self, r: u64, w: u64) -> (x: Weight)
        ensures
            x == reads_writes_spec(self, r, w),
    {
        Weight::from_parts(mul_sat(self.read, r).saturating_add(mul_sat(self.write, w)), 0)
    }
}

/// A fixed cost plus database reads and writes.
pub open spec fn base_with_io(ref_time: u64, proof_size: u64, db: RuntimeDbWeight, r: u64, w: u64) -> Weight {
    add_spec(add_spec(weight(ref_time, proof_size), reads_spec(db, r)), writes_spec(db, w))
}

/// A per-item cost, times the number of items, plus one read and one write
/// per item.
pub open spec fn per_item(ref_time: u64, proof_size: u64, db: RuntimeDbWeight, items: u32) -> Weight {
    add_spec(scale_spec(weight(ref_time, proof_size), items as u64), reads_writes_spec(db, items as u64, items as u64))
}

/// The weights of the sponsorship pallet's calls and hooks, for a database
/// with the weights `db`.
pub struct SponsorshipWeights {
    pub db: RuntimeDbWeight,
}

impl SponsorshipWeights {
    pub fn sponsor(&self) -> (w: Weight)
        ensures
            w == base_with_io(45_000_000, 4_000, self.db, 5, 6),
    {
        Weight::from_parts(45_000_000, 4_000).saturating_add(self.db.reads(5)).saturating_add(self.db.writes(6))
    }

    pub fn sponsor_minimum(&self) -> (w: Weight)
        ensures
            w == base_with_io(45_000_000, 4_000, self.db, 5, 6),
    {
        self.sponsor()
    }

    pub fn unlock(&self) -> (w: Weight)
        ensures
            w == base_with_io(35_000_000, 3_500, self.db, 4, 6),
    {
        Weight::from_parts(35_000_000, 3_500).saturating_add(self.db.reads(4)).saturating_add(self.db.writes(6))
    }

    pub fn set_policy(&self) -> (w: Weight)
        ensures
            w == base_with_io(20_000_000, 2_000, self.db, 2, 4),
    {
        Weight::from_parts(20_000_000, 2_000).saturating_add(self.db.reads(2)).saturating_add(self.db.writes(4))
    }

    pub fn force_unlock(&self) -> (w: Weight)
        ensures
            w == base_with_io(35_000_000, 3_500, self.db, 4, 6),
    {
        self.unlock()
    }

    pub fn refresh(&self) -> (w: Weight)
        ensures
            w == base_with_io(18_000_000, 2_000, self.db, 2, 3),
    {
        Weight::from_parts(18_000_000, 2_000).saturating_add(self.db.reads(2)).saturating_add(self.db.writes(3))
    }

    pub fn on_initialize_process_auto_unlock(&self, items: u32) -> (w: Weight)
        ensures
            w == per_item(7_000_000, 1_000, self.db, items),
    {
        Weight::from_parts(7_000_000, 1_000).saturating_mul(items as u64).saturating_add(
            self.db.reads_writes(items as u64, items as u64),
        )
    }

    pub fn on_initialize_process_expiries(&self, items: u32) -> (w: Weight)
        ensures
            w == per_item(6_000_000, 1_000, self.db, items),
    {
        Weight::from_parts(6_000_000, 1_000).saturating_mul(items as u64).saturating_add(
            self.db.reads_writes(items as u64, items as u64),
        )
    }

    /// The weight of the block-initialization hook: the expiries processed
    /// plus the auto-unlock checks processed.
    pub fn on_initialize(&self, expiries: u32, auto_unlocks: u32) -> (w: Weight)
        ensures
            w == add_spec(per_item(6_000_000, 1_000, self.db, expiries), per_item(7_000_000, 1_000, self.db, auto_unlocks)),
    {
        self.on_initialize_process_expiries(expiries).saturating_add(self.on_initialize_process_auto_unlock(auto_unlocks))
    }
}

/// The weight of charging a transaction's fee.
pub fn charge_transaction_payment(db: RuntimeDbWeight) -> (w: Weight)
    ensures
        w == add_spec(weight(5_000_000, 0), reads_spec(db, 1)),
{
    Weight::from_parts(5_000_000, 0).saturating_add(db.reads(1))
}

/// The weights of the hyper-fungible-token calls: a flat cost each.
pub fn hft_send() -> (w: Weight)
    ensures
        w == weight(100_000_000, 0),
{
    Weight::from_parts(100_000_000, 0)
}

pub fn hft_register_token(_chains: u32) -> (w: Weight)
    ensures
        w == weight(100_000_000, 0),
{
    Weight::from_parts(100_000_000, 0)
}

pub fn hft_update_token(_chains: u32) -> (w: Weight)
    ensures
        w == weight(100_000_000, 0),
{
    Weight::from_parts(100_000_000, 0)
}

/// The weights of the ISMP parachain pallet's calls in the runtime, for a
/// database with the weights `db`.
pub struct IsmpParachainWeightInfo {
    pub db: RuntimeDbWeight,
}

impl IsmpParachainWeightInfo {
    /// Adding `n` parachains.
    pub fn add_parachain(&self, n: u32) -> (w: Weight)
        ensures
            w == add_spec(
                add_spec(weight(25_000_000, 0), scale_spec(weight(15_000_000, 0), n as u64)),
                reads_writes_spec(self.db, (2 + 2 * n) as u64, (2 + 2 * n) as u64),
            ),
    {
        let io: u64 = 2 + 2 * (n as u64);
        Weight::from_parts(25_000_000, 0)
            .saturating_add(Weight::from_parts(15_000_000, 0).saturating_mul(n as u64))
            .saturating_add(self.db.reads_writes(io, io))
    }

    /// Removing `n` parachains.
    pub fn remove_parachain(&self, n: u32) -> (w: Weight)
        ensures
            w == add_spec(
                add_spec(weight(15_000_000, 0), scale_spec(weight(5_000_000, 0), n as u64)),
                reads_writes_spec(self.db, 1, n as u64),
            ),
    {
        Weight::from_parts(15_000_000, 0)
            .saturating_add(Weight::from_parts(5_000_000, 0).saturating_mul(n as u64))
            .saturating_add(self.db.reads_writes(1, n as u64))
    }

    pub fn update_parachain_consensus(&self) -> (w: Weight)
        ensures
            w == add_spec(weight(25_000_000, 0), reads_writes_spec(self.db, 2, 2)),
    {
        Weight::from_parts(25_000_000, 0).saturating_add(self.db.reads_writes(2, 2))
    }
}

/// Weights never shrink by adding more: each component of a saturating sum
/// is at least that of either term.
pub proof fn law_weight_sum_monotone(a: Weight, b: Weight)
    ensures
        add_spec(a, b).ref_time >= a.ref_time,
        add_spec(a, b).ref_time >= b.ref_time,
        add_spec(a, b).proof_size >= a.proof_size,
        add_spec(a, b).proof_size >= b.proof_size,
{
}

/// The hook's weight grows with the number of items processed.
pub proof fn law_per_item_monotone(ref_time: u64, proof_size: u64, db: RuntimeDbWeight, m: u32, n: u32)
    requires
        m <= n,
    ensures
        per_item(ref_time, proof_size, db, m).ref_time <= per_item(ref_time, proof_size, db, n).ref_time,
        per_item(ref_time, proof_size, db, m).proof_size <= per_item(ref_time, proof_size, db, n).proof_size,
{
    assert(ref_time * m <= ref_time * n) by (nonlinear_arith)
        requires m <= n;
    assert(proof_size * m <= proof_size * n) by (nonlinear_arith)
        requires m <= n;
    assert(db.read * m <= db.read * n) by (nonlinear_arith)
        requires m <= n;
    assert(db.write * m <= db.write * n) by (nonlinear_arith)
        requires m <= n;
}

} // verus!
