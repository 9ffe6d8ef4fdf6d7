//! Existential sponsorship: a sponsor moves funds onto a hold in a
//! beneficiary's account so that the beneficiary stays alive, and gets them
//! back on unlock, on expiry of a lease, or when an auto-unlock condition
//! is met.
//!
//! The balance operations themselves (transfers, holds, provider counts) are
//! performed by the runtime's currency; the functions here take what the
//! currency reported as plain values and decide everything else.
pub mod types;
pub mod sums;
pub mod pallet;
pub mod laws;
pub mod provider;
