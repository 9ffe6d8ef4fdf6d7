//! Verified core logic of the Nulo chain pallets.
use vstd::prelude::*;

pub mod weights;
pub mod seq_util;
pub mod origin;
pub mod existential_sponsorship;
pub mod gas_transaction_payment;
pub mod prepaid_gas;
pub mod hyper_fungible_token;
pub mod runtime;

verus! {

} // verus!
