//! Account conversion of the hyper-fungible-token pallet.
use vstd::prelude::*;

verus! {

/// The 32-byte account of an EVM address: twelve zero bytes, then the
/// twenty bytes of the address.
pub open spec fn evm_account(addr: Seq<u8>) -> Seq<u8> {
    Seq::new(12, |i: int| 0u8) + addr
}

/// How an EVM address becomes an account id on this chain. A runtime picks
/// the conversion; `()` is the standard one.
pub trait EvmToSubstrate {
    fn convert(addr: [u8; 20]) -> (account: Vec<u8>);
}

impl EvmToSubstrate for () {
    /// Pads the address with twelve leading zero bytes.
    fn convert(addr: [u8; 20]) -> (account: Vec<u8>)
        ensures
            account@ == evm_account(addr@),
            account@.len() == 32,
    {
        let mut account: Vec<u8> = Vec::new();
        let mut i: usize = 0;
        while i < 12
            invariant
                i <= 12,
                account@ == Seq::new(i as nat, |k: int| 0u8),
            decreases 12 - i,
        {
            account.push(0);
            i = i + 1;
            proof {
                assert(account@ =~= Seq::new(i as nat, |k: int| 0u8));
            }
        }
        let mut j: usize = 0;
        while j < 20
            invariant
                j <= 20,
                account@ == Seq::new(12, |k: int| 0u8) + addr@.take(j as int),
            decreases 20 - j,
        {
            account.push(addr[j]);
            j = j + 1;
            proof {
                assert(account@ =~= Seq::new(12, |k: int| 0u8) + addr@.take(j as int));
            }
        }
        proof {
            assert(addr@.take(20) =~= addr@);
        }
        account
    }
}

} // verus!
