//! Who a call comes from, and how account ids of pallets are derived.
use vstd::prelude::*;

verus! {

/// The origin of a call.
#[derive(Clone, Copy, Debug, PartialEq, Eq, Structural)]
pub enum Origin {
    Root,
    Signed(u64),
    Unsigned,
}

/// The little-endian value of eight bytes.
pub open spec fn le_u64(b: Seq<u8>) -> int {
    b[0] + 0x100 * b[1] + 0x1_0000 * b[2] + 0x100_0000 * b[3] + 0x1_0000_0000 * b[4]
        + 0x100_0000_0000 * b[5] + 0x1_0000_0000_0000 * b[6] + 0x100_0000_0000_0000 * b[7]
}

/// The prefix of the account of a pallet id: `b"modl"`.
pub open spec fn modl() -> Seq<u8> {
    seq![0x6du8, 0x6fu8, 0x64u8, 0x6cu8]
}

/// The 8-byte account of a pallet: the first eight bytes of `b"modl"`
/// followed by the pallet id, read little-endian.
pub fn pallet_account_u64(id: [u8; 8]) -> (a: u64)
    ensures
        a == le_u64(modl() + id@.take(4)),
{
    let a: u64 = 0x6d + 0x100 * 0x6f + 0x1_0000 * 0x64 + 0x100_0000 * 0x6c + 0x1_0000_0000 * (id[0] as u64)
        + 0x100_0000_0000 * (id[1] as u64) + 0x1_0000_0000_0000 * (id[2] as u64)
        + 0x100_0000_0000_0000 * (id[3] as u64);
    proof {
        let s = modl() + id@.take(4);
        assert(s[4] == id[0] && s[5] == id[1] && s[6] == id[2] && s[7] == id[3]);
        assert(s[0] == 0x6d && s[1] == 0x6f && s[2] == 0x64 && s[3] == 0x6c);
    }
    a
}

/// The 32-byte account of a pallet: `b"modl"`, the pallet id, then zeros.
pub fn pallet_account_32(id: [u8; 8]) -> (a: Vec<u8>)
    ensures
        a@ == modl() + id@ + Seq::new(20, |i: int| 0u8),
{
    let mut a: Vec<u8> = Vec::new();
    a.push(0x6d);
    a.push(0x6f);
    a.push(0x64);
    a.push(0x6c);
    let mut i: usize = 0;
    while i < 8
        invariant
            i <= 8,
            a@ == modl() + id@.take(i as int),
        decreases 8 - i,
    {
        a.push(id[i]);
        i = i + 1;
        proof {
            assert(a@ =~= modl() + id@.take(i as int));
        }
    }
    let mut k: usize = 0;
    while k < 20
        invariant
            k <= 20,
            a@ == modl() + id@ + Seq::new(k as nat, |i: int| 0u8),
        decreases 20 - k,
    {
        proof {
            assert(id@.take(8) =~= id@);
        }
        a.push(0);
        k = k + 1;
        proof {
            assert(a@ =~= modl() + id@ + Seq::new(k as nat, |i: int| 0u8));
        }
    }
    a
}

} // verus!
