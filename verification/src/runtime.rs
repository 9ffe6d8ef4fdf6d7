//! Runtime-level decisions: where ISMP requests are routed and the account
//! of the asset administrator.
use vstd::prelude::*;
use crate::origin::{modl, pallet_account_32};

verus! {

/// The pallet id of the asset administrator.
pub open spec fn asset_admin_pallet_id() -> Seq<u8> {
    seq![0x74u8, 0x67u8, 0x61u8, 0x64u8, 0x6du8, 0x69u8, 0x6eu8, 0x21u8]
}

/// The account that administers assets created through the token
/// gateway.
pub struct AssetAdmin;

impl AssetAdmin {
    /// The 32-byte account of the pallet id `b"tgadmin!"`.
    pub fn get() -> (a: Vec<u8>)
        ensures
            a@ == modl() + asset_admin_pallet_id() + Seq::new(20, |i: int| 0u8),
            a@.len() == 32,
    {
        let id: [u8; 8] = [0x74, 0x67, 0x61, 0x64, 0x6d, 0x69, 0x6e, 0x21];
        proof {
            assert(id@ =~= asset_admin_pallet_id());
        }
        pallet_account_32(id)
    }
}

/// The ISMP modules of the runtime.
#[derive(Clone, Copy, Debug, PartialEq, Eq, Structural)]
pub enum IsmpModuleKind {
    Hyperbridge,
    HyperFungibleToken,
    TokenGateway,
}

/// No module answers to the id; the error carries the id.
#[derive(Clone, Debug, PartialEq, Eq)]
pub struct ModuleNotFound {
    pub id: Vec<u8>,
}

/// Routes an incoming ISMP message by module id.
pub struct Router;

impl Router {
    /// Picks the module for the id `bytes`, given whether it is the
    /// Hyperbridge pallet's id, one of the hyper-fungible-token module's,
    /// or one of the token gateway's. The checks run in that order; an id
    /// no module answers to is reported back in the error.
    pub fn module_for_id(
        bytes: Vec<u8>,
        is_hyperbridge: bool,
        is_hyper_fungible_token: bool,
        is_token_gateway: bool,
    ) -> (r: Result<IsmpModuleKind, ModuleNotFound>)
        ensures
            match r {
                Ok(kind) => kind == (if is_hyperbridge {
                    IsmpModuleKind::Hyperbridge
                } else if is_hyper_fungible_token {
                    IsmpModuleKind::HyperFungibleToken
                } else {
                    IsmpModuleKind::TokenGateway
                }),
                Err(e) => e.id@ == bytes@,
            },
            r is Ok <==> (is_hyperbridge || is_hyper_fungible_token || is_token_gateway),
    {
        if is_hyperbridge {
            Ok(IsmpModuleKind::Hyperbridge)
        } else if is_hyper_fungible_token {
            Ok(IsmpModuleKind::HyperFungibleToken)
        } else if is_token_gateway {
            Ok(IsmpModuleKind::TokenGateway)
        } else {
            Err(ModuleNotFound { id: bytes })
        }
    }
}

} // verus!
