use vstd::prelude::*;

use crate::identity::Identity;

verus! {

/// One account handle of a request, as the host ledger presents it: an
/// identity, whether that identity signed this request, the identity of the
/// owning program, the held balance, and the raw data buffer.
#[derive(Debug)]
pub struct Account {
    pub key: Identity,
    pub is_signer: bool,
    pub owner: Identity,
    pub lamports: u64,
    pub data: Vec<u8>,
}

/// The mathematical model of an account handle.
pub struct AccountV {
    pub key: Seq<u8>,
    pub is_signer: bool,
    pub owner: Seq<u8>,
    pub lamports: u64,
    pub data: Seq<u8>,
}

impl View for Account {
    type V = AccountV;

    open spec fn view(&self) -> AccountV {
        AccountV {
            key: self.key@,
            is_signer: self.is_signer,
            owner: self.owner@,
            lamports: self.lamports,
            data: self.data@,
        }
    }
}

impl Account {
    /// An account handle is well formed when its identities have the fixed
    /// width.
    pub open spec fn wf(&self) -> bool {
        self.key.wf() && self.owner.wf()
    }
}

/// The views of a whole account list.
pub open spec fn views_of(s: Seq<Account>) -> Seq<AccountV> {
    s.map_values(|a: Account| a@)
}

} // verus!
