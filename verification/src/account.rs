//! Accounts as an instruction sees them.

use crate::wire::same_key;
use vstd::prelude::*;

verus! {

/// An account that was supplied to an instruction, as plain values.
#[derive(Clone, Debug)]
pub struct AccountInfo {
    /// The address of the account.
    pub key: [u8; 32],
    /// The program that owns the account.
    pub owner: [u8; 32],
    /// Whether the holder of `key` signed the instruction.
    pub is_signer: bool,
    /// Whether the instruction may change the account.
    pub is_writable: bool,
    /// What the account holds.
    pub data: Vec<u8>,
}

/// A supplied account as plain values.
pub struct AccountInfoView {
    pub key: Seq<u8>,
    pub owner: Seq<u8>,
    pub is_signer: bool,
    pub is_writable: bool,
    pub data: Seq<u8>,
}

/// The address of the system program, which owns every account that is
/// not allocated yet: 32 zero bytes.
pub open spec fn system_program() -> Seq<u8> {
    Seq::new(32, |i: int| 0u8)
}

impl AccountInfoView {
    /// Whether the account is allocated: it holds data, or a program other
    /// than the system program owns it.
    pub open spec fn occupied(self) -> bool {
        self.data.len() > 0 || self.owner != system_program()
    }
}

/// The accounts of an instruction as plain values.
pub open spec fn account_list(accounts: Seq<AccountInfo>) -> Seq<AccountInfoView> {
    Seq::new(accounts.len(), |i: int| accounts[i]@)
}

impl AccountInfo {
    /// The account as plain values.
    pub open spec fn view(&self) -> AccountInfoView {
        AccountInfoView {
            key: self.key@,
            owner: self.owner@,
            is_signer: self.is_signer,
            is_writable: self.is_writable,
            data: self.data@,
        }
    }

    /// An account that is not allocated: no data, owned by the system program.
    pub fn unallocated(key: [u8; 32], is_signer: bool, is_writable: bool) -> (account: AccountInfo)
        ensures
            account@ == (AccountInfoView {
                key: key@,
                owner: system_program(),
                is_signer,
                is_writable,
                data: Seq::<u8>::empty(),
            }),
            !account@.occupied(),
    {
        let owner: [u8; 32] = [0u8; 32];
        assert(owner@ =~= system_program());
        AccountInfo { key, owner, is_signer, is_writable, data: Vec::new() }
    }

    /// Whether the account is allocated.
    pub fn is_occupied(&self) -> (occupied: bool)
        ensures
            occupied == self@.occupied(),
    {
        let system: [u8; 32] = [0u8; 32];
        assert(system@ =~= system_program());
        self.data.len() > 0 || !same_key(&self.owner, &system)
    }
}

} // verus!
