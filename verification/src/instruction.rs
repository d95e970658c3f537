//! Resolved (address-based) form of a compiled instruction, and the
//! normalized transfer data drawn from one.

use vstd::prelude::*;

use crate::account::Address;

verus! {

/// One referenced account with its resolved roles.
pub struct AccountRef {
    pub pubkey: Address,
    pub is_signer: bool,
    pub is_writable: bool,
}

impl Clone for AccountRef {
    fn clone(&self) -> (r: Self)
        ensures
            r.pubkey@ == self.pubkey@,
            r.is_signer == self.is_signer,
            r.is_writable == self.is_writable,
    {
        AccountRef {
            pubkey: self.pubkey.clone(),
            is_signer: self.is_signer,
            is_writable: self.is_writable,
        }
    }
}

/// An instruction with its account references resolved to addresses.
pub struct Instruction {
    pub program_id: Address,
    pub accounts: Vec<AccountRef>,
    pub data: Vec<u8>,
}

/// The normalized payload of a decoded transfer instruction.
pub struct TransferInstructionData {
    pub source: Address,
    pub destination: Address,
    pub authority: Address,
    pub mint: Option<Address>,
}

} // verus!
