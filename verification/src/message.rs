//! Plain-value model of the ledger's legacy transaction wire objects: an
//! ordered account-key table with signer/read-only counts in the header, a
//! list of compiled (index-based) instructions, and the signature list.

use vstd::prelude::*;

use crate::account::{Address, Blockhash, TxSignature, ADDRESS_LEN, BLOCKHASH_LEN, SIGNATURE_LEN};

verus! {

/// Counts that classify the account-key table: the first
/// `num_required_signatures` keys sign, the last `num_readonly_signed_accounts`
/// of those are read-only, and the last `num_readonly_unsigned_accounts` of
/// the non-signing keys are read-only.
#[derive(Debug, Clone, Copy, PartialEq, Eq, Structural)]
pub struct MessageHeader {
    pub num_required_signatures: u8,
    pub num_readonly_signed_accounts: u8,
    pub num_readonly_unsigned_accounts: u8,
}

/// Ghost mirror of a compiled instruction, over plain sequences.
pub ghost struct CompiledInstructionView {
    pub program_id_index: u8,
    pub accounts: Seq<u8>,
    pub data: Seq<u8>,
}

/// Ghost mirror of a message.
pub ghost struct MessageView {
    pub header: MessageHeader,
    pub account_keys: Seq<Seq<u8>>,
    pub recent_blockhash: Seq<u8>,
    pub instructions: Seq<CompiledInstructionView>,
}

/// Ghost mirror of a transaction.
pub ghost struct TransactionView {
    pub signatures: Seq<Seq<u8>>,
    pub message: MessageView,
}

/// One instruction, with its accounts given as indices into the message's
/// account-key table.
pub struct CompiledInstruction {
    pub program_id_index: u8,
    pub accounts: Vec<u8>,
    pub data: Vec<u8>,
}

impl View for CompiledInstruction {
    type V = CompiledInstructionView;

    open spec fn view(&self) -> CompiledInstructionView {
        CompiledInstructionView {
            program_id_index: self.program_id_index,
            accounts: self.accounts@,
            data: self.data@,
        }
    }
}

impl CompiledInstruction {
    /// Bounded for the wire encoding's length prefixes.
    pub open spec fn wf(&self) -> bool {
        &&& self.accounts@.len() <= 0xFFFF
        &&& self.data@.len() <= 0xFFFF
    }
}

impl Clone for CompiledInstruction {
    fn clone(&self) -> (r: Self)
        ensures
            r.program_id_index == self.program_id_index,
            r.accounts@ == self.accounts@,
            r.data@ == self.data@,
    {
        let mut accounts: Vec<u8> = Vec::new();
        let mut i: usize = 0;
        while i < self.accounts.len()
            invariant
                i <= self.accounts.len(),
                accounts@ =~= self.accounts@.subrange(0, i as int),
            decreases self.accounts.len() - i,
        {
            accounts.push(self.accounts[i]);
            i = i + 1;
        }
        assert(accounts@ =~= self.accounts@);
        let mut data: Vec<u8> = Vec::new();
        let mut j: usize = 0;
        while j < self.data.len()
            invariant
                j <= self.data.len(),
                data@ =~= self.data@.subrange(0, j as int),
            decreases self.data.len() - j,
        {
            data.push(self.data[j]);
            j = j + 1;
        }
        assert(data@ =~= self.data@);
        CompiledInstruction { program_id_index: self.program_id_index, accounts, data }
    }
}

/// A transaction message: header, account-key table, the ledger tip it is
/// valid against, and the compiled instruction list.
pub struct Message {
    pub header: MessageHeader,
    pub account_keys: Vec<Address>,
    pub recent_blockhash: Blockhash,
    pub instructions: Vec<CompiledInstruction>,
}

impl View for Message {
    type V = MessageView;

    open spec fn view(&self) -> MessageView {
        MessageView {
            header: self.header,
            account_keys: self.account_keys@.map_values(|a: Address| a@),
            recent_blockhash: self.recent_blockhash@,
            instructions: self.instructions@.map_values(|c: CompiledInstruction| c@),
        }
    }
}

/// `a - b`, floored at zero, as the wire rules compute it.
pub open spec fn sat_sub(a: int, b: int) -> int {
    if a >= b {
        a - b
    } else {
        0
    }
}

/// Structural well-formedness of a compiled instruction: its lists are
/// short enough for their wire length prefixes.
pub open spec fn wf_instruction_view(c: CompiledInstructionView) -> bool {
    &&& c.accounts.len() <= 0xFFFF
    &&& c.data.len() <= 0xFFFF
}

/// Structural well-formedness of a message: 32-byte keys and hash,
/// classification counts within the table, and instruction indices within
/// the table.
pub open spec fn wf_message_view(m: MessageView) -> bool {
    &&& m.recent_blockhash.len() == BLOCKHASH_LEN
    &&& forall|i: int| 0 <= i < m.account_keys.len() ==> (#[trigger] m.account_keys[i]).len()
        == ADDRESS_LEN
    &&& m.header.num_required_signatures as int <= m.account_keys.len()
    &&& m.header.num_readonly_signed_accounts as int <= m.header.num_required_signatures as int
    &&& m.header.num_readonly_unsigned_accounts as int <= m.account_keys.len()
        - m.header.num_required_signatures as int
    &&& m.account_keys.len() <= 0xFF
    &&& m.instructions.len() <= 0xFFFF
    &&& forall|i: int|
        0 <= i < m.instructions.len() ==> wf_instruction_view(#[trigger] m.instructions[i])
    &&& forall|i: int|
        0 <= i < m.instructions.len() ==> ((#[trigger] m.instructions[i]).program_id_index as int)
            < m.account_keys.len()
    &&& forall|i: int, j: int|
        0 <= i < m.instructions.len() && 0 <= j < m.instructions[i].accounts.len() ==> ((
        #[trigger] m.instructions[i].accounts[j]) as int) < m.account_keys.len()
}

/// Structural well-formedness of a transaction: a well-formed message and
/// one 64-byte signature slot per required signer.
pub open spec fn wf_transaction_view(t: TransactionView) -> bool {
    &&& wf_message_view(t.message)
    &&& t.signatures.len() == t.message.header.num_required_signatures as int
    &&& forall|i: int| 0 <= i < t.signatures.len() ==> (#[trigger] t.signatures[i]).len()
        == SIGNATURE_LEN
}

impl Message {
    /// Structural well-formedness, stated over the message's view.
    pub open spec fn wf(&self) -> bool {
        wf_message_view(self@)
    }

    /// The account at index `i` signs the transaction.
    pub open spec fn spec_is_signer(&self, i: int) -> bool {
        i < self.header.num_required_signatures as int
    }

    /// The account at index `i` falls in a writable region of the table.
    pub open spec fn spec_is_writable_index(&self, i: int) -> bool {
        ||| i < sat_sub(
            self.header.num_required_signatures as int,
            self.header.num_readonly_signed_accounts as int,
        )
        ||| (self.header.num_required_signatures as int <= i && i < sat_sub(
            self.account_keys@.len() as int,
            self.header.num_readonly_unsigned_accounts as int,
        ))
    }

    /// Some instruction names the account at index `i` as its program.
    pub open spec fn spec_is_called_as_program(&self, i: int) -> bool {
        exists|j: int|
            0 <= j < self.instructions@.len() && (#[trigger] self.instructions@[j]).program_id_index
                as int == i
    }

    /// The account at index `i` may be written to: it lies in a writable
    /// region and is demoted to read-only when some instruction calls it as
    /// a program. The ledger waives that demotion when an upgradeable
    /// program loader is among the keys; no transfer transaction carries
    /// one, so the waiver is not modeled.
    pub open spec fn spec_is_writable(&self, i: int) -> bool {
        self.spec_is_writable_index(i) && !self.spec_is_called_as_program(i)
    }

    /// Executable form of `spec_is_signer`.
    pub fn is_signer(&self, i: usize) -> (r: bool)
        ensures
            r == self.spec_is_signer(i as int),
    {
        i < self.header.num_required_signatures as usize
    }

    /// Executable form of `spec_is_writable`.
    pub fn is_writable(&self, i: usize) -> (r: bool)
        ensures
            r == self.spec_is_writable(i as int),
    {
        let req = self.header.num_required_signatures as usize;
        let ro_signed = self.header.num_readonly_signed_accounts as usize;
        let ro_unsigned = self.header.num_readonly_unsigned_accounts as usize;
        let len = self.account_keys.len();
        let in_writable_region = i < req.saturating_sub(ro_signed) || (i >= req && i
            < len.saturating_sub(ro_unsigned));
        if !in_writable_region {
            return false;
        }
        let mut j: usize = 0;
        while j < self.instructions.len()
            invariant
                j <= self.instructions@.len(),
                forall|k: int|
                    0 <= k < j ==> (#[trigger] self.instructions@[k]).program_id_index as int != i
                        as int,
            decreases self.instructions@.len() - j,
        {
            if self.instructions[j].program_id_index as usize == i {
                return false;
            }
            j = j + 1;
        }
        true
    }

}

/// A transaction: one signature slot per required signer, then the message.
pub struct Transaction {
    pub signatures: Vec<TxSignature>,
    pub message: Message,
}

impl View for Transaction {
    type V = TransactionView;

    open spec fn view(&self) -> TransactionView {
        TransactionView {
            signatures: self.signatures@.map_values(|s: TxSignature| s@),
            message: self.message@,
        }
    }
}

impl Transaction {
    /// Structural well-formedness, stated over the transaction's view.
    pub open spec fn wf(&self) -> bool {
        wf_transaction_view(self@)
    }

    /// The fee payer is the first account of the table.
    pub open spec fn spec_fee_payer(&self) -> Seq<u8>
        recommends
            self.message.account_keys@.len() > 0,
    {
        self.message.account_keys@[0]@
    }

    /// The first account of the table funds the transaction's execution.
    pub fn fee_payer(&self) -> (r: Option<&Address>)
        ensures
            self.message.account_keys@.len() > 0 ==> (r matches Some(a) && a@
                == self.spec_fee_payer()),
            self.message.account_keys@.len() == 0 ==> r is None,
    {
        if self.message.account_keys.len() > 0 {
            Some(&self.message.account_keys[0])
        } else {
            None
        }
    }
}

} // verus!
