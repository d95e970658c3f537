//! Reconciliation of a pending transfer against the ledger: resolving
//! compiled instructions, decoding the transfer family, the ordered
//! validation of a located transaction, and the decisions of the bounded
//! search and poll loops.

use vstd::prelude::*;

use crate::account::{Address, TxSignature};
use crate::errors::{MathErrorType, ServiceError, Web3ErrorType};
use crate::instruction::{AccountRef, Instruction, TransferInstructionData};
use crate::message::{CompiledInstruction, CompiledInstructionView, Message, MessageView,
    Transaction, TransactionView};
use crate::token_instruction::{parse_token_instruction, TokenInstructionData};
use crate::trusted::ata_of;

verus! {

/// Execution metadata of a located ledger transaction: the failure flag
/// and the account balances before and after execution, indexed like the
/// account table.
pub struct TxStatusMeta {
    pub err: bool,
    pub pre_balances: Vec<u64>,
    pub post_balances: Vec<u64>,
}

/// Ghost mirror of the metadata.
pub ghost struct TxStatusMetaView {
    pub err: bool,
    pub pre_balances: Seq<u64>,
    pub post_balances: Seq<u64>,
}

impl View for TxStatusMeta {
    type V = TxStatusMetaView;

    open spec fn view(&self) -> TxStatusMetaView {
        TxStatusMetaView {
            err: self.err,
            pre_balances: self.pre_balances@,
            post_balances: self.post_balances@,
        }
    }
}

/// The balance listed at `i`, taken as zero where the list is shorter.
pub open spec fn balance_at(balances: Seq<u64>, i: int) -> u64 {
    if 0 <= i < balances.len() {
        balances[i]
    } else {
        0
    }
}

/// The address that account `j` of compiled instruction `c` resolves to.
pub open spec fn resolved_account(m: MessageView, c: CompiledInstructionView, j: int) -> Seq<u8> {
    m.account_keys[c.accounts[j] as int]
}

/// `i` is the first account of `accs` holding `target`.
pub open spec fn first_account_match(accs: Seq<AccountRef>, target: Seq<u8>, i: int) -> bool {
    &&& 0 <= i < accs.len()
    &&& accs[i].pubkey@ == target
    &&& forall|k: int| 0 <= k < i ==> (#[trigger] accs[k]).pubkey@ != target
}

/// `i` is the first account of compiled instruction `c` resolving to
/// `target`.
pub open spec fn first_resolved_match(
    m: MessageView,
    c: CompiledInstructionView,
    target: Seq<u8>,
    i: int,
) -> bool {
    &&& 0 <= i < c.accounts.len()
    &&& resolved_account(m, c, i) == target
    &&& forall|k: int| 0 <= k < i ==> resolved_account(m, c, k) != target
}

/// The shape checks on the last instruction of a located transaction: the
/// receiver's token sub-account is referenced, the payload is a transfer
/// variant with its bound accounts present, and the reference tag stands
/// among the trailing accounts.
pub open spec fn spl_transfer_shape_ok(
    m: MessageView,
    c: CompiledInstructionView,
    receipt: Seq<u8>,
    mint: Seq<u8>,
    reference: Seq<u8>,
) -> bool {
    &&& exists|i: int| first_resolved_match(m, c, ata_of(receipt, mint), i)
    &&& parse_token_instruction(c.data) is Some
    &&& c.accounts.len() >= transfer_accounts_needed(parse_token_instruction(c.data).unwrap())
    &&& exists|j: int|
        transfer_accounts_needed(parse_token_instruction(c.data).unwrap()) <= j < c.accounts.len()
            && resolved_account(m, c, j) == reference
}

/// The balance gained by the receiver's token sub-account (listed at its
/// first match) covers the expected amount.
pub open spec fn balance_delta_ok(
    m: MessageView,
    c: CompiledInstructionView,
    meta: TxStatusMetaView,
    receipt: Seq<u8>,
    mint: Seq<u8>,
    amount: u64,
) -> bool {
    exists|i: int|
        first_resolved_match(m, c, ata_of(receipt, mint), i) && balance_at(meta.post_balances, i)
            >= balance_at(meta.pre_balances, i) && balance_at(meta.post_balances, i) - balance_at(
            meta.pre_balances,
            i,
        ) >= amount
}

/// All ordered checks on a located transaction: the fee payer is the
/// operator, the last instruction is a transfer of the expected shape, and
/// the receiver sub-account's balance delta covers the amount.
pub open spec fn transfer_valid(
    t: TransactionView,
    meta: TxStatusMetaView,
    payer: Seq<u8>,
    receipt: Seq<u8>,
    mint: Seq<u8>,
    reference: Seq<u8>,
    amount: u64,
) -> bool {
    &&& t.message.account_keys.len() > 0
    &&& t.message.account_keys[0] == payer
    &&& t.message.instructions.len() > 0
    &&& spl_transfer_shape_ok(t.message, t.message.instructions.last(), receipt, mint, reference)
    &&& balance_delta_ok(t.message, t.message.instructions.last(), meta, receipt, mint, amount)
}

/// The reconciliation engine; one run resolves one transfer.
pub struct Indexer;

/// How many accounts a transfer variant binds before its trailing
/// (reference-carrying) accounts begin.
pub open spec fn transfer_accounts_needed(ix: TokenInstructionData) -> int {
    match ix {
        TokenInstructionData::Transfer { .. } => 3,
        TokenInstructionData::TransferChecked { .. } => 4,
    }
}

impl Indexer {
    /// Resolves a compiled instruction against the message's account
    /// table: each index becomes an address with its signer and writable
    /// roles. Fails exactly when an index (program or account) is out of
    /// the table.
    pub fn decompile_instruction(compiled: &CompiledInstruction, message: &Message) -> (r: Result<
        Instruction,
        ServiceError,
    >)
        ensures
            r is Ok <==> ((compiled.program_id_index as int) < message.account_keys@.len() && (
            forall|j: int|
                0 <= j < compiled.accounts@.len() ==> ((#[trigger] compiled.accounts@[j]) as int)
                    < message.account_keys@.len())),
            r matches Ok(ix) ==> ix.program_id@ == message.account_keys@[compiled.program_id_index as int]@
                && ix.data@ == compiled.data@ && ix.accounts@.len() == compiled.accounts@.len() && (
            forall|j: int|
                0 <= j < compiled.accounts@.len() ==> (#[trigger] ix.accounts@[j]).pubkey@
                    == message.account_keys@[compiled.accounts@[j] as int]@ && ix.accounts@[j].is_signer
                    == message.spec_is_signer(compiled.accounts@[j] as int)
                    && ix.accounts@[j].is_writable == message.spec_is_writable(
                    compiled.accounts@[j] as int,
                )),
    {
        let nkeys = message.account_keys.len();
        if compiled.program_id_index as usize >= nkeys {
            return Err(
                ServiceError::Web3Error(
                    Web3ErrorType::ValidateTransferError(
                        String::from_str("Invalid account index"),
                    ),
                ),
            );
        }
        let mut accounts: Vec<AccountRef> = Vec::new();
        let n = compiled.accounts.len();
        let mut j: usize = 0;
        while j < n
            invariant
                n == compiled.accounts@.len(),
                j <= n,
                nkeys == message.account_keys@.len(),
                accounts@.len() == j,
                forall|k: int|
                    0 <= k < j ==> ((#[trigger] compiled.accounts@[k]) as int)
                        < message.account_keys@.len(),
                forall|k: int|
                    0 <= k < j ==> (#[trigger] accounts@[k]).pubkey@
                        == message.account_keys@[compiled.accounts@[k] as int]@ && accounts@[k].is_signer
                        == message.spec_is_signer(compiled.accounts@[k] as int)
                        && accounts@[k].is_writable == message.spec_is_writable(
                        compiled.accounts@[k] as int,
                    ),
            decreases n - j,
        {
            let idx = compiled.accounts[j] as usize;
            if idx >= nkeys {
                return Err(
                    ServiceError::Web3Error(
                        Web3ErrorType::ValidateTransferError(
                            String::from_str("Invalid account index"),
                        ),
                    ),
                );
            }
            let is_signer = message.is_signer(idx);
            let is_writable = message.is_writable(idx);
            accounts.push(
                AccountRef { pubkey: message.account_keys[idx].clone(), is_signer, is_writable },
            );
            j = j + 1;
        }
        let mut data: Vec<u8> = Vec::new();
        crate::codec::push_bytes(&mut data, &compiled.data);
        Ok(
            Instruction {
                program_id: message.account_keys[compiled.program_id_index as usize].clone(),
                accounts,
                data,
            },
        )
    }

    /// Decodes a resolved instruction into the normalized transfer data,
    /// its trailing accounts and the amount. Any shape but the two
    /// transfer variants is unsupported; a variant without its bound
    /// accounts is invalid.
    pub fn decode_transfer_instruction_data(instruction: &Instruction) -> (r: Result<
        (TransferInstructionData, Vec<AccountRef>, u64),
        ServiceError,
    >)
        ensures
            r is Ok <==> (parse_token_instruction(instruction.data@) matches Some(ix)
                && instruction.accounts@.len() >= transfer_accounts_needed(ix)),
            parse_token_instruction(instruction.data@) is None ==> r matches Err(
                ServiceError::Web3Error(Web3ErrorType::UnsupportedInstruction),
            ),
            r matches Ok((d, rem, amount)) ==> (parse_token_instruction(instruction.data@)
                matches Some(ix) && {
                let needed = transfer_accounts_needed(ix);
                &&& amount == ix.amount()
                &&& d.source@ == instruction.accounts@[0].pubkey@
                &&& (match ix {
                    TokenInstructionData::Transfer { .. } => d.destination@
                        == instruction.accounts@[1].pubkey@ && d.authority@
                        == instruction.accounts@[2].pubkey@ && d.mint is None,
                    TokenInstructionData::TransferChecked { .. } => d.destination@
                        == instruction.accounts@[2].pubkey@ && d.authority@
                        == instruction.accounts@[3].pubkey@ && (d.mint matches Some(m) && m@
                        == instruction.accounts@[1].pubkey@),
                })
                &&& rem@.len() == instruction.accounts@.len() - needed
                &&& (forall|k: int|
                    0 <= k < rem@.len() ==> (#[trigger] rem@[k]).pubkey@
                        == instruction.accounts@[needed + k].pubkey@)
            }),
    {
        let parsed = match TokenInstructionData::unpack(&instruction.data) {
            Ok(ix) => ix,
            Err(e) => {
                return Err(e);
            },
        };
        let needed: usize = match parsed {
            TokenInstructionData::Transfer { .. } => 3,
            TokenInstructionData::TransferChecked { .. } => 4,
        };
        if instruction.accounts.len() < needed {
            return Err(
                ServiceError::Web3Error(
                    Web3ErrorType::ValidateTransferError(String::from_str("Invalid transfer")),
                ),
            );
        }
        let (data, amount) = match parsed {
            TokenInstructionData::Transfer { amount } => {
                (
                    TransferInstructionData {
                        source: instruction.accounts[0].pubkey.clone(),
                        destination: instruction.accounts[1].pubkey.clone(),
                        authority: instruction.accounts[2].pubkey.clone(),
                        mint: None,
                    },
                    amount,
                )
            },
            TokenInstructionData::TransferChecked { amount, .. } => {
                (
                    TransferInstructionData {
                        source: instruction.accounts[0].pubkey.clone(),
                        destination: instruction.accounts[2].pubkey.clone(),
                        authority: instruction.accounts[3].pubkey.clone(),
                        mint: Some(instruction.accounts[1].pubkey.clone()),
                    },
                    amount,
                )
            },
        };
        let mut remaining: Vec<AccountRef> = Vec::new();
        let n = instruction.accounts.len();
        let mut k: usize = needed;
        while k < n
            invariant
                needed <= k <= n,
                n == instruction.accounts@.len(),
                remaining@.len() == k - needed,
                forall|m: int|
                    0 <= m < remaining@.len() ==> (#[trigger] remaining@[m]).pubkey@
                        == instruction.accounts@[needed + m].pubkey@,
            decreases n - k,
        {
            remaining.push(instruction.accounts[k].clone());
            k = k + 1;
        }
        Ok((data, remaining, amount))
    }

    /// The first account of the list holding the target address, if any.
    fn position_of_account(accounts: &Vec<AccountRef>, target: &Address) -> (r: Option<usize>)
        ensures
            r matches Some(i) ==> first_account_match(accounts@, target@, i as int),
            r is None <==> forall|k: int|
                0 <= k < accounts@.len() ==> (#[trigger] accounts@[k]).pubkey@ != target@,
    {
        let n = accounts.len();
        let mut i: usize = 0;
        while i < n
            invariant
                n == accounts@.len(),
                i <= n,
                forall|k: int| 0 <= k < i ==> (#[trigger] accounts@[k]).pubkey@ != target@,
            decreases n - i,
        {
            if accounts[i].pubkey.eq_address(target) {
                return Some(i);
            }
            i = i + 1;
        }
        None
    }

    /// The four positional checks of a transfer instruction: the
    /// receiver's token sub-account is referenced, the payload decodes to
    /// a transfer variant, the reference tag stands among the trailing
    /// accounts, and the sub-account's listed balances (zero where the
    /// lists are shorter) are handed back for the delta check.
    pub fn validate_spl_transfer(
        instruction: &Instruction,
        meta: &TxStatusMeta,
        receipt: &Address,
        mint: &Address,
        reference: &Address,
    ) -> (r: Result<(u64, u64), ServiceError>)
        requires
            receipt.wf(),
            mint.wf(),
        ensures
            r is Ok <==> ((exists|i: int|
                first_account_match(instruction.accounts@, ata_of(receipt@, mint@), i)) && (
            parse_token_instruction(instruction.data@) matches Some(ix)
                && instruction.accounts@.len() >= transfer_accounts_needed(ix)) && (exists|j: int|
                transfer_accounts_needed(parse_token_instruction(instruction.data@).unwrap()) <= j
                    < instruction.accounts@.len() && (#[trigger] instruction.accounts@[j]).pubkey@
                    == reference@)),
            r matches Ok((pre, post)) ==> exists|i: int|
                #[trigger] first_account_match(instruction.accounts@, ata_of(receipt@, mint@), i)
                    && pre == balance_at(meta.pre_balances@, i) && post == balance_at(
                    meta.post_balances@,
                    i,
                ),
    {
        let receipt_ata = crate::trusted::associated_token_address(receipt, mint);
        let ata_index = match Self::position_of_account(&instruction.accounts, &receipt_ata) {
            Some(i) => i,
            None => {
                return Err(
                    ServiceError::Web3Error(
                        Web3ErrorType::ValidateTransferError(
                            String::from_str("Receipt not found"),
                        ),
                    ),
                );
            },
        };
        let (_, remaining, _) = match Self::decode_transfer_instruction_data(instruction) {
            Ok(v) => v,
            Err(e) => {
                return Err(e);
            },
        };
        if Self::position_of_account(&remaining, reference).is_none() {
            proof {
                let needed = transfer_accounts_needed(
                    parse_token_instruction(instruction.data@).unwrap(),
                );
                assert forall|j: int|
                    needed <= j < instruction.accounts@.len() implies (
                #[trigger] instruction.accounts@[j]).pubkey@ != reference@ by {
                    assert(remaining@[j - needed].pubkey@ == instruction.accounts@[needed + (j
                        - needed)].pubkey@);
                }
            }
            return Err(
                ServiceError::Web3Error(
                    Web3ErrorType::ValidateTransferError(String::from_str("Invalid reference")),
                ),
            );
        }
        proof {
            let needed = transfer_accounts_needed(
                parse_token_instruction(instruction.data@).unwrap(),
            );
            let k = choose|k: int|
                0 <= k < remaining@.len() && (#[trigger] remaining@[k]).pubkey@ == reference@;
            assert(instruction.accounts@[needed + k].pubkey@ == reference@);
        }
        let pre = if ata_index < meta.pre_balances.len() {
            meta.pre_balances[ata_index]
        } else {
            0
        };
        let post = if ata_index < meta.post_balances.len() {
            meta.post_balances[ata_index]
        } else {
            0
        };
        Ok((pre, post))
    }

    /// Applies the ordered checks of the transfer verifier to a located
    /// transaction: exactly the transactions satisfying `transfer_valid`
    /// pass. In particular, a transaction whose fee payer is not the
    /// operator is rejected even when reference, destination and amount
    /// all match.
    pub fn validate_transfer(
        transaction: &Transaction,
        meta: &TxStatusMeta,
        expected_payer: &Address,
        receipt: &Address,
        mint: &Address,
        reference: &Address,
        amount: u64,
    ) -> (r: Result<(), ServiceError>)
        requires
            transaction.wf(),
            receipt.wf(),
            mint.wf(),
        ensures
            r is Ok <==> transfer_valid(
                transaction@,
                meta@,
                expected_payer@,
                receipt@,
                mint@,
                reference@,
                amount,
            ),
            transaction.message.account_keys@.len() > 0 && transaction.message.account_keys@[0]@
                != expected_payer@ ==> r matches Err(
                ServiceError::Web3Error(Web3ErrorType::ValidateTransferError(_)),
            ),
    {
        let payer = match transaction.fee_payer() {
            Some(p) => p,
            None => {
                return Err(
                    ServiceError::Web3Error(
                        Web3ErrorType::ValidateTransferError(
                            String::from_str("Missing payer, Invalid transfer"),
                        ),
                    ),
                );
            },
        };
        if !payer.eq_address(expected_payer) {
            proof {
                assert(transaction@.message.account_keys[0]
                    == transaction.message.account_keys@[0]@);
            }
            return Err(
                ServiceError::Web3Error(
                    Web3ErrorType::ValidateTransferError(String::from_str("Invalid payer")),
                ),
            );
        }
        proof {
            assert(transaction@.message.account_keys[0] == transaction.message.account_keys@[0]@);
        }
        let nix = transaction.message.instructions.len();
        if nix == 0 {
            return Err(
                ServiceError::Web3Error(
                    Web3ErrorType::ValidateTransferError(String::from_str("Invalid instruction")),
                ),
            );
        }
        let compiled = &transaction.message.instructions[nix - 1];
        proof {
            assert(transaction@.message.instructions[nix - 1]
                == transaction.message.instructions@[nix - 1]@);
            assert(compiled@ == transaction@.message.instructions.last());
        }
        let instruction = match Self::decompile_instruction(compiled, &transaction.message) {
            Ok(ix) => ix,
            Err(e) => {
                // Unreachable: well-formedness keeps every index inside
                // the account table.
                proof {
                    assert(forall|j: int|
                        0 <= j < compiled.accounts@.len() ==> ((
                        #[trigger] compiled.accounts@[j]) as int)
                            < transaction.message.account_keys@.len());
                    assert(false);
                }
                return Err(e);
            },
        };
        proof {
            let m = transaction@.message;
            let c = compiled@;
            assert forall|j: int|
                0 <= j < instruction.accounts@.len() implies (
            #[trigger] instruction.accounts@[j]).pubkey@ == resolved_account(m, c, j) by {
                assert(m.account_keys[c.accounts[j] as int]
                    == transaction.message.account_keys@[c.accounts[j] as int]@);
            }
            lemma_account_match_equiv(m, c, instruction.accounts@, ata_of(receipt@, mint@));
            lemma_account_match_equiv(m, c, instruction.accounts@, reference@);
        }
        let (pre, post) = match Self::validate_spl_transfer(
            &instruction,
            meta,
            receipt,
            mint,
            reference,
        ) {
            Ok(v) => v,
            Err(e) => {
                return Err(e);
            },
        };
        let delta = match post.checked_sub(pre) {
            Some(d) => d,
            None => {
                return Err(ServiceError::MathError(MathErrorType::NumericalOverflow));
            },
        };
        if delta < amount {
            return Err(
                ServiceError::Web3Error(
                    Web3ErrorType::ValidateTransferError(
                        String::from_str("Amount not transferred"),
                    ),
                ),
            );
        }
        Ok(())
    }

    /// The verdict on a located transaction: every check must pass, and
    /// then the ledger's own execution-failure flag decides between
    /// Completed and Rejected.
    pub fn validate_payment(
        transaction: &Transaction,
        meta: &TxStatusMeta,
        expected_payer: &Address,
        receipt: &Address,
        mint: &Address,
        reference: &Address,
        amount: u64,
    ) -> (r: Result<crate::store::TransferStatus, ServiceError>)
        requires
            transaction.wf(),
            receipt.wf(),
            mint.wf(),
        ensures
            r is Ok <==> transfer_valid(
                transaction@,
                meta@,
                expected_payer@,
                receipt@,
                mint@,
                reference@,
                amount,
            ),
            r matches Ok(s) ==> (s == crate::store::TransferStatus::Completed <==> !meta.err) && (
            s == crate::store::TransferStatus::Rejected <==> meta.err),
    {
        match Self::validate_transfer(
            transaction,
            meta,
            expected_payer,
            receipt,
            mint,
            reference,
            amount,
        ) {
            Ok(()) => {},
            Err(e) => {
                return Err(e);
            },
        }
        if meta.err {
            Ok(crate::store::TransferStatus::Rejected)
        } else {
            Ok(crate::store::TransferStatus::Completed)
        }
    }
}

/// How long the poll loop waits in all before rejecting, in seconds.
pub const POLL_TIMEOUT_SECS: u64 = 60;

/// The poll loop's tick interval, in seconds.
pub const POLL_INTERVAL_SECS: u64 = 2;

/// The page ceiling of the ledger's signature-history queries.
pub const HISTORY_PAGE_LIMIT: usize = 1000;

/// The hard ceiling on history pages walked for one search.
pub const MAX_SEARCH_PAGES: usize = 10;

/// One entry of a reference's signature history.
#[derive(Debug)]
pub struct SignatureStatusEntry {
    pub signature: TxSignature,
    pub err: bool,
}

impl Clone for SignatureStatusEntry {
    fn clone(&self) -> (r: Self)
        ensures
            r.signature@ == self.signature@,
            r.err == self.err,
    {
        SignatureStatusEntry { signature: self.signature.clone(), err: self.err }
    }
}

/// What one page of newest-first history decides for the search.
pub enum SearchStep {
    /// The page is authoritative: this entry is the match.
    Found(SignatureStatusEntry),
    /// Walk deeper with the cursor; the newest entry of this page stands
    /// as the candidate should deeper pages turn up nothing.
    Continue { cursor: TxSignature, candidate: SignatureStatusEntry },
    /// Nothing references the tag yet (a transient condition).
    NotFound,
}

/// What the poll loop does next.
#[derive(Debug, Clone, Copy, PartialEq, Eq, Structural)]
pub enum PollDecision {
    /// The wall clock ran out: mark the transfer Rejected.
    Timeout,
    /// A candidate entry was found: verify it.
    Validate,
    /// The reference was not found yet: retry silently on the next tick.
    Retry,
    /// A non-transient error: the attempt fails.
    Fail,
}

impl Indexer {
    /// Decides one step of the bounded, paginated history search: an
    /// empty page means not found; a page under the ceiling — or the last
    /// page the bound allows — is authoritative and its newest entry is
    /// the match; otherwise the search continues from the oldest entry.
    pub fn search_step(
        page: &Vec<SignatureStatusEntry>,
        page_limit: usize,
        pages_seen: usize,
        max_pages: usize,
    ) -> (r: SearchStep)
        ensures
            page@.len() == 0 <==> r is NotFound,
            page@.len() > 0 && (page@.len() < page_limit || pages_seen + 1 >= max_pages) ==> (r
                matches SearchStep::Found(e) && e.signature@ == page@[0].signature@ && e.err
                == page@[0].err),
            page@.len() > 0 && page@.len() >= page_limit && pages_seen + 1 < max_pages ==> (r
                matches SearchStep::Continue { cursor, candidate } && cursor@ == page@[page@.len()
                - 1].signature@ && candidate.signature@ == page@[0].signature@ && candidate.err
                == page@[0].err),
    {
        let n = page.len();
        if n == 0 {
            return SearchStep::NotFound;
        }
        if n < page_limit || pages_seen >= max_pages || max_pages - pages_seen <= 1 {
            return SearchStep::Found(page[0].clone());
        }
        SearchStep::Continue {
            cursor: page[n - 1].signature.clone(),
            candidate: page[0].clone(),
        }
    }

    /// Decides one tick of the poll loop: past the timeout the transfer
    /// is rejected; a located entry is verified; a not-found condition is
    /// retried silently; any other error is fatal to the attempt.
    pub fn poll_decision(elapsed_secs: u64, outcome: &Result<SignatureStatusEntry, ServiceError>)
        -> (r: PollDecision)
        ensures
            elapsed_secs >= POLL_TIMEOUT_SECS <==> r is Timeout,
            elapsed_secs < POLL_TIMEOUT_SECS && outcome is Ok <==> r is Validate,
            (elapsed_secs < POLL_TIMEOUT_SECS && (outcome matches Err(e)
                && e.is_reference_error())) <==> r is Retry,
            (elapsed_secs < POLL_TIMEOUT_SECS && (outcome matches Err(e)
                && !e.is_reference_error())) <==> r is Fail,
    {
        if elapsed_secs >= POLL_TIMEOUT_SECS {
            return PollDecision::Timeout;
        }
        match outcome {
            Ok(_) => PollDecision::Validate,
            Err(e) => if e.is_transient() {
                PollDecision::Retry
            } else {
                PollDecision::Fail
            },
        }
    }

    /// The terminal write after the timeout elapses with no verified
    /// match: status moves to Rejected and the signature stays unset.
    pub fn resolve_timeout(store: &mut crate::store::TransferStore, reference: &Address)
        ensures
            final(store)@ == crate::store::terminal_update_rows(
                old(store)@,
                reference@,
                crate::store::TransferStatus::Rejected,
                None,
            ),
            old(store).wf() ==> final(store).wf(),
    {
        store.apply_terminal_update(reference, crate::store::TransferStatus::Rejected, None);
    }

    /// The terminal write after a located transaction was verified:
    /// status and the found signature are set together, filtered by the
    /// transfer's unique reference key.
    pub fn record_outcome(
        store: &mut crate::store::TransferStore,
        reference: &Address,
        status: crate::store::TransferStatus,
        signature: TxSignature,
    )
        ensures
            final(store)@ == crate::store::terminal_update_rows(
                old(store)@,
                reference@,
                status,
                Some(signature@),
            ),
            old(store).wf() ==> final(store).wf(),
    {
        store.apply_terminal_update(reference, status, Some(signature));
    }
}

/// Matching by held address and matching by resolved address agree for
/// account lists that resolve pointwise.
proof fn lemma_account_match_equiv(
    m: MessageView,
    c: CompiledInstructionView,
    accs: Seq<AccountRef>,
    target: Seq<u8>,
)
    requires
        accs.len() == c.accounts.len(),
        forall|j: int| 0 <= j < accs.len() ==> (#[trigger] accs[j]).pubkey@ == resolved_account(
            m,
            c,
            j,
        ),
    ensures
        forall|i: int|
            #![trigger first_account_match(accs, target, i)]
            #![trigger first_resolved_match(m, c, target, i)]
            first_account_match(accs, target, i) <==> first_resolved_match(m, c, target, i),
        forall|j: int|
            #![trigger accs[j]]
            #![trigger resolved_account(m, c, j)]
            0 <= j < accs.len() ==> (accs[j].pubkey@ == target <==> resolved_account(m, c, j)
                == target),
{
    assert forall|i: int|
        #![trigger first_account_match(accs, target, i)]
        #![trigger first_resolved_match(m, c, target, i)]
        first_account_match(accs, target, i) <==> first_resolved_match(m, c, target, i) by {
        if first_account_match(accs, target, i) {
            assert forall|k: int| 0 <= k < i implies resolved_account(m, c, k) != target by {
                assert(accs[k].pubkey@ == resolved_account(m, c, k));
            }
            assert(accs[i].pubkey@ == resolved_account(m, c, i));
        }
        if first_resolved_match(m, c, target, i) {
            assert forall|k: int| 0 <= k < i implies (#[trigger] accs[k]).pubkey@ != target by {
                assert(accs[k].pubkey@ == resolved_account(m, c, k));
            }
            assert(accs[i].pubkey@ == resolved_account(m, c, i));
        }
    }
}

} // verus!
