//! Building, signing and checking transfer transactions.
//!
//! The builder compiles resolved instructions into the ordered account
//! table of a message — fee payer first, then the remaining signers, then
//! writable non-signers, then read-only keys — and partially signs it with
//! the operator key against a recent ledger tip.

use vstd::prelude::*;

use crate::account::{Address, Blockhash, TxSignature};
use crate::codec::enc_message;
use crate::custody::Keypair;
use crate::errors::{ServiceError, Web3ErrorType};
use crate::fees::{amount_after_fee_of, fee_of};
use crate::indexer::resolved_account;
use crate::instruction::{AccountRef, Instruction};
use crate::message::{
    wf_transaction_view, CompiledInstruction, Message, MessageHeader, Transaction, TransactionView,
};
use crate::token_instruction::{parse_token_instruction, TokenInstructionData};
use crate::trusted::{
    ata_of, b64_of, base58_decode_address, ed25519_sign_bytes, ed25519_verifies, parse_address,
};

verus! {

/// The all-zero placeholder filling a signature slot not yet signed.
pub open spec fn zero_signature() -> Seq<u8> {
    Seq::new(crate::account::SIGNATURE_LEN as nat, |i: int| 0u8)
}

/// What the builder promises of its output: a well-formed transaction,
/// fee-sponsored by the operator, holding exactly the fee-split pair of
/// transfer instructions with the reference tag trailing the second, and
/// partially signed by the operator against the given ledger tip — the
/// operator's signature fills the first slot, every further slot is
/// still zeroed for the sender to fill out of process.
pub open spec fn built_transfer_ok(
    t: TransactionView,
    sender: Seq<u8>,
    receiver: Seq<u8>,
    treasury: Seq<u8>,
    mint: Seq<u8>,
    reference: Seq<u8>,
    operator_address: Seq<u8>,
    operator_keypair: Seq<u8>,
    blockhash: Seq<u8>,
    amount: u64,
) -> bool {
    let m = t.message;
    let c0 = m.instructions[0];
    let c1 = m.instructions[1];
    &&& wf_transaction_view(t)
    &&& m.account_keys.len() > 0
    &&& m.account_keys[0] == operator_address
    &&& m.recent_blockhash == blockhash
    &&& m.instructions.len() == 2
    &&& parse_token_instruction(c0.data) == Some(
        TokenInstructionData::Transfer { amount: fee_of(amount) as u64 },
    )
    &&& c0.accounts.len() == 4
    &&& resolved_account(m, c0, 0) == ata_of(sender, mint)
    &&& resolved_account(m, c0, 1) == ata_of(treasury, mint)
    &&& resolved_account(m, c0, 2) == sender
    &&& resolved_account(m, c0, 3) == sender
    &&& parse_token_instruction(c1.data) == Some(
        TokenInstructionData::Transfer { amount: amount_after_fee_of(amount) as u64 },
    )
    &&& c1.accounts.len() == 5
    &&& resolved_account(m, c1, 0) == ata_of(sender, mint)
    &&& resolved_account(m, c1, 1) == ata_of(receiver, mint)
    &&& resolved_account(m, c1, 2) == sender
    &&& resolved_account(m, c1, 3) == sender
    &&& resolved_account(m, c1, 4) == reference
    &&& t.signatures.len() >= 1
    &&& t.signatures[0] == ed25519_sign_bytes(operator_keypair, enc_message(m))
    &&& forall|i: int| 1 <= i < t.signatures.len() ==> #[trigger] t.signatures[i]
        == zero_signature()
    &&& exists|i: int|
        0 <= i < m.header.num_required_signatures as int && m.account_keys[i] == sender
}

/// One key of the table being collected, with its merged roles.
struct KeyFlag {
    key: Address,
    signer: bool,
    writable: bool,
}

/// The first index of `keys` holding `target`, if any.
fn position_of_key(keys: &Vec<Address>, target: &Address) -> (r: Option<usize>)
    ensures
        r matches Some(i) ==> 0 <= i < keys@.len() && keys@[i as int]@ == target@ && (forall|
            k: int,
        |
            0 <= k < i ==> (#[trigger] keys@[k])@ != target@),
        r is None <==> forall|k: int| 0 <= k < keys@.len() ==> (#[trigger] keys@[k])@ != target@,
{
    let n = keys.len();
    let mut i: usize = 0;
    while i < n
        invariant
            n == keys@.len(),
            i <= n,
            forall|k: int| 0 <= k < i ==> (#[trigger] keys@[k])@ != target@,
        decreases n - i,
    {
        if keys[i].eq_address(target) {
            return Some(i);
        }
        i = i + 1;
    }
    None
}

/// Merges one referenced key into the collected flags: a key already seen
/// keeps its position and gains the new roles, a new key is appended.
fn upsert_key_flag(flags: &mut Vec<KeyFlag>, key: &Address, signer: bool, writable: bool)
    requires
        key.wf(),
        forall|k: int| 0 <= k < old(flags)@.len() ==> (#[trigger] old(flags)@[k]).key.wf(),
    ensures
        final(flags)@.len() >= old(flags)@.len(),
        final(flags)@.len() <= old(flags)@.len() + 1,
        forall|k: int| 0 <= k < final(flags)@.len() ==> (#[trigger] final(flags)@[k]).key.wf(),
        forall|k: int|
            0 <= k < old(flags)@.len() ==> (#[trigger] final(flags)@[k]).key@
                == old(flags)@[k].key@,
        exists|k: int|
            0 <= k < final(flags)@.len() && (#[trigger] final(flags)@[k]).key@ == key@ && (signer
                ==> final(flags)@[k].signer) && (writable ==> final(flags)@[k].writable),
        forall|k: int|
            0 <= k < old(flags)@.len() ==> ((#[trigger] old(flags)@[k]).signer
                ==> final(flags)@[k].signer) && (old(flags)@[k].writable
                ==> final(flags)@[k].writable),
{
    let n = flags.len();
    let mut i: usize = 0;
    while i < n
        invariant
            n == flags@.len(),
            i <= n,
            flags@ == old(flags)@,
            key.wf(),
            forall|k: int| 0 <= k < flags@.len() ==> (#[trigger] flags@[k]).key.wf(),
            forall|k: int| 0 <= k < i ==> (#[trigger] flags@[k]).key@ != key@,
        decreases n - i,
    {
        if flags[i].key.eq_address(key) {
            let merged_signer = flags[i].signer || signer;
            let merged_writable = flags[i].writable || writable;
            let slot = &mut flags[i];
            slot.signer = merged_signer;
            slot.writable = merged_writable;
            proof {
                assert(flags@[i as int].key@ == key@);
                assert(forall|k: int|
                    0 <= k < flags@.len() && k != i ==> (#[trigger] flags@[k]).key@ == old(
                        flags,
                    )@[k].key@);
                assert forall|k: int| 0 <= k < flags@.len() implies (
                #[trigger] flags@[k]).key.wf() by {
                    assert(old(flags)@[k].key.wf());
                    assert(flags@[k].key@ == old(flags)@[k].key@);
                }
            }
            return ;
        }
        i = i + 1;
    }
    let ghost before = flags@;
    flags.push(KeyFlag { key: key.clone(), signer, writable });
    proof {
        assert(flags@[before.len() as int].key@ == key@);
        assert(flags@[before.len() as int].signer == signer);
        assert(flags@[before.len() as int].writable == writable);
    }
}

/// A key present with its roles stays present once the flag list only
/// grows and merges monotonically.
proof fn lemma_flag_preserved(f1: Seq<KeyFlag>, f2: Seq<KeyFlag>, t: Seq<u8>, s: bool)
    requires
        f2.len() >= f1.len(),
        forall|k: int| 0 <= k < f1.len() ==> (#[trigger] f2[k]).key@ == f1[k].key@,
        forall|k: int| 0 <= k < f1.len() ==> ((#[trigger] f1[k]).signer ==> f2[k].signer),
        exists|m: int| 0 <= m < f1.len() && (#[trigger] f1[m]).key@ == t && (s ==> f1[m].signer),
    ensures
        exists|m: int| 0 <= m < f2.len() && (#[trigger] f2[m]).key@ == t && (s ==> f2[m].signer),
{
    let m = choose|m: int|
        0 <= m < f1.len() && (#[trigger] f1[m]).key@ == t && (s ==> f1[m].signer);
    assert(f2[m].key@ == t);
    assert(s ==> f2[m].signer);
}

/// An upper bound on the key-table size of a compiled message: the payer
/// plus, per instruction, its program and each referenced account.
pub open spec fn keys_bound(l: Seq<Instruction>) -> int
    decreases l.len(),
{
    if l.len() == 0 {
        1
    } else {
        keys_bound(l.drop_last()) + 1 + l.last().accounts@.len()
    }
}

proof fn lemma_keys_bound_step(l: Seq<Instruction>, i: int)
    requires
        0 <= i < l.len(),
    ensures
        keys_bound(l.subrange(0, i + 1)) == keys_bound(l.subrange(0, i)) + 1
            + l[i].accounts@.len(),
{
    let front = l.subrange(0, i + 1);
    assert(front.drop_last() =~= l.subrange(0, i));
    assert(front.last() == l[i]);
}

/// Collects every key the instructions reference, with merged roles; the
/// payer stands first, signing and writable.
fn collect_key_flags(instructions: &Vec<Instruction>, payer: &Address) -> (r: Vec<KeyFlag>)
    requires
        payer.wf(),
        forall|i: int|
            0 <= i < instructions@.len() ==> (#[trigger] instructions@[i]).program_id.wf(),
        forall|i: int, j: int|
            0 <= i < instructions@.len() && 0 <= j < instructions@[i].accounts@.len() ==> (
            #[trigger] instructions@[i].accounts@[j]).pubkey.wf(),
    ensures
        r@.len() >= 1,
        r@[0].key@ == payer@ && r@[0].signer && r@[0].writable,
        forall|k: int| 0 <= k < r@.len() ==> (#[trigger] r@[k]).key.wf(),
        r@.len() <= keys_bound(instructions@.subrange(0, instructions@.len() as int)),
        forall|i: int|
            0 <= i < instructions@.len() ==> exists|k: int|
                0 <= k < r@.len() && (#[trigger] r@[k]).key@ == (
                #[trigger] instructions@[i]).program_id@,
        forall|i: int, j: int|
            0 <= i < instructions@.len() && 0 <= j < instructions@[i].accounts@.len() ==> exists|
                k: int,
            |
                0 <= k < r@.len() && (#[trigger] r@[k]).key@ == (
                #[trigger] instructions@[i].accounts@[j]).pubkey@ && (
                instructions@[i].accounts@[j].is_signer ==> r@[k].signer),
{
    let mut flags: Vec<KeyFlag> = Vec::new();
    flags.push(KeyFlag { key: payer.clone(), signer: true, writable: true });
    let n = instructions.len();
    let mut i: usize = 0;
    while i < n
        invariant
            n == instructions@.len(),
            i <= n,
            flags@.len() >= 1,
            flags@[0].key@ == payer@ && flags@[0].signer && flags@[0].writable,
            forall|k: int| 0 <= k < flags@.len() ==> (#[trigger] flags@[k]).key.wf(),
            forall|k: int|
                0 <= k < instructions@.len() ==> (#[trigger] instructions@[k]).program_id.wf(),
            forall|k: int, j: int|
                0 <= k < instructions@.len() && 0 <= j < instructions@[k].accounts@.len() ==> (
                #[trigger] instructions@[k].accounts@[j]).pubkey.wf(),
            flags@.len() <= keys_bound(instructions@.subrange(0, i as int)),
            forall|k: int|
                0 <= k < i ==> exists|m: int|
                    0 <= m < flags@.len() && (#[trigger] flags@[m]).key@ == (
                    #[trigger] instructions@[k]).program_id@,
            forall|k: int, j: int|
                0 <= k < i && 0 <= j < instructions@[k].accounts@.len() ==> exists|m: int|
                    0 <= m < flags@.len() && (#[trigger] flags@[m]).key@ == (
                    #[trigger] instructions@[k].accounts@[j]).pubkey@ && (
                    instructions@[k].accounts@[j].is_signer ==> flags@[m].signer),
        decreases n - i,
    {
        proof {
            lemma_keys_bound_step(instructions@, i as int);
        }
        let ghost fl0 = flags@;
        upsert_key_flag(&mut flags, &instructions[i].program_id, false, false);
        proof {
            assert forall|k: int|
                0 <= k < i + 1 implies exists|m: int|
                    0 <= m < flags@.len() && (#[trigger] flags@[m]).key@ == (
                    #[trigger] instructions@[k]).program_id@ by {
                if k < i {
                    lemma_flag_preserved(fl0, flags@, instructions@[k].program_id@, false);
                }
            }
            assert forall|k: int, l: int|
                0 <= k < i && 0 <= l < instructions@[k].accounts@.len() implies exists|m: int|
                    0 <= m < flags@.len() && (#[trigger] flags@[m]).key@ == (
                    #[trigger] instructions@[k].accounts@[l]).pubkey@ && (
                    instructions@[k].accounts@[l].is_signer ==> flags@[m].signer) by {
                lemma_flag_preserved(
                    fl0,
                    flags@,
                    instructions@[k].accounts@[l].pubkey@,
                    instructions@[k].accounts@[l].is_signer,
                );
            }
        }
        let na = instructions[i].accounts.len();
        let mut j: usize = 0;
        while j < na
            invariant
                n == instructions@.len(),
                0 <= i < n,
                na == instructions@[i as int].accounts@.len(),
                j <= na,
                flags@.len() >= 1,
                flags@[0].key@ == payer@ && flags@[0].signer && flags@[0].writable,
                forall|k: int| 0 <= k < flags@.len() ==> (#[trigger] flags@[k]).key.wf(),
                forall|k: int, l: int|
                    0 <= k < instructions@.len() && 0 <= l < instructions@[k].accounts@.len()
                        ==> (#[trigger] instructions@[k].accounts@[l]).pubkey.wf(),
                flags@.len() <= keys_bound(instructions@.subrange(0, i as int)) + 1 + j,
                forall|k: int|
                    0 <= k < i + 1 ==> exists|m: int|
                        0 <= m < flags@.len() && (#[trigger] flags@[m]).key@ == (
                        #[trigger] instructions@[k]).program_id@,
                forall|k: int, l: int|
                    (0 <= k < i && 0 <= l < instructions@[k].accounts@.len()) || (k == i && 0 <= l
                        < j) ==> exists|m: int|
                        0 <= m < flags@.len() && (#[trigger] flags@[m]).key@ == (
                        #[trigger] instructions@[k].accounts@[l]).pubkey@ && (
                        instructions@[k].accounts@[l].is_signer ==> flags@[m].signer),
            decreases na - j,
        {
            let meta = &instructions[i].accounts[j];
            let ghost fm0 = flags@;
            upsert_key_flag(&mut flags, &meta.pubkey, meta.is_signer, meta.is_writable);
            proof {
                assert forall|k: int|
                    0 <= k < i + 1 implies exists|m: int|
                        0 <= m < flags@.len() && (#[trigger] flags@[m]).key@ == (
                        #[trigger] instructions@[k]).program_id@ by {
                    lemma_flag_preserved(fm0, flags@, instructions@[k].program_id@, false);
                }
                assert forall|k: int, l: int|
                    (0 <= k < i && 0 <= l < instructions@[k].accounts@.len()) || (k == i && 0 <= l
                        < j + 1) implies exists|m: int|
                        0 <= m < flags@.len() && (#[trigger] flags@[m]).key@ == (
                        #[trigger] instructions@[k].accounts@[l]).pubkey@ && (
                        instructions@[k].accounts@[l].is_signer ==> flags@[m].signer) by {
                    if k == i && l == j {
                    } else {
                        lemma_flag_preserved(
                            fm0,
                            flags@,
                            instructions@[k].accounts@[l].pubkey@,
                            instructions@[k].accounts@[l].is_signer,
                        );
                    }
                }
            }
            j = j + 1;
        }
        i = i + 1;
    }
    proof {
        assert(instructions@.subrange(0, n as int) =~= instructions@.subrange(
            0,
            instructions@.len() as int,
        ));
    }
    flags
}

/// How many of the flags at indices `1..i` fall in the given role class.
spec fn class_count_upto(f: Seq<KeyFlag>, s: bool, w: bool, i: int) -> int
    decreases i,
{
    if i <= 1 {
        0
    } else {
        class_count_upto(f, s, w, i - 1) + if f[i - 1].signer == s && f[i - 1].writable == w {
            1int
        } else {
            0int
        }
    }
}

/// The four role classes partition the flags after the payer: their
/// counts sum to the number of those flags.
proof fn lemma_class_counts_partition(f: Seq<KeyFlag>, i: int)
    requires
        1 <= i <= f.len(),
    ensures
        class_count_upto(f, true, true, i) + class_count_upto(f, true, false, i)
            + class_count_upto(f, false, true, i) + class_count_upto(f, false, false, i) == i - 1,
    decreases i,
{
    if i > 1 {
        lemma_class_counts_partition(f, i - 1);
    }
}

/// Appends the keys of one role class, in first-appearance order.
fn push_class(keys: &mut Vec<Address>, flags: &Vec<KeyFlag>, want_signer: bool, want_writable: bool)
    requires
        forall|k: int| 0 <= k < flags@.len() ==> (#[trigger] flags@[k]).key.wf(),
    ensures
        final(keys)@.len() >= old(keys)@.len(),
        final(keys)@.len() == old(keys)@.len() + class_count_upto(
            flags@,
            want_signer,
            want_writable,
            flags@.len() as int,
        ),
        forall|k: int| 0 <= k < old(keys)@.len() ==> (#[trigger] final(keys)@[k])@ == old(
            keys,
        )@[k]@,
        forall|k: int|
            old(keys)@.len() <= k < final(keys)@.len() ==> (#[trigger] final(keys)@[k]).wf(),
        forall|m: int|
            1 <= m < flags@.len() && (#[trigger] flags@[m]).signer == want_signer
                && flags@[m].writable == want_writable ==> exists|idx: int|
                0 <= idx < final(keys)@.len() && (#[trigger] final(keys)@[idx])@
                    == flags@[m].key@,
{
    let n = flags.len();
    let mut i: usize = 1;
    while i < n
        invariant
            n == flags@.len(),
            1 <= i <= n || (n == 0 && i == 1),
            keys@.len() >= old(keys)@.len(),
            keys@.len() == old(keys)@.len() + class_count_upto(
                flags@,
                want_signer,
                want_writable,
                i as int,
            ),
            forall|k: int| 0 <= k < flags@.len() ==> (#[trigger] flags@[k]).key.wf(),
            forall|k: int|
                0 <= k < old(keys)@.len() ==> (#[trigger] keys@[k])@ == old(keys)@[k]@,
            forall|k: int| old(keys)@.len() <= k < keys@.len() ==> (#[trigger] keys@[k]).wf(),
            forall|m: int|
                1 <= m < i && (#[trigger] flags@[m]).signer == want_signer && flags@[m].writable
                    == want_writable ==> exists|idx: int|
                    0 <= idx < keys@.len() && (#[trigger] keys@[idx])@ == flags@[m].key@,
        decreases n - i,
    {
        if flags[i].signer == want_signer && flags[i].writable == want_writable {
            let ghost before = keys@;
            keys.push(flags[i].key.clone());
            proof {
                assert(keys@[before.len() as int]@ == flags@[i as int].key@);
                assert forall|m: int|
                    1 <= m < i + 1 && (#[trigger] flags@[m]).signer == want_signer
                        && flags@[m].writable == want_writable implies exists|idx: int|
                        0 <= idx < keys@.len() && (#[trigger] keys@[idx])@ == flags@[m].key@ by {
                    if m < i {
                        let idx0 = choose|idx: int|
                            0 <= idx < before.len() && (#[trigger] before[idx])@
                                == flags@[m].key@;
                        assert(keys@[idx0]@ == flags@[m].key@);
                    }
                }
            }
        }
        i = i + 1;
    }
}

/// Compiles resolved instructions into a message: the payer leads the
/// ordered account table, the remaining signers follow, then writable
/// non-signers, then read-only keys; every instruction's addresses become
/// indices into that table. Each referenced address resolves back to
/// itself, and every account asked to sign lands in the signing region.
pub fn compile_message(
    instructions: &Vec<Instruction>,
    payer: &Address,
    recent_blockhash: &Blockhash,
) -> (r: Result<Message, ServiceError>)
    requires
        payer.wf(),
        recent_blockhash.wf(),
        instructions@.len() <= 0xFFFF,
        forall|i: int|
            0 <= i < instructions@.len() ==> (#[trigger] instructions@[i]).program_id.wf(),
        forall|i: int|
            0 <= i < instructions@.len() ==> (#[trigger] instructions@[i]).accounts@.len()
                <= 0xFFFF && instructions@[i].data@.len() <= 0xFFFF,
        forall|i: int, j: int|
            0 <= i < instructions@.len() && 0 <= j < instructions@[i].accounts@.len() ==> (
            #[trigger] instructions@[i].accounts@[j]).pubkey.wf(),
    ensures
        keys_bound(instructions@.subrange(0, instructions@.len() as int)) <= 0xFF ==> r is Ok,
        r matches Ok(m) ==> {
            &&& m.wf()
            &&& m.account_keys@.len() > 0
            &&& m.account_keys@[0]@ == payer@
            &&& m.recent_blockhash@ == recent_blockhash@
            &&& m.header.num_required_signatures >= 1
            &&& m.instructions@.len() == instructions@.len()
            &&& forall|i: int|
                0 <= i < instructions@.len() ==> (#[trigger] m.instructions@[i]).data@
                    == instructions@[i].data@
            &&& forall|i: int|
                0 <= i < instructions@.len()
                    ==> m.account_keys@[(#[trigger] m.instructions@[i]).program_id_index as int]@
                    == instructions@[i].program_id@
            &&& forall|i: int|
                0 <= i < instructions@.len() ==> (#[trigger] m.instructions@[i]).accounts@.len()
                    == instructions@[i].accounts@.len()
            &&& forall|i: int, j: int|
                0 <= i < instructions@.len() && 0 <= j < instructions@[i].accounts@.len()
                    ==> m.account_keys@[(#[trigger] m.instructions@[i].accounts@[j]) as int]@
                    == instructions@[i].accounts@[j].pubkey@
            &&& forall|i: int, j: int|
                0 <= i < instructions@.len() && 0 <= j < instructions@[i].accounts@.len() && (
                #[trigger] instructions@[i].accounts@[j]).is_signer ==> m.spec_is_signer(
                    m.instructions@[i].accounts@[j] as int,
                )
        },
{
    let flags = collect_key_flags(instructions, payer);
    if flags.len() > 0xFF {
        return Err(
            ServiceError::Web3Error(
                Web3ErrorType::Custom(String::from_str("Account table overflow")),
            ),
        );
    }
    let mut keys: Vec<Address> = Vec::new();
    keys.push(flags[0].key.clone());
    proof {
        assert(keys@[0]@ == flags@[0].key@);
    }
    push_class(&mut keys, &flags, true, true);
    let ghost k_sw = keys@;
    proof {
        assert(k_sw[0]@ == flags@[0].key@);
    }
    let n_after_sw = keys.len();
    push_class(&mut keys, &flags, true, false);
    let ghost k_sr = keys@;
    let req = keys.len();
    push_class(&mut keys, &flags, false, true);
    let ghost k_nw = keys@;
    let n_after_nw = keys.len();
    push_class(&mut keys, &flags, false, false);
    let total = keys.len();
    proof {
        lemma_class_counts_partition(flags@, flags@.len() as int);
        assert(total == flags@.len());
        // Prefixes survive the later pushes.
        assert forall|idx: int|
            0 <= idx < k_sw.len() implies (#[trigger] keys@[idx])@ == k_sw[idx]@ by {
            assert(k_sr[idx]@ == k_sw[idx]@);
            assert(k_nw[idx]@ == k_sr[idx]@);
        }
        assert forall|idx: int|
            0 <= idx < k_sr.len() implies (#[trigger] keys@[idx])@ == k_sr[idx]@ by {
            assert(k_nw[idx]@ == k_sr[idx]@);
        }
        // Every collected key reached the table, and every signing key
        // reached the signing prefix.
        assert forall|m: int| 0 <= m < flags@.len() implies exists|idx: int|
            0 <= idx < keys@.len() && (#[trigger] keys@[idx])@ == (#[trigger] flags@[m]).key@ by {
            if m == 0 {
                assert(keys@[0]@ == k_sw[0]@);
                assert(keys@[0]@ == flags@[0].key@);
            } else if flags@[m].signer && flags@[m].writable {
                let idx0 = choose|idx: int|
                    0 <= idx < k_sw.len() && (#[trigger] k_sw[idx])@ == flags@[m].key@;
                assert(keys@[idx0]@ == flags@[m].key@);
            } else if flags@[m].signer && !flags@[m].writable {
                let idx0 = choose|idx: int|
                    0 <= idx < k_sr.len() && (#[trigger] k_sr[idx])@ == flags@[m].key@;
                assert(keys@[idx0]@ == flags@[m].key@);
            } else if !flags@[m].signer && flags@[m].writable {
                let idx0 = choose|idx: int|
                    0 <= idx < k_nw.len() && (#[trigger] k_nw[idx])@ == flags@[m].key@;
                assert(keys@[idx0]@ == k_nw[idx0]@);
                assert(keys@[idx0]@ == flags@[m].key@);
            } else {
                let idx0 = choose|idx: int|
                    0 <= idx < keys@.len() && (#[trigger] keys@[idx])@ == flags@[m].key@;
                assert(keys@[idx0]@ == flags@[m].key@);
            }
        }
        assert forall|m: int|
            0 <= m < flags@.len() && (#[trigger] flags@[m]).signer implies exists|idx: int|
                0 <= idx < req && (#[trigger] keys@[idx])@ == flags@[m].key@ by {
            if m == 0 {
                assert(keys@[0]@ == k_sw[0]@);
                assert(keys@[0]@ == flags@[0].key@);
            } else if flags@[m].writable {
                let idx0 = choose|idx: int|
                    0 <= idx < k_sw.len() && (#[trigger] k_sw[idx])@ == flags@[m].key@;
                assert(keys@[idx0]@ == flags@[m].key@);
                assert(idx0 < req);
            } else {
                let idx0 = choose|idx: int|
                    0 <= idx < k_sr.len() && (#[trigger] k_sr[idx])@ == flags@[m].key@;
                assert(keys@[idx0]@ == flags@[m].key@);
            }
        }
    }
    let header = MessageHeader {
        num_required_signatures: req as u8,
        num_readonly_signed_accounts: (req - n_after_sw) as u8,
        num_readonly_unsigned_accounts: (total - n_after_nw) as u8,
    };
    let mut cixs: Vec<CompiledInstruction> = Vec::new();
    let n = instructions.len();
    let mut i: usize = 0;
    while i < n
        invariant
            n == instructions@.len(),
            i <= n,
            req >= 1,
            total == keys@.len(),
            total <= 0xFF,
            req <= total,
            forall|k: int|
                0 <= k < instructions@.len() ==> (#[trigger] instructions@[k]).program_id.wf(),
            forall|k: int, j: int|
                0 <= k < instructions@.len() && 0 <= j < instructions@[k].accounts@.len() ==> (
                #[trigger] instructions@[k].accounts@[j]).pubkey.wf(),
            forall|k: int|
                0 <= k < instructions@.len() ==> exists|m: int|
                    0 <= m < flags@.len() && (#[trigger] flags@[m]).key@ == (
                    #[trigger] instructions@[k]).program_id@,
            forall|k: int, j: int|
                0 <= k < instructions@.len() && 0 <= j < instructions@[k].accounts@.len()
                    ==> exists|m: int|
                    0 <= m < flags@.len() && (#[trigger] flags@[m]).key@ == (
                    #[trigger] instructions@[k].accounts@[j]).pubkey@ && (
                    instructions@[k].accounts@[j].is_signer ==> flags@[m].signer),
            forall|m: int|
                0 <= m < flags@.len() ==> exists|idx: int|
                    0 <= idx < keys@.len() && (#[trigger] keys@[idx])@ == (
                    #[trigger] flags@[m]).key@,
            forall|m: int|
                0 <= m < flags@.len() && (#[trigger] flags@[m]).signer ==> exists|idx: int|
                    0 <= idx < req && (#[trigger] keys@[idx])@ == flags@[m].key@,
            cixs@.len() == i,
            forall|k: int|
                0 <= k < i ==> (#[trigger] cixs@[k]).data@ == instructions@[k].data@,
            forall|k: int|
                0 <= k < i ==> ((#[trigger] cixs@[k]).program_id_index as int) < keys@.len()
                    && keys@[cixs@[k].program_id_index as int]@ == instructions@[k].program_id@,
            forall|k: int|
                0 <= k < i ==> (#[trigger] cixs@[k]).accounts@.len()
                    == instructions@[k].accounts@.len(),
            forall|k: int, j: int|
                0 <= k < i && 0 <= j < cixs@[k].accounts@.len() ==> ((
                #[trigger] cixs@[k].accounts@[j]) as int) < keys@.len()
                    && keys@[cixs@[k].accounts@[j] as int]@
                    == instructions@[k].accounts@[j].pubkey@,
            forall|k: int, j: int|
                0 <= k < i && 0 <= j < cixs@[k].accounts@.len() && (
                #[trigger] instructions@[k].accounts@[j]).is_signer ==> ((
                #[trigger] cixs@[k].accounts@[j]) as int) < req,
        decreases n - i,
    {
        let pidx = match position_of_key(&keys, &instructions[i].program_id) {
            Some(p) => p,
            None => {
                proof {
                    let m = choose|m: int|
                        0 <= m < flags@.len() && (#[trigger] flags@[m]).key@
                            == instructions@[i as int].program_id@;
                    let idx = choose|idx: int|
                        0 <= idx < keys@.len() && (#[trigger] keys@[idx])@ == flags@[m].key@;
                    assert(false);
                }
                return Err(
                    ServiceError::Web3Error(
                        Web3ErrorType::Custom(String::from_str("Account table overflow")),
                    ),
                );
            },
        };
        let na = instructions[i].accounts.len();
        let mut accounts: Vec<u8> = Vec::new();
        let mut j: usize = 0;
        while j < na
            invariant
                n == instructions@.len(),
                0 <= i < n,
                na == instructions@[i as int].accounts@.len(),
                j <= na,
                req >= 1,
                total == keys@.len(),
                total <= 0xFF,
                forall|k: int, l: int|
                    0 <= k < instructions@.len() && 0 <= l < instructions@[k].accounts@.len()
                        ==> (#[trigger] instructions@[k].accounts@[l]).pubkey.wf(),
                forall|k: int, l: int|
                    0 <= k < instructions@.len() && 0 <= l < instructions@[k].accounts@.len()
                        ==> exists|m: int|
                        0 <= m < flags@.len() && (#[trigger] flags@[m]).key@ == (
                        #[trigger] instructions@[k].accounts@[l]).pubkey@ && (
                        instructions@[k].accounts@[l].is_signer ==> flags@[m].signer),
                forall|m: int|
                    0 <= m < flags@.len() ==> exists|idx: int|
                        0 <= idx < keys@.len() && (#[trigger] keys@[idx])@ == (
                        #[trigger] flags@[m]).key@,
                forall|m: int|
                    0 <= m < flags@.len() && (#[trigger] flags@[m]).signer ==> exists|idx: int|
                        0 <= idx < req && (#[trigger] keys@[idx])@ == flags@[m].key@,
                accounts@.len() == j,
                forall|l: int|
                    0 <= l < j ==> ((#[trigger] accounts@[l]) as int) < keys@.len()
                        && keys@[accounts@[l] as int]@
                        == instructions@[i as int].accounts@[l].pubkey@,
                forall|l: int|
                    0 <= l < j && (#[trigger] instructions@[i as int].accounts@[l]).is_signer
                        ==> ((accounts@[l]) as int) < req,
            decreases na - j,
        {
            let aidx = match position_of_key(&keys, &instructions[i].accounts[j].pubkey) {
                Some(p) => p,
                None => {
                    proof {
                        let m = choose|m: int|
                            0 <= m < flags@.len() && (#[trigger] flags@[m]).key@
                                == instructions@[i as int].accounts@[j as int].pubkey@ && (
                            instructions@[i as int].accounts@[j as int].is_signer
                                ==> flags@[m].signer);
                        let idx = choose|idx: int|
                            0 <= idx < keys@.len() && (#[trigger] keys@[idx])@
                                == flags@[m].key@;
                        assert(false);
                    }
                    return Err(
                        ServiceError::Web3Error(
                            Web3ErrorType::Custom(String::from_str("Account table overflow")),
                        ),
                    );
                },
            };
            proof {
                if instructions@[i as int].accounts@[j as int].is_signer {
                    let m = choose|m: int|
                        0 <= m < flags@.len() && (#[trigger] flags@[m]).key@
                            == instructions@[i as int].accounts@[j as int].pubkey@ && (
                        instructions@[i as int].accounts@[j as int].is_signer
                            ==> flags@[m].signer);
                    let idx = choose|idx: int|
                        0 <= idx < req && (#[trigger] keys@[idx])@ == flags@[m].key@;
                    assert(keys@[idx]@
                        == instructions@[i as int].accounts@[j as int].pubkey@);
                }
            }
            accounts.push(aidx as u8);
            j = j + 1;
        }
        let mut data: Vec<u8> = Vec::new();
        crate::codec::push_bytes(&mut data, &instructions[i].data);
        cixs.push(CompiledInstruction { program_id_index: pidx as u8, accounts, data });
        i = i + 1;
    }
    let message = Message {
        header,
        account_keys: keys,
        recent_blockhash: Blockhash { bytes: crate::account::bytes_range(
            &recent_blockhash.bytes,
            0,
            recent_blockhash.bytes.len(),
        ) },
        instructions: cixs,
    };
    proof {
        assert(message.recent_blockhash@ =~= recent_blockhash@);
        assert(crate::message::wf_message_view(message@));
    }
    Ok(message)
}

/// Builds the fee-splitting, reference-tagged transfer transaction: two
/// transfer instructions — sender to treasury for the one-percent fee,
/// sender to receiver for the remainder, the latter carrying the
/// reference tag as a trailing non-signing account — compiled with the
/// operator as fee payer and partially signed by the operator. Succeeds
/// exactly when the four base58 addresses parse.
pub fn create_transfer_transaction(
    sender_wallet: &str,
    receiver_wallet: &str,
    amount: u64,
    token_mint_address: &str,
    reference_key: &Address,
    operator: &Keypair,
    treasury: &str,
    token_program: &Address,
    recent_blockhash: &Blockhash,
) -> (r: Result<Transaction, ServiceError>)
    requires
        reference_key.wf(),
        operator.wf(),
        token_program.wf(),
        recent_blockhash.wf(),
    ensures
        r is Ok <==> (base58_decode_address(sender_wallet@) is Some && base58_decode_address(
            receiver_wallet@,
        ) is Some && base58_decode_address(token_mint_address@) is Some && base58_decode_address(
            treasury@,
        ) is Some),
        r matches Ok(tx) ==> built_transfer_ok(
            tx@,
            base58_decode_address(sender_wallet@).unwrap(),
            base58_decode_address(receiver_wallet@).unwrap(),
            base58_decode_address(treasury@).unwrap(),
            base58_decode_address(token_mint_address@).unwrap(),
            reference_key@,
            operator.address@,
            operator.bytes@,
            recent_blockhash@,
            amount,
        ),
{
    let sender = match parse_address(sender_wallet) {
        Some(a) => a,
        None => {
            return Err(
                ServiceError::Web3Error(
                    Web3ErrorType::Custom(String::from_str("Malformed address")),
                ),
            );
        },
    };
    let receiver = match parse_address(receiver_wallet) {
        Some(a) => a,
        None => {
            return Err(
                ServiceError::Web3Error(
                    Web3ErrorType::Custom(String::from_str("Malformed address")),
                ),
            );
        },
    };
    let token_mint = match parse_address(token_mint_address) {
        Some(a) => a,
        None => {
            return Err(
                ServiceError::Web3Error(
                    Web3ErrorType::Custom(String::from_str("Malformed address")),
                ),
            );
        },
    };
    let treasury_address = match parse_address(treasury) {
        Some(a) => a,
        None => {
            return Err(
                ServiceError::Web3Error(
                    Web3ErrorType::Custom(String::from_str("Malformed address")),
                ),
            );
        },
    };
    let sender_token_account = crate::trusted::associated_token_address(&sender, &token_mint);
    let receiver_token_account = crate::trusted::associated_token_address(&receiver, &token_mint);
    let treasury_token_account = crate::trusted::associated_token_address(
        &treasury_address,
        &token_mint,
    );
    let (fee, amount_after_fee) = match crate::fees::split_fee(amount) {
        Ok(v) => v,
        Err(e) => {
            proof {
                assert(false);
            }
            return Err(e);
        },
    };
    let fee_data = TokenInstructionData::Transfer { amount: fee };
    let mut fee_accounts: Vec<AccountRef> = Vec::new();
    fee_accounts.push(
        AccountRef { pubkey: sender_token_account.clone(), is_signer: false, is_writable: true },
    );
    fee_accounts.push(
        AccountRef { pubkey: treasury_token_account, is_signer: false, is_writable: true },
    );
    fee_accounts.push(AccountRef { pubkey: sender.clone(), is_signer: false, is_writable: false });
    fee_accounts.push(AccountRef { pubkey: sender.clone(), is_signer: true, is_writable: false });
    let fee_instruction = Instruction {
        program_id: token_program.clone(),
        accounts: fee_accounts,
        data: fee_data.pack(),
    };
    let main_data = TokenInstructionData::Transfer { amount: amount_after_fee };
    let mut main_accounts: Vec<AccountRef> = Vec::new();
    main_accounts.push(
        AccountRef { pubkey: sender_token_account, is_signer: false, is_writable: true },
    );
    main_accounts.push(
        AccountRef { pubkey: receiver_token_account, is_signer: false, is_writable: true },
    );
    main_accounts.push(AccountRef { pubkey: sender.clone(), is_signer: false, is_writable: false });
    main_accounts.push(AccountRef { pubkey: sender, is_signer: true, is_writable: false });
    main_accounts.push(
        AccountRef { pubkey: reference_key.clone(), is_signer: false, is_writable: false },
    );
    let main_instruction = Instruction {
        program_id: token_program.clone(),
        accounts: main_accounts,
        data: main_data.pack(),
    };
    let mut instructions: Vec<Instruction> = Vec::new();
    instructions.push(fee_instruction);
    instructions.push(main_instruction);
    proof {
        let s = instructions@;
        assert(s.subrange(0, 0) =~= Seq::<Instruction>::empty());
        lemma_keys_bound_step(s, 0);
        lemma_keys_bound_step(s, 1);
        assert(keys_bound(s.subrange(0, 1)) == keys_bound(s.subrange(0, 0)) + 1 + 4);
        assert(keys_bound(s.subrange(0, 2)) == keys_bound(s.subrange(0, 1)) + 1 + 5);
        assert(keys_bound(s.subrange(0, 2)) == 12);
    }
    let message = match compile_message(&instructions, &operator.address, recent_blockhash) {
        Ok(m) => m,
        Err(e) => {
            proof {
                assert(false);
            }
            return Err(e);
        },
    };
    let message_bytes = crate::codec::serialize_message(&message);
    let operator_signature = operator.sign(&message_bytes);
    let req = message.header.num_required_signatures as usize;
    let mut signatures: Vec<TxSignature> = Vec::new();
    signatures.push(operator_signature);
    let mut s: usize = 1;
    while s < req
        invariant
            1 <= s <= req || (req == 0 && s == 1),
            signatures@.len() == s,
            forall|k: int| 0 <= k < s ==> (#[trigger] signatures@[k]).wf(),
            signatures@[0]@ == ed25519_sign_bytes(operator.bytes@, message_bytes@),
            forall|k: int| 1 <= k < s ==> (#[trigger] signatures@[k])@ == zero_signature(),
        decreases req - s,
    {
        signatures.push(TxSignature::unsigned());
        proof {
            assert(signatures@.last()@ =~= zero_signature());
        }
        s = s + 1;
    }
    let transaction = Transaction { signatures, message };
    proof {
        let tv = transaction@;
        let m = tv.message;
        assert(tv.signatures.len() == m.header.num_required_signatures as int);
        assert(forall|i: int| 0 <= i < tv.signatures.len() ==> (#[trigger] tv.signatures[i]).len()
            == crate::account::SIGNATURE_LEN);
        assert(wf_transaction_view(tv));
        assert(m.instructions[0] == transaction.message.instructions@[0]@);
        assert(m.instructions[1] == transaction.message.instructions@[1]@);
        assert forall|j: int|
            0 <= j < 4 implies resolved_account(m, m.instructions[0], j)
            == instructions@[0].accounts@[j].pubkey@ by {
            assert(m.account_keys[m.instructions[0].accounts[j] as int]
                == transaction.message.account_keys@[transaction.message.instructions@[0].accounts@[j] as int]@);
        }
        assert forall|j: int|
            0 <= j < 5 implies resolved_account(m, m.instructions[1], j)
            == instructions@[1].accounts@[j].pubkey@ by {
            assert(m.account_keys[m.instructions[1].accounts[j] as int]
                == transaction.message.account_keys@[transaction.message.instructions@[1].accounts@[j] as int]@);
        }
        assert(m.account_keys[0] == transaction.message.account_keys@[0]@);
        // The instruction payloads decode back to the two amounts.
        crate::token_instruction::lemma_token_instruction_round_trip(
            TokenInstructionData::Transfer { amount: fee },
        );
        crate::token_instruction::lemma_token_instruction_round_trip(
            TokenInstructionData::Transfer { amount: amount_after_fee },
        );
        assert(m.instructions[0].data == instructions@[0].data@);
        assert(m.instructions[1].data == instructions@[1].data@);
        // The sender signs: its meta in the second instruction is marked
        // a signer, so its index lies in the signing region.
        assert(instructions@[1].accounts@[3].is_signer);
        let sidx = m.instructions[1].accounts[3] as int;
        assert(m.account_keys[sidx] == transaction.message.account_keys@[sidx]@);
        assert(transaction.message.spec_is_signer(sidx));
        assert(0 <= sidx < m.header.num_required_signatures as int && m.account_keys[sidx]
            == instructions@[1].accounts@[3].pubkey@);
        assert(exists|i: int|
            0 <= i < m.header.num_required_signatures as int && m.account_keys[i]
                == instructions@[1].accounts@[3].pubkey@);
        assert(tv.signatures[0] == signatures@[0]@);
        assert(forall|i: int| 1 <= i < tv.signatures.len() ==> #[trigger] tv.signatures[i]
            == signatures@[i]@);
        assert(enc_message(m) == message_bytes@);
    }
    Ok(transaction)
}

/// What the builder produces, the verifier accepts: a built transfer's
/// last instruction passes the verifier's shape checks for the same
/// receiver, mint and reference — its token sub-account is referenced,
/// the payload decodes to a transfer, and the reference tag trails it —
/// and its fee payer is the operator.
pub proof fn lemma_built_transfer_verifiable(
    t: TransactionView,
    sender: Seq<u8>,
    receiver: Seq<u8>,
    treasury: Seq<u8>,
    mint: Seq<u8>,
    reference: Seq<u8>,
    operator_address: Seq<u8>,
    operator_keypair: Seq<u8>,
    blockhash: Seq<u8>,
    amount: u64,
)
    requires
        built_transfer_ok(
            t,
            sender,
            receiver,
            treasury,
            mint,
            reference,
            operator_address,
            operator_keypair,
            blockhash,
            amount,
        ),
    ensures
        crate::indexer::spl_transfer_shape_ok(
            t.message,
            t.message.instructions.last(),
            receiver,
            mint,
            reference,
        ),
        t.message.account_keys[0] == operator_address,
{
    let m = t.message;
    let c = m.instructions.last();
    assert(c == m.instructions[1]);
    let target = ata_of(receiver, mint);
    assert(crate::indexer::resolved_account(m, c, 1) == target);
    if crate::indexer::resolved_account(m, c, 0) == target {
        assert(crate::indexer::first_resolved_match(m, c, target, 0));
    } else {
        assert(crate::indexer::first_resolved_match(m, c, target, 1));
    }
    assert(parse_token_instruction(c.data) == Some(
        TokenInstructionData::Transfer { amount: amount_after_fee_of(amount) as u64 },
    ));
    assert(crate::indexer::transfer_accounts_needed(parse_token_instruction(c.data).unwrap())
        == 3);
    assert(crate::indexer::resolved_account(m, c, 4) == reference);
}

/// Every declared signature verifies over the message bytes under its
/// corresponding signer key.
pub open spec fn all_signatures_valid(t: TransactionView) -> bool {
    forall|i: int|
        0 <= i < t.signatures.len() ==> ed25519_verifies(
            #[trigger] t.signatures[i],
            t.message.account_keys[i],
            enc_message(t.message),
        )
}

/// The wallet stands among the transaction's signer keys.
pub open spec fn has_signer(t: TransactionView, wallet: Seq<u8>) -> bool {
    exists|i: int|
        0 <= i < t.message.header.num_required_signatures as int && #[trigger] t.message.account_keys[i]
            == wallet
}

/// Checks a fully signed transaction before broadcast: every declared
/// signature must verify cryptographically, and the wallet must be among
/// the signer set — rejecting an untrusted signer set.
pub fn verify_transaction_signature(transaction: &Transaction, wallet: &Address) -> (r: Result<
    (),
    ServiceError,
>)
    requires
        transaction.wf(),
        wallet.wf(),
    ensures
        r is Ok <==> (all_signatures_valid(transaction@) && has_signer(transaction@, wallet@)),
        !all_signatures_valid(transaction@) ==> r matches Err(
            ServiceError::Web3Error(Web3ErrorType::Custom(_)),
        ),
        all_signatures_valid(transaction@) && !has_signer(transaction@, wallet@) ==> r matches Err(
            ServiceError::Web3Error(Web3ErrorType::InvalidSigner),
        ),
{
    let message_bytes = crate::codec::serialize_message(&transaction.message);
    let nsigs = transaction.signatures.len();
    let mut i: usize = 0;
    while i < nsigs
        invariant
            nsigs == transaction.signatures@.len(),
            transaction.wf(),
            i <= nsigs,
            message_bytes@ == enc_message(transaction@.message),
            forall|k: int|
                0 <= k < i ==> ed25519_verifies(
                    #[trigger] transaction@.signatures[k],
                    transaction@.message.account_keys[k],
                    enc_message(transaction@.message),
                ),
        decreases nsigs - i,
    {
        proof {
            assert(transaction@.signatures[i as int] == transaction.signatures@[i as int]@);
            assert(transaction@.message.account_keys[i as int]
                == transaction.message.account_keys@[i as int]@);
        }
        let valid = crate::trusted::signature_verify(
            &transaction.signatures[i],
            &transaction.message.account_keys[i],
            &message_bytes,
        );
        if !valid {
            return Err(
                ServiceError::Web3Error(
                    Web3ErrorType::Custom(String::from_str("Invalid signature in transaction")),
                ),
            );
        }
        i = i + 1;
    }
    let req = transaction.message.header.num_required_signatures as usize;
    let mut j: usize = 0;
    while j < req
        invariant
            transaction.wf(),
            req == transaction.message.header.num_required_signatures as int,
            j <= req,
            all_signatures_valid(transaction@),
            forall|k: int|
                0 <= k < j ==> #[trigger] transaction@.message.account_keys[k] != wallet@,
        decreases req - j,
    {
        if transaction.message.account_keys[j].eq_address(wallet) {
            proof {
                assert(transaction@.message.account_keys[j as int]
                    == transaction.message.account_keys@[j as int]@);
                assert(has_signer(transaction@, wallet@));
            }
            return Ok(());
        }
        proof {
            assert(transaction@.message.account_keys[j as int]
                == transaction.message.account_keys@[j as int]@);
        }
        j = j + 1;
    }
    Err(ServiceError::Web3Error(Web3ErrorType::InvalidSigner))
}

/// Reads the reference tag off a built transfer transaction: the last
/// account of the last instruction, resolved through the account table.
pub fn get_reference_from_transfer_transaction(transaction: &Transaction) -> (r: Result<
    Address,
    ServiceError,
>)
    requires
        transaction.wf(),
    ensures
        r is Ok <==> (transaction.message.instructions@.len() > 0
            && transaction.message.instructions@.last().accounts@.len() > 0),
        r matches Ok(a) ==> a.wf() && a@ == transaction@.message.account_keys[transaction@.message.instructions.last().accounts.last() as int],
        r matches Err(e) ==> e matches ServiceError::Web3Error(Web3ErrorType::ReferenceError),
{
    let nix = transaction.message.instructions.len();
    if nix == 0 {
        return Err(ServiceError::Web3Error(Web3ErrorType::ReferenceError));
    }
    let last_ix = &transaction.message.instructions[nix - 1];
    let na = last_ix.accounts.len();
    if na == 0 {
        return Err(ServiceError::Web3Error(Web3ErrorType::ReferenceError));
    }
    let idx = last_ix.accounts[na - 1] as usize;
    proof {
        assert(transaction.message.instructions@[nix - 1]@
            == transaction@.message.instructions[nix - 1]);
        assert((idx as int) < transaction.message.account_keys@.len());
        assert(transaction@.message.account_keys[idx as int]
            == transaction.message.account_keys@[idx as int]@);
    }
    Ok(transaction.message.account_keys[idx].clone())
}

/// Decodes a base64-encoded serialized transaction: the decoded bytes
/// must parse exactly and sanely, else the call fails.
pub fn deserialize_transaction(encoded_tx: &str) -> (r: Result<Transaction, ServiceError>)
    ensures
        r matches Ok(t) ==> t.wf(),
        r matches Ok(t) ==> exists|b: Seq<u8>|
            encoded_tx@ == b64_of(b) && crate::codec::parse_transaction_bytes(b) == Some(t@),
        r matches Ok(t) ==> forall|b: Seq<u8>|
            encoded_tx@ == b64_of(b) ==> crate::codec::parse_transaction_bytes(b) == Some(t@),
        forall|b: Seq<u8>|
            encoded_tx@ == b64_of(b) && crate::codec::parse_transaction_bytes(b) is Some ==> (r
                matches Ok(t) && Some(t@) == crate::codec::parse_transaction_bytes(b)),
        forall|b: Seq<u8>|
            encoded_tx@ == b64_of(b) && crate::codec::parse_transaction_bytes(b) is None ==> r
                is Err,
{
    let bytes = match crate::trusted::b64_decode(encoded_tx) {
        Some(v) => v,
        None => {
            return Err(
                ServiceError::Web3Error(
                    Web3ErrorType::Custom(String::from_str("Invalid base64 transaction")),
                ),
            );
        },
    };
    let r = crate::codec::deserialize_transaction_bytes(&bytes);
    proof {
        if r is Ok {
            assert forall|b: Seq<u8>| encoded_tx@ == b64_of(b) implies
                crate::codec::parse_transaction_bytes(b) == Some(r.unwrap()@) by {
                assert(bytes@ == b);
            }
        }
    }
    r
}

} // verus!
