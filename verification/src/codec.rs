//! Byte-level codec for the ledger's legacy transaction wire format.
//!
//! Layout: a compact length prefix (one to three bytes, seven value bits
//! per byte, high bit continues, strictly minimal) before every list; the
//! signature list, then the message: three header bytes, the account-key
//! table, the recent block hash, and the compiled instruction list.

use vstd::prelude::*;

use crate::account::{Address, Blockhash, TxSignature, ADDRESS_LEN, BLOCKHASH_LEN, SIGNATURE_LEN};
use crate::errors::{ServiceError, Web3ErrorType};
use crate::message::{
    wf_transaction_view, CompiledInstruction, CompiledInstructionView, Message, MessageHeader,
    MessageView, Transaction, TransactionView,
};

verus! {

/// The compact encoding of a length `n`, at most `0xFFFF`.
pub open spec fn enc_cu16(n: int) -> Seq<u8>
    recommends
        0 <= n <= 0xFFFF,
{
    if n < 0x80 {
        seq![n as u8]
    } else if n < 0x4000 {
        seq![(n % 0x80 + 0x80) as u8, (n / 0x80) as u8]
    } else {
        seq![(n % 0x80 + 0x80) as u8, ((n / 0x80) % 0x80 + 0x80) as u8, (n / 0x4000) as u8]
    }
}

/// Concatenation of a list of byte strings.
pub open spec fn concat_bytes(l: Seq<Seq<u8>>) -> Seq<u8>
    decreases l.len(),
{
    if l.len() == 0 {
        Seq::empty()
    } else {
        concat_bytes(l.drop_last()) + l.last()
    }
}

/// Appending one element to the list appends its bytes to the concatenation.
pub proof fn lemma_concat_bytes_step(l: Seq<Seq<u8>>, i: int)
    requires
        0 <= i < l.len(),
    ensures
        concat_bytes(l.subrange(0, i + 1)) == concat_bytes(l.subrange(0, i)) + l[i],
{
    let front = l.subrange(0, i + 1);
    assert(front.drop_last() =~= l.subrange(0, i));
    assert(front.last() == l[i]);
}

/// A sequence is the full-range subrange of itself.
pub proof fn lemma_concat_bytes_all(l: Seq<Seq<u8>>)
    ensures
        concat_bytes(l.subrange(0, l.len() as int)) == concat_bytes(l),
{
    assert(l.subrange(0, l.len() as int) =~= l);
}

/// The wire bytes of one compiled instruction.
pub open spec fn enc_instruction(c: CompiledInstructionView) -> Seq<u8> {
    seq![c.program_id_index] + enc_cu16(c.accounts.len() as int) + c.accounts + enc_cu16(
        c.data.len() as int,
    ) + c.data
}

/// The wire bytes of a message.
pub open spec fn enc_message(m: MessageView) -> Seq<u8> {
    seq![
        m.header.num_required_signatures,
        m.header.num_readonly_signed_accounts,
        m.header.num_readonly_unsigned_accounts,
    ] + enc_cu16(m.account_keys.len() as int) + concat_bytes(m.account_keys)
        + m.recent_blockhash + enc_cu16(m.instructions.len() as int) + concat_bytes(
        m.instructions.map_values(|c: CompiledInstructionView| enc_instruction(c)),
    )
}

/// The wire bytes of a transaction.
pub open spec fn enc_transaction(t: TransactionView) -> Seq<u8> {
    enc_cu16(t.signatures.len() as int) + concat_bytes(t.signatures) + enc_message(t.message)
}

/// Appends the compact encoding of `n`.
pub fn push_cu16(out: &mut Vec<u8>, n: usize)
    requires
        n <= 0xFFFF,
    ensures
        final(out)@ == old(out)@ + enc_cu16(n as int),
{
    if n < 0x80 {
        out.push(n as u8);
    } else if n < 0x4000 {
        out.push((n % 0x80 + 0x80) as u8);
        out.push((n / 0x80) as u8);
    } else {
        out.push((n % 0x80 + 0x80) as u8);
        out.push(((n / 0x80) % 0x80 + 0x80) as u8);
        out.push((n / 0x4000) as u8);
    }
    assert(out@ =~= old(out)@ + enc_cu16(n as int));
}

/// Appends a copy of `src`.
pub fn push_bytes(out: &mut Vec<u8>, src: &Vec<u8>)
    ensures
        final(out)@ == old(out)@ + src@,
{
    let mut i: usize = 0;
    while i < src.len()
        invariant
            i <= src.len(),
            out@ =~= old(out)@ + src@.subrange(0, i as int),
        decreases src.len() - i,
    {
        out.push(src[i]);
        i = i + 1;
    }
    assert(out@ =~= old(out)@ + src@);
}

/// Appends the wire bytes of one compiled instruction.
fn push_instruction(out: &mut Vec<u8>, c: &CompiledInstruction)
    requires
        c@.accounts.len() <= 0xFFFF,
        c@.data.len() <= 0xFFFF,
    ensures
        final(out)@ == old(out)@ + enc_instruction(c@),
{
    out.push(c.program_id_index);
    push_cu16(out, c.accounts.len());
    push_bytes(out, &c.accounts);
    push_cu16(out, c.data.len());
    push_bytes(out, &c.data);
    assert(out@ =~= old(out)@ + enc_instruction(c@));
}

/// Serializes a message to its wire bytes.
pub fn serialize_message(m: &Message) -> (r: Vec<u8>)
    requires
        m.wf(),
    ensures
        r@ == enc_message(m@),
{
    let mut out: Vec<u8> = Vec::new();
    out.push(m.header.num_required_signatures);
    out.push(m.header.num_readonly_signed_accounts);
    out.push(m.header.num_readonly_unsigned_accounts);
    push_cu16(&mut out, m.account_keys.len());
    let ghost keys_view = m@.account_keys;
    let ghost base = out@;
    let mut i: usize = 0;
    while i < m.account_keys.len()
        invariant
            i <= m.account_keys@.len(),
            keys_view == m@.account_keys,
            keys_view.len() == m.account_keys@.len(),
            forall|k: int| 0 <= k < keys_view.len() ==> keys_view[k] == m.account_keys@[k]@,
            out@ == base + concat_bytes(keys_view.subrange(0, i as int)),
        decreases m.account_keys@.len() - i,
    {
        proof {
            lemma_concat_bytes_step(keys_view, i as int);
        }
        push_bytes(&mut out, &m.account_keys[i].bytes);
        i = i + 1;
    }
    proof {
        lemma_concat_bytes_all(keys_view);
    }
    push_bytes(&mut out, &m.recent_blockhash.bytes);
    push_cu16(&mut out, m.instructions.len());
    let ghost ix_view = m@.instructions;
    let ghost ix_enc = m@.instructions.map_values(|c: CompiledInstructionView| enc_instruction(c));
    let ghost base2 = out@;
    proof {
        assert(forall|k: int|
            0 <= k < ix_view.len() ==> crate::message::wf_instruction_view(
                #[trigger] ix_view[k],
            ));
    }
    let mut j: usize = 0;
    while j < m.instructions.len()
        invariant
            j <= m.instructions@.len(),
            ix_view == m@.instructions,
            ix_enc == m@.instructions.map_values(|c: CompiledInstructionView| enc_instruction(c)),
            ix_enc.len() == m.instructions@.len(),
            ix_view.len() == m.instructions@.len(),
            forall|k: int| 0 <= k < ix_view.len() ==> #[trigger] ix_view[k] == m.instructions@[k]@,
            forall|k: int|
                0 <= k < ix_enc.len() ==> ix_enc[k] == enc_instruction(m.instructions@[k]@),
            forall|k: int|
                0 <= k < ix_view.len() ==> crate::message::wf_instruction_view(
                    #[trigger] ix_view[k],
                ),
            out@ == base2 + concat_bytes(ix_enc.subrange(0, j as int)),
        decreases m.instructions@.len() - j,
    {
        proof {
            lemma_concat_bytes_step(ix_enc, j as int);
        }
        push_instruction(&mut out, &m.instructions[j]);
        j = j + 1;
    }
    proof {
        lemma_concat_bytes_all(ix_enc);
    }
    assert(out@ =~= enc_message(m@));
    out
}

/// Serializes a transaction to its wire bytes.
pub fn serialize_transaction(t: &Transaction) -> (r: Vec<u8>)
    requires
        t.wf(),
    ensures
        r@ == enc_transaction(t@),
{
    let mut out: Vec<u8> = Vec::new();
    push_cu16(&mut out, t.signatures.len());
    let ghost sigs_view = t@.signatures;
    let ghost base = out@;
    let mut i: usize = 0;
    while i < t.signatures.len()
        invariant
            i <= t.signatures@.len(),
            sigs_view == t@.signatures,
            sigs_view.len() == t.signatures@.len(),
            forall|k: int| 0 <= k < sigs_view.len() ==> sigs_view[k] == t.signatures@[k]@,
            out@ == base + concat_bytes(sigs_view.subrange(0, i as int)),
        decreases t.signatures@.len() - i,
    {
        proof {
            lemma_concat_bytes_step(sigs_view, i as int);
        }
        push_bytes(&mut out, &t.signatures[i].bytes);
        i = i + 1;
    }
    proof {
        lemma_concat_bytes_all(sigs_view);
    }
    let msg_bytes = serialize_message(&t.message);
    push_bytes(&mut out, &msg_bytes);
    assert(out@ =~= enc_transaction(t@));
    out
}

/// What reading a compact length at `pos` yields: the value and the
/// position after it, or nothing when the bytes are absent, non-minimal
/// (an aliased zero continuation), or continue past the third byte.
pub open spec fn dec_cu16(s: Seq<u8>, pos: int) -> Option<(int, int)> {
    if !(0 <= pos < s.len()) {
        None
    } else {
        let b0 = s[pos] as int;
        if b0 < 0x80 {
            Some((b0, pos + 1))
        } else if pos + 1 >= s.len() {
            None
        } else {
            let b1 = s[pos + 1] as int;
            if b1 == 0 {
                None
            } else if b1 < 0x80 {
                Some((b0 - 0x80 + b1 * 0x80, pos + 2))
            } else if pos + 2 >= s.len() {
                None
            } else {
                let b2 = s[pos + 2] as int;
                if 1 <= b2 && b2 <= 3 {
                    Some((b0 - 0x80 + (b1 - 0x80) * 0x80 + b2 * 0x4000, pos + 3))
                } else {
                    None
                }
            }
        }
    }
}

/// What reading `width` raw bytes at `pos` yields.
pub open spec fn dec_fixed(s: Seq<u8>, pos: int, width: int) -> Option<(Seq<u8>, int)> {
    if 0 <= pos && 0 <= width && pos + width <= s.len() {
        Some((s.subrange(pos, pos + width), pos + width))
    } else {
        None
    }
}

/// What reading `count` fixed-width byte strings at `pos` yields.
pub open spec fn dec_fixed_list(s: Seq<u8>, pos: int, count: int, width: int) -> Option<
    (Seq<Seq<u8>>, int),
> {
    if 0 <= pos && 0 <= count && 0 < width && pos + count * width <= s.len() {
        Some(
            (
                Seq::new(
                    count as nat,
                    |i: int| s.subrange(pos + i * width, pos + (i + 1) * width),
                ),
                pos + count * width,
            ),
        )
    } else {
        None
    }
}

/// What reading one compiled instruction at `pos` yields.
pub open spec fn dec_instruction(s: Seq<u8>, pos: int) -> Option<(CompiledInstructionView, int)> {
    if !(0 <= pos < s.len()) {
        None
    } else {
        let pid = s[pos];
        match dec_cu16(s, pos + 1) {
            None => None,
            Some((na, p1)) => match dec_fixed(s, p1, na) {
                None => None,
                Some((accounts, p2)) => match dec_cu16(s, p2) {
                    None => None,
                    Some((nd, p3)) => match dec_fixed(s, p3, nd) {
                        None => None,
                        Some((data, p4)) => Some(
                            (
                                CompiledInstructionView { program_id_index: pid, accounts, data },
                                p4,
                            ),
                        ),
                    },
                },
            },
        }
    }
}

/// What reading `count` compiled instructions at `pos` yields.
pub open spec fn dec_instruction_list(s: Seq<u8>, pos: int, count: int) -> Option<
    (Seq<CompiledInstructionView>, int),
>
    decreases count,
{
    if count <= 0 {
        if 0 <= pos <= s.len() {
            Some((Seq::empty(), pos))
        } else {
            None
        }
    } else {
        match dec_instruction(s, pos) {
            None => None,
            Some((c, p1)) => match dec_instruction_list(s, p1, count - 1) {
                None => None,
                Some((rest, p2)) => Some((seq![c] + rest, p2)),
            },
        }
    }
}

/// What reading a message at `pos` yields.
pub open spec fn dec_message(s: Seq<u8>, pos: int) -> Option<(MessageView, int)> {
    if !(0 <= pos && pos + 3 <= s.len()) {
        None
    } else {
        let header = MessageHeader {
            num_required_signatures: s[pos],
            num_readonly_signed_accounts: s[pos + 1],
            num_readonly_unsigned_accounts: s[pos + 2],
        };
        match dec_cu16(s, pos + 3) {
            None => None,
            Some((nkeys, p1)) => match dec_fixed_list(s, p1, nkeys, ADDRESS_LEN as int) {
                None => None,
                Some((account_keys, p2)) => match dec_fixed(s, p2, BLOCKHASH_LEN as int) {
                    None => None,
                    Some((recent_blockhash, p3)) => match dec_cu16(s, p3) {
                        None => None,
                        Some((nix, p4)) => match dec_instruction_list(s, p4, nix) {
                            None => None,
                            Some((instructions, p5)) => Some(
                                (
                                    MessageView {
                                        header,
                                        account_keys,
                                        recent_blockhash,
                                        instructions,
                                    },
                                    p5,
                                ),
                            ),
                        },
                    },
                },
            },
        }
    }
}

/// What reading a transaction at `pos` yields.
pub open spec fn dec_transaction(s: Seq<u8>, pos: int) -> Option<(TransactionView, int)> {
    match dec_cu16(s, pos) {
        None => None,
        Some((nsigs, p1)) => match dec_fixed_list(s, p1, nsigs, SIGNATURE_LEN as int) {
            None => None,
            Some((signatures, p2)) => match dec_message(s, p2) {
                None => None,
                Some((message, p3)) => Some((TransactionView { signatures, message }, p3)),
            },
        },
    }
}

/// What deserializing a whole byte string yields: a transaction that parses
/// exactly to the end and is structurally well formed.
pub open spec fn parse_transaction_bytes(s: Seq<u8>) -> Option<TransactionView> {
    match dec_transaction(s, 0) {
        None => None,
        Some((tv, p)) => if p == s.len() && wf_transaction_view(tv) {
            Some(tv)
        } else {
            None
        },
    }
}

/// The bytes of a part stand unchanged inside a located whole.
proof fn lemma_subrange_chunk(s: Seq<u8>, pos: int, whole: Seq<u8>, off: int, part: Seq<u8>)
    requires
        0 <= pos,
        pos + whole.len() <= s.len(),
        s.subrange(pos, pos + whole.len()) == whole,
        0 <= off,
        off + part.len() <= whole.len(),
        forall|j: int| 0 <= j < part.len() ==> whole[off + j] == part[j],
    ensures
        s.subrange(pos + off, pos + off + part.len()) == part,
{
    let sub = s.subrange(pos + off, pos + off + part.len());
    assert forall|j: int| 0 <= j < part.len() implies sub[j] == part[j] by {
        assert(s.subrange(pos, pos + whole.len())[off + j] == s[pos + off + j]);
    }
    assert(sub =~= part);
}

/// Reading a compact length back from its own encoding yields the length.
proof fn lemma_dec_cu16_enc(s: Seq<u8>, pos: int, n: int)
    requires
        0 <= n <= 0xFFFF,
        0 <= pos,
        pos + enc_cu16(n).len() <= s.len(),
        s.subrange(pos, pos + enc_cu16(n).len()) == enc_cu16(n),
    ensures
        dec_cu16(s, pos) == Some((n, pos + enc_cu16(n).len())),
{
    let e = enc_cu16(n);
    let sub = s.subrange(pos, pos + e.len());
    assert(sub[0] == s[pos]);
    if e.len() >= 2 {
        assert(sub[1] == s[pos + 1]);
    }
    if e.len() >= 3 {
        assert(sub[2] == s[pos + 2]);
    }
    if n < 0x80 {
        assert(s[pos] == n as u8);
    } else if n < 0x4000 {
        vstd::arithmetic::div_mod::lemma_fundamental_div_mod(n, 0x80);
        assert(s[pos] == (n % 0x80 + 0x80) as u8);
        assert(s[pos + 1] == (n / 0x80) as u8);
        assert(n / 0x80 >= 1 && n / 0x80 < 0x80) by (nonlinear_arith)
            requires
                0x80 <= n < 0x4000,
        ;
    } else {
        let q = n / 0x80;
        vstd::arithmetic::div_mod::lemma_fundamental_div_mod(n, 0x80);
        vstd::arithmetic::div_mod::lemma_fundamental_div_mod(q, 0x80);
        assert(n / 0x4000 == q / 0x80) by (nonlinear_arith)
            requires
                q == n / 0x80,
                n >= 0,
        ;
        assert(s[pos] == (n % 0x80 + 0x80) as u8);
        assert(s[pos + 1] == ((n / 0x80) % 0x80 + 0x80) as u8);
        assert(s[pos + 2] == (n / 0x4000) as u8);
        assert(n / 0x4000 >= 1 && n / 0x4000 <= 3) by (nonlinear_arith)
            requires
                0x4000 <= n <= 0xFFFF,
        ;
        assert(q % 0x80 + 0x80 >= 0x80);
        let b0 = s[pos] as int;
        let b1 = s[pos + 1] as int;
        let b2 = s[pos + 2] as int;
        assert(b0 - 0x80 + (b1 - 0x80) * 0x80 + b2 * 0x4000 == n % 0x80 + (q % 0x80) * 0x80 + (q
            / 0x80) * 0x4000);
        assert(n % 0x80 + (q % 0x80) * 0x80 + (q / 0x80) * 0x4000 == n) by (nonlinear_arith)
            requires
                n == 0x80 * q + n % 0x80,
                q == 0x80 * (q / 0x80) + q % 0x80,
        ;
    }
}

/// All elements of a uniform-width list lie at their offsets inside the
/// concatenation, whose length is the count times the width.
proof fn lemma_concat_uniform(l: Seq<Seq<u8>>, w: int)
    requires
        w > 0,
        forall|k: int| 0 <= k < l.len() ==> (#[trigger] l[k]).len() == w,
    ensures
        concat_bytes(l).len() == l.len() * w,
        forall|k: int|
            0 <= k < l.len() ==> concat_bytes(l).subrange(k * w, (k + 1) * w) == #[trigger] l[k],
    decreases l.len(),
{
    if l.len() == 0 {
    } else {
        let front = l.drop_last();
        lemma_concat_uniform(front, w);
        assert(concat_bytes(l) == concat_bytes(front) + l.last());
        assert(concat_bytes(l).len() == (l.len() - 1) * w + w);
        assert((l.len() - 1) * w + w == l.len() * w) by (nonlinear_arith);
        assert forall|k: int|
            0 <= k < l.len() implies concat_bytes(l).subrange(k * w, (k + 1) * w)
            == #[trigger] l[k] by {
            assert(k * w >= 0 && (k + 1) * w <= l.len() * w && k * w < (k + 1) * w)
                by (nonlinear_arith)
                requires
                    0 <= k < l.len(),
                    w > 0,
            ;
            if k < l.len() - 1 {
                assert((k + 1) * w <= (l.len() - 1) * w) by (nonlinear_arith)
                    requires
                        k + 1 <= l.len() - 1,
                        w > 0,
                ;
                assert(front[k] == l[k]);
                assert(concat_bytes(front).subrange(k * w, (k + 1) * w) == front[k]);
                assert(concat_bytes(l).subrange(k * w, (k + 1) * w) =~= concat_bytes(
                    front,
                ).subrange(k * w, (k + 1) * w));
            } else {
                assert(k == l.len() - 1);
                assert(k * w == concat_bytes(front).len());
                assert(concat_bytes(l).subrange(k * w, (k + 1) * w) =~= l.last());
            }
        }
    }
}

/// Reading a uniform-width list back from its own encoding yields the list.
proof fn lemma_dec_fixed_list_enc(s: Seq<u8>, pos: int, l: Seq<Seq<u8>>, w: int)
    requires
        w > 0,
        0 <= pos,
        forall|k: int| 0 <= k < l.len() ==> (#[trigger] l[k]).len() == w,
        pos + concat_bytes(l).len() <= s.len(),
        s.subrange(pos, pos + concat_bytes(l).len()) == concat_bytes(l),
    ensures
        dec_fixed_list(s, pos, l.len() as int, w) == Some((l, pos + l.len() * w)),
{
    lemma_concat_uniform(l, w);
    let count = l.len() as int;
    assert(pos + count * w <= s.len());
    let parsed = Seq::new(count as nat, |i: int| s.subrange(pos + i * w, pos + (i + 1) * w));
    assert forall|k: int| 0 <= k < count implies parsed[k] == l[k] by {
        assert(k * w >= 0 && (k + 1) * w <= count * w) by (nonlinear_arith)
            requires
                0 <= k < count,
                w > 0,
        ;
        assert((k + 1) * w == k * w + w) by (nonlinear_arith);
        assert(concat_bytes(l).subrange(k * w, (k + 1) * w) == l[k]);
        assert forall|j: int| 0 <= j < l[k].len() implies concat_bytes(l)[k * w + j]
            == l[k][j] by {
            assert(concat_bytes(l).subrange(k * w, (k + 1) * w)[j] == concat_bytes(l)[k * w + j]);
        }
        lemma_subrange_chunk(s, pos, concat_bytes(l), k * w, l[k]);
        assert(pos + k * w + l[k].len() == pos + (k + 1) * w) by (nonlinear_arith)
            requires
                l[k].len() == w,
        ;
    }
    assert(parsed =~= l);
}

/// A part located inside a whole by its subrange stands at the same offset
/// within the enclosing byte string.
proof fn lemma_chunk_at(s: Seq<u8>, pos: int, whole: Seq<u8>, off: int, part: Seq<u8>)
    requires
        0 <= pos,
        pos + whole.len() <= s.len(),
        s.subrange(pos, pos + whole.len()) == whole,
        0 <= off,
        off + part.len() <= whole.len(),
        whole.subrange(off, off + part.len()) == part,
    ensures
        s.subrange(pos + off, pos + off + part.len()) == part,
{
    assert forall|j: int| 0 <= j < part.len() implies whole[off + j] == part[j] by {
        assert(whole.subrange(off, off + part.len())[j] == whole[off + j]);
    }
    lemma_subrange_chunk(s, pos, whole, off, part);
}

/// The concatenation decomposes at its first element.
proof fn lemma_concat_bytes_first(l: Seq<Seq<u8>>)
    requires
        l.len() > 0,
    ensures
        concat_bytes(l) == l[0] + concat_bytes(l.drop_first()),
    decreases l.len(),
{
    if l.len() == 1 {
        assert(l.drop_last() =~= Seq::<Seq<u8>>::empty());
        assert(l.drop_first() =~= Seq::<Seq<u8>>::empty());
        assert(concat_bytes(l) == concat_bytes(l.drop_last()) + l.last());
        assert(Seq::<u8>::empty() + l[0] =~= l[0]);
        assert(l[0] + Seq::<u8>::empty() =~= l[0]);
    } else {
        let front = l.drop_last();
        lemma_concat_bytes_first(front);
        assert(front[0] == l[0]);
        assert(front.drop_first() =~= l.drop_first().drop_last());
        assert(concat_bytes(l) == (l[0] + concat_bytes(l.drop_first().drop_last())) + l.last());
        assert(l.drop_first().last() == l.last());
        assert(concat_bytes(l.drop_first()) == concat_bytes(l.drop_first().drop_last())
            + l.drop_first().last());
        assert((l[0] + concat_bytes(l.drop_first().drop_last())) + l.last() =~= l[0] + (concat_bytes(
            l.drop_first().drop_last(),
        ) + l.last()));
    }
}

/// Reading one instruction back from its own encoding yields it.
proof fn lemma_dec_instruction_enc(s: Seq<u8>, pos: int, c: CompiledInstructionView)
    requires
        crate::message::wf_instruction_view(c),
        0 <= pos,
        pos + enc_instruction(c).len() <= s.len(),
        s.subrange(pos, pos + enc_instruction(c).len()) == enc_instruction(c),
    ensures
        dec_instruction(s, pos) == Some((c, pos + enc_instruction(c).len())),
{
    let e = enc_instruction(c);
    let e_na = enc_cu16(c.accounts.len() as int);
    let e_nd = enc_cu16(c.data.len() as int);
    let o1: int = 1;
    let o2 = o1 + e_na.len() as int;
    let o3 = o2 + c.accounts.len() as int;
    let o4 = o3 + e_nd.len() as int;
    let total = o4 + c.data.len() as int;
    assert(e.len() == total);
    assert(s.subrange(pos, pos + e.len())[0] == s[pos]);
    assert(e[0] == c.program_id_index);
    assert(e.subrange(o1, o1 + e_na.len()) =~= e_na);
    lemma_chunk_at(s, pos, e, o1, e_na);
    lemma_dec_cu16_enc(s, pos + o1, c.accounts.len() as int);
    assert(dec_cu16(s, pos + 1) == Some((c.accounts.len() as int, pos + o2)));
    assert(e.subrange(o2, o2 + c.accounts.len()) =~= c.accounts);
    lemma_chunk_at(s, pos, e, o2, c.accounts);
    assert(dec_fixed(s, pos + o2, c.accounts.len() as int) == Some((c.accounts, pos + o3)));
    assert(e.subrange(o3, o3 + e_nd.len()) =~= e_nd);
    lemma_chunk_at(s, pos, e, o3, e_nd);
    lemma_dec_cu16_enc(s, pos + o3, c.data.len() as int);
    assert(dec_cu16(s, pos + o3) == Some((c.data.len() as int, pos + o4)));
    assert(e.subrange(o4, o4 + c.data.len()) =~= c.data);
    lemma_chunk_at(s, pos, e, o4, c.data);
    assert(dec_fixed(s, pos + o4, c.data.len() as int) == Some((c.data, pos + total)));
}

/// Reading an instruction list back from its own encoding yields the list.
proof fn lemma_dec_instruction_list_enc(s: Seq<u8>, pos: int, cs: Seq<CompiledInstructionView>)
    requires
        forall|k: int|
            0 <= k < cs.len() ==> crate::message::wf_instruction_view(#[trigger] cs[k]),
        0 <= pos,
        pos + concat_bytes(cs.map_values(|c: CompiledInstructionView| enc_instruction(c))).len()
            <= s.len(),
        s.subrange(
            pos,
            pos + concat_bytes(
                cs.map_values(|c: CompiledInstructionView| enc_instruction(c)),
            ).len(),
        ) == concat_bytes(cs.map_values(|c: CompiledInstructionView| enc_instruction(c))),
    ensures
        dec_instruction_list(s, pos, cs.len() as int) == Some(
            (
                cs,
                pos + concat_bytes(
                    cs.map_values(|c: CompiledInstructionView| enc_instruction(c)),
                ).len(),
            ),
        ),
    decreases cs.len(),
{
    let m = cs.map_values(|c: CompiledInstructionView| enc_instruction(c));
    if cs.len() == 0 {
        assert(m.len() == 0);
        assert(concat_bytes(m).len() == 0);
        assert(dec_instruction_list(s, pos, 0) == Some((Seq::<CompiledInstructionView>::empty(), pos)));
        assert(cs =~= Seq::<CompiledInstructionView>::empty());
    } else {
        lemma_concat_bytes_first(m);
        let e0 = enc_instruction(cs[0]);
        assert(m[0] == e0);
        let rest_bytes = concat_bytes(m.drop_first());
        assert(concat_bytes(m) == e0 + rest_bytes);
        assert(concat_bytes(m).subrange(0, e0.len() as int) =~= e0);
        lemma_chunk_at(s, pos, concat_bytes(m), 0, e0);
        assert(s.subrange(pos, pos + e0.len()) == e0);
        lemma_dec_instruction_enc(s, pos, cs[0]);
        let p1 = pos + e0.len() as int;
        assert(dec_instruction(s, pos) == Some((cs[0], p1)));
        let rest = cs.drop_first();
        assert(rest.map_values(|c: CompiledInstructionView| enc_instruction(c)) =~= m.drop_first());
        assert(concat_bytes(m).subrange(e0.len() as int, (e0.len() + rest_bytes.len()) as int) =~= rest_bytes);
        lemma_chunk_at(s, pos, concat_bytes(m), e0.len() as int, rest_bytes);
        lemma_dec_instruction_list_enc(s, p1, rest);
        let end = p1 + rest_bytes.len() as int;
        assert(dec_instruction_list(s, p1, rest.len() as int) == Some((rest, end)));
        assert(dec_instruction_list(s, pos, cs.len() as int) == Some((seq![cs[0]] + rest, end)));
        assert(seq![cs[0]] + rest =~= cs);
        assert(end == pos + concat_bytes(m).len());
    }
}

/// Reading a message back from its own encoding yields it.
proof fn lemma_dec_message_enc(s: Seq<u8>, pos: int, m: MessageView)
    requires
        crate::message::wf_message_view(m),
        0 <= pos,
        pos + enc_message(m).len() <= s.len(),
        s.subrange(pos, pos + enc_message(m).len()) == enc_message(m),
    ensures
        dec_message(s, pos) == Some((m, pos + enc_message(m).len())),
{
    let e = enc_message(m);
    let e_nk = enc_cu16(m.account_keys.len() as int);
    let keys_bytes = concat_bytes(m.account_keys);
    let e_ni = enc_cu16(m.instructions.len() as int);
    let ix_bytes = concat_bytes(
        m.instructions.map_values(|c: CompiledInstructionView| enc_instruction(c)),
    );
    let o1: int = 3;
    let o2 = o1 + e_nk.len() as int;
    let o3 = o2 + keys_bytes.len() as int;
    let o4 = o3 + BLOCKHASH_LEN as int;
    let o5 = o4 + e_ni.len() as int;
    let total = o5 + ix_bytes.len() as int;
    assert(e.len() == total);
    let sub = s.subrange(pos, pos + e.len());
    assert(sub[0] == s[pos]);
    assert(sub[1] == s[pos + 1]);
    assert(sub[2] == s[pos + 2]);
    assert(e[0] == m.header.num_required_signatures);
    assert(e[1] == m.header.num_readonly_signed_accounts);
    assert(e[2] == m.header.num_readonly_unsigned_accounts);
    assert(e.subrange(o1, o1 + e_nk.len()) =~= e_nk);
    lemma_chunk_at(s, pos, e, o1, e_nk);
    lemma_dec_cu16_enc(s, pos + o1, m.account_keys.len() as int);
    assert(dec_cu16(s, pos + 3) == Some((m.account_keys.len() as int, pos + o2)));
    assert(e.subrange(o2, o2 + keys_bytes.len()) =~= keys_bytes);
    lemma_chunk_at(s, pos, e, o2, keys_bytes);
    lemma_dec_fixed_list_enc(s, pos + o2, m.account_keys, ADDRESS_LEN as int);
    lemma_concat_uniform(m.account_keys, ADDRESS_LEN as int);
    assert(dec_fixed_list(s, pos + o2, m.account_keys.len() as int, ADDRESS_LEN as int) == Some(
        (m.account_keys, pos + o3),
    ));
    assert(e.subrange(o3, o3 + BLOCKHASH_LEN as int) =~= m.recent_blockhash);
    lemma_chunk_at(s, pos, e, o3, m.recent_blockhash);
    assert(dec_fixed(s, pos + o3, BLOCKHASH_LEN as int) == Some((m.recent_blockhash, pos + o4)));
    assert(e.subrange(o4, o4 + e_ni.len()) =~= e_ni);
    lemma_chunk_at(s, pos, e, o4, e_ni);
    lemma_dec_cu16_enc(s, pos + o4, m.instructions.len() as int);
    assert(dec_cu16(s, pos + o4) == Some((m.instructions.len() as int, pos + o5)));
    assert(e.subrange(o5, o5 + ix_bytes.len()) =~= ix_bytes);
    lemma_chunk_at(s, pos, e, o5, ix_bytes);
    lemma_dec_instruction_list_enc(s, pos + o5, m.instructions);
    assert(dec_instruction_list(s, pos + o5, m.instructions.len() as int) == Some(
        (m.instructions, pos + total),
    ));
}

/// Reading a transaction back from its own encoding yields it.
proof fn lemma_dec_transaction_enc(s: Seq<u8>, pos: int, t: TransactionView)
    requires
        wf_transaction_view(t),
        0 <= pos,
        pos + enc_transaction(t).len() <= s.len(),
        s.subrange(pos, pos + enc_transaction(t).len()) == enc_transaction(t),
    ensures
        dec_transaction(s, pos) == Some((t, pos + enc_transaction(t).len())),
{
    let e = enc_transaction(t);
    let e_ns = enc_cu16(t.signatures.len() as int);
    let sig_bytes = concat_bytes(t.signatures);
    let msg_bytes = enc_message(t.message);
    let o1 = e_ns.len() as int;
    let o2 = o1 + sig_bytes.len() as int;
    let total = o2 + msg_bytes.len() as int;
    assert(e.len() == total);
    assert(e.subrange(0, o1) =~= e_ns);
    lemma_chunk_at(s, pos, e, 0, e_ns);
    lemma_dec_cu16_enc(s, pos, t.signatures.len() as int);
    assert(dec_cu16(s, pos) == Some((t.signatures.len() as int, pos + o1)));
    assert(e.subrange(o1, o1 + sig_bytes.len()) =~= sig_bytes);
    lemma_chunk_at(s, pos, e, o1, sig_bytes);
    lemma_dec_fixed_list_enc(s, pos + o1, t.signatures, SIGNATURE_LEN as int);
    lemma_concat_uniform(t.signatures, SIGNATURE_LEN as int);
    assert(dec_fixed_list(s, pos + o1, t.signatures.len() as int, SIGNATURE_LEN as int) == Some(
        (t.signatures, pos + o2),
    ));
    assert(e.subrange(o2, o2 + msg_bytes.len()) =~= msg_bytes);
    lemma_chunk_at(s, pos, e, o2, msg_bytes);
    lemma_dec_message_enc(s, pos + o2, t.message);
    assert(dec_message(s, pos + o2) == Some((t.message, pos + total)));
}

/// The wire format round-trips losslessly: deserializing the serialization
/// of any well-formed transaction yields that transaction back, exactly.
pub proof fn lemma_transaction_round_trip(t: TransactionView)
    requires
        wf_transaction_view(t),
    ensures
        parse_transaction_bytes(enc_transaction(t)) == Some(t),
{
    let s = enc_transaction(t);
    assert(s.subrange(0, s.len() as int) =~= s);
    lemma_dec_transaction_enc(s, 0, t);
}

/// Reads a compact length at `pos`.
fn decode_cu16(data: &Vec<u8>, pos: usize) -> (r: Option<(usize, usize)>)
    ensures
        r is Some <==> dec_cu16(data@, pos as int) is Some,
        r matches Some((v, p)) ==> dec_cu16(data@, pos as int) == Some((v as int, p as int)) && v
            <= 0xFFFF && pos < p <= data@.len(),
{
    if pos >= data.len() {
        return None;
    }
    let b0 = data[pos] as usize;
    if b0 < 0x80 {
        return Some((b0, pos + 1));
    }
    if pos + 1 >= data.len() {
        return None;
    }
    let b1 = data[pos + 1] as usize;
    if b1 == 0 {
        return None;
    }
    if b1 < 0x80 {
        return Some((b0 - 0x80 + b1 * 0x80, pos + 2));
    }
    if pos + 2 >= data.len() {
        return None;
    }
    let b2 = data[pos + 2] as usize;
    if 1 <= b2 && b2 <= 3 {
        Some((b0 - 0x80 + (b1 - 0x80) * 0x80 + b2 * 0x4000, pos + 3))
    } else {
        None
    }
}

/// Reads `width` raw bytes at `pos`.
fn decode_fixed(data: &Vec<u8>, pos: usize, width: usize) -> (r: Option<(Vec<u8>, usize)>)
    ensures
        r is Some <==> dec_fixed(data@, pos as int, width as int) is Some,
        r matches Some((v, p)) ==> dec_fixed(data@, pos as int, width as int) == Some(
            (v@, p as int),
        ) && p <= data@.len() && v@.len() == width,
{
    let n: usize = data.len();
    if pos > n || width > n - pos {
        return None;
    }
    let mut out: Vec<u8> = Vec::new();
    let mut i: usize = 0;
    while i < width
        invariant
            i <= width,
            n == data@.len(),
            pos + width <= n,
            out@ =~= data@.subrange(pos as int, pos + i),
        decreases width - i,
    {
        out.push(data[pos + i]);
        i = i + 1;
    }
    assert(out@ =~= data@.subrange(pos as int, pos + width));
    Some((out, pos + width))
}

/// Reads `count` 32-byte account keys at `pos`.
fn decode_address_list(data: &Vec<u8>, pos: usize, count: usize) -> (r: Option<
    (Vec<Address>, usize),
>)
    ensures
        r is Some <==> dec_fixed_list(data@, pos as int, count as int, ADDRESS_LEN as int) is Some,
        r matches Some((keys, p)) ==> dec_fixed_list(
            data@,
            pos as int,
            count as int,
            ADDRESS_LEN as int,
        ) == Some((keys@.map_values(|a: Address| a@), p as int)) && p <= data@.len() && keys@.len()
            == count && (forall|k: int| 0 <= k < keys@.len() ==> (#[trigger] keys@[k]).wf()),
{
    let ghost s = data@;
    if pos > data.len() {
        proof {
            assert((count as int) * (ADDRESS_LEN as int) >= 0) by (nonlinear_arith);
        }
        return None;
    }
    let mut keys: Vec<Address> = Vec::new();
    let mut p: usize = pos;
    let mut i: usize = 0;
    while i < count
        invariant
            i <= count,
            s == data@,
            p as int == pos + i * (ADDRESS_LEN as int),
            p <= s.len(),
            keys@.len() == i,
            forall|k: int|
                0 <= k < i ==> (#[trigger] keys@[k])@ =~= s.subrange(
                    pos + k * (ADDRESS_LEN as int),
                    pos + (k + 1) * (ADDRESS_LEN as int),
                ),
            forall|k: int| 0 <= k < i ==> (#[trigger] keys@[k])@.len() == ADDRESS_LEN,
        decreases count - i,
    {
        match decode_fixed(data, p, ADDRESS_LEN) {
            None => {
                proof {
                    assert(pos + (i + 1) * (ADDRESS_LEN as int) > s.len());
                    assert((i + 1) * (ADDRESS_LEN as int) <= count * (ADDRESS_LEN as int))
                        by (nonlinear_arith)
                        requires
                            i + 1 <= count,
                    ;
                }
                return None;
            },
            Some((bytes, p2)) => {
                keys.push(Address { bytes });
                p = p2;
                i = i + 1;
            },
        }
    }
    proof {
        assert(pos + count * (ADDRESS_LEN as int) <= s.len());
        let spec_keys = Seq::new(
            count as nat,
            |k: int|
                s.subrange(pos + k * (ADDRESS_LEN as int), pos + (k + 1) * (ADDRESS_LEN as int)),
        );
        assert(keys@.map_values(|a: Address| a@) =~= spec_keys);
    }
    Some((keys, p))
}

/// Reads `count` 64-byte signatures at `pos`.
fn decode_signature_list(data: &Vec<u8>, pos: usize, count: usize) -> (r: Option<
    (Vec<TxSignature>, usize),
>)
    ensures
        r is Some <==> dec_fixed_list(
            data@,
            pos as int,
            count as int,
            SIGNATURE_LEN as int,
        ) is Some,
        r matches Some((sigs, p)) ==> dec_fixed_list(
            data@,
            pos as int,
            count as int,
            SIGNATURE_LEN as int,
        ) == Some((sigs@.map_values(|a: TxSignature| a@), p as int)) && p <= data@.len()
            && sigs@.len() == count && (forall|k: int|
            0 <= k < sigs@.len() ==> (#[trigger] sigs@[k]).wf()),
{
    let ghost s = data@;
    if pos > data.len() {
        proof {
            assert((count as int) * (SIGNATURE_LEN as int) >= 0) by (nonlinear_arith);
        }
        return None;
    }
    let mut sigs: Vec<TxSignature> = Vec::new();
    let mut p: usize = pos;
    let mut i: usize = 0;
    while i < count
        invariant
            i <= count,
            s == data@,
            p as int == pos + i * (SIGNATURE_LEN as int),
            p <= s.len(),
            sigs@.len() == i,
            forall|k: int|
                0 <= k < i ==> (#[trigger] sigs@[k])@ =~= s.subrange(
                    pos + k * (SIGNATURE_LEN as int),
                    pos + (k + 1) * (SIGNATURE_LEN as int),
                ),
            forall|k: int| 0 <= k < i ==> (#[trigger] sigs@[k])@.len() == SIGNATURE_LEN,
        decreases count - i,
    {
        match decode_fixed(data, p, SIGNATURE_LEN) {
            None => {
                proof {
                    assert(pos + (i + 1) * (SIGNATURE_LEN as int) > s.len());
                    assert((i + 1) * (SIGNATURE_LEN as int) <= count * (SIGNATURE_LEN as int))
                        by (nonlinear_arith)
                        requires
                            i + 1 <= count,
                    ;
                }
                return None;
            },
            Some((bytes, p2)) => {
                sigs.push(TxSignature { bytes });
                p = p2;
                i = i + 1;
            },
        }
    }
    proof {
        assert(pos + count * (SIGNATURE_LEN as int) <= s.len());
        let spec_sigs = Seq::new(
            count as nat,
            |k: int|
                s.subrange(
                    pos + k * (SIGNATURE_LEN as int),
                    pos + (k + 1) * (SIGNATURE_LEN as int),
                ),
        );
        assert(sigs@.map_values(|a: TxSignature| a@) =~= spec_sigs);
    }
    Some((sigs, p))
}

/// Reads one compiled instruction at `pos`.
fn decode_instruction(data: &Vec<u8>, pos: usize) -> (r: Option<(CompiledInstruction, usize)>)
    ensures
        r is Some <==> dec_instruction(data@, pos as int) is Some,
        r matches Some((c, p)) ==> dec_instruction(data@, pos as int) == Some((c@, p as int)) && p
            <= data@.len() && pos < p,
{
    if pos >= data.len() {
        return None;
    }
    let program_id_index = data[pos];
    let (na, p1) = match decode_cu16(data, pos + 1) {
        None => {
            return None;
        },
        Some(v) => v,
    };
    let (accounts, p2) = match decode_fixed(data, p1, na) {
        None => {
            return None;
        },
        Some(v) => v,
    };
    let (nd, p3) = match decode_cu16(data, p2) {
        None => {
            return None;
        },
        Some(v) => v,
    };
    let (ix_data, p4) = match decode_fixed(data, p3, nd) {
        None => {
            return None;
        },
        Some(v) => v,
    };
    Some((CompiledInstruction { program_id_index, accounts, data: ix_data }, p4))
}

/// Reads `count` compiled instructions at `pos`.
fn decode_instruction_list(data: &Vec<u8>, pos: usize, count: usize) -> (r: Option<
    (Vec<CompiledInstruction>, usize),
>)
    ensures
        r is Some <==> dec_instruction_list(data@, pos as int, count as int) is Some,
        r matches Some((l, p)) ==> dec_instruction_list(data@, pos as int, count as int) == Some(
            (l@.map_values(|c: CompiledInstruction| c@), p as int),
        ) && p <= data@.len() && l@.len() == count && pos <= p,
    decreases count,
{
    if count == 0 {
        if pos > data.len() {
            return None;
        }
        let l: Vec<CompiledInstruction> = Vec::new();
        proof {
            assert(l@.map_values(|c: CompiledInstruction| c@) =~= Seq::<
                CompiledInstructionView,
            >::empty());
        }
        return Some((l, pos));
    }
    let (c, p1) = match decode_instruction(data, pos) {
        None => {
            return None;
        },
        Some(v) => v,
    };
    let (mut rest, p2) = match decode_instruction_list(data, p1, count - 1) {
        None => {
            return None;
        },
        Some(v) => v,
    };
    let ghost rest_view = rest@;
    rest.insert(0, c);
    proof {
        assert(rest@ =~= seq![c] + rest_view);
        assert(rest@.map_values(|x: CompiledInstruction| x@) =~= seq![c@] + rest_view.map_values(
            |x: CompiledInstruction| x@,
        ));
    }
    Some((rest, p2))
}

/// Reads a message at `pos`.
fn decode_message(data: &Vec<u8>, pos: usize) -> (r: Option<(Message, usize)>)
    ensures
        r is Some <==> dec_message(data@, pos as int) is Some,
        r matches Some((m, p)) ==> dec_message(data@, pos as int) == Some((m@, p as int)) && p
            <= data@.len(),
{
    let n: usize = data.len();
    if pos > n || 3 > n - pos {
        return None;
    }
    let header = MessageHeader {
        num_required_signatures: data[pos],
        num_readonly_signed_accounts: data[pos + 1],
        num_readonly_unsigned_accounts: data[pos + 2],
    };
    let (nkeys, p1) = match decode_cu16(data, pos + 3) {
        None => {
            return None;
        },
        Some(v) => v,
    };
    let (account_keys, p2) = match decode_address_list(data, p1, nkeys) {
        None => {
            return None;
        },
        Some(v) => v,
    };
    let (bh_bytes, p3) = match decode_fixed(data, p2, BLOCKHASH_LEN) {
        None => {
            return None;
        },
        Some(v) => v,
    };
    let (nix, p4) = match decode_cu16(data, p3) {
        None => {
            return None;
        },
        Some(v) => v,
    };
    let (instructions, p5) = match decode_instruction_list(data, p4, nix) {
        None => {
            return None;
        },
        Some(v) => v,
    };
    let m = Message {
        header,
        account_keys,
        recent_blockhash: Blockhash { bytes: bh_bytes },
        instructions,
    };
    Some((m, p5))
}

/// Reads a transaction at `pos`.
fn decode_transaction(data: &Vec<u8>, pos: usize) -> (r: Option<(Transaction, usize)>)
    ensures
        r is Some <==> dec_transaction(data@, pos as int) is Some,
        r matches Some((t, p)) ==> dec_transaction(data@, pos as int) == Some((t@, p as int)) && p
            <= data@.len(),
{
    let (nsigs, p1) = match decode_cu16(data, pos) {
        None => {
            return None;
        },
        Some(v) => v,
    };
    let (signatures, p2) = match decode_signature_list(data, p1, nsigs) {
        None => {
            return None;
        },
        Some(v) => v,
    };
    let (message, p3) = match decode_message(data, p2) {
        None => {
            return None;
        },
        Some(v) => v,
    };
    Some((Transaction { signatures, message }, p3))
}

/// Decides structural well-formedness of a transaction.
pub fn transaction_is_wf(t: &Transaction) -> (r: bool)
    ensures
        r == t.wf(),
{
    let nkeys = t.message.account_keys.len();
    let req = t.message.header.num_required_signatures as usize;
    if t.message.recent_blockhash.bytes.len() != BLOCKHASH_LEN {
        return false;
    }
    if nkeys > 0xFF {
        return false;
    }
    if req > nkeys {
        return false;
    }
    if t.message.header.num_readonly_signed_accounts as usize > req {
        return false;
    }
    if t.message.header.num_readonly_unsigned_accounts as usize > nkeys - req {
        return false;
    }
    if t.signatures.len() != req {
        return false;
    }
    let mut i: usize = 0;
    while i < nkeys
        invariant
            nkeys == t.message.account_keys@.len(),
            i <= nkeys,
            forall|k: int|
                0 <= k < i ==> (#[trigger] t.message.account_keys@[k])@.len() == ADDRESS_LEN,
        decreases nkeys - i,
    {
        if t.message.account_keys[i].bytes.len() != ADDRESS_LEN {
            proof {
                assert(t.message@.account_keys[i as int] == t.message.account_keys@[i as int]@);
            }
            return false;
        }
        i = i + 1;
    }
    let nsigs = t.signatures.len();
    let mut si: usize = 0;
    while si < nsigs
        invariant
            nsigs == t.signatures@.len(),
            si <= nsigs,
            forall|k: int| 0 <= k < si ==> (#[trigger] t.signatures@[k])@.len() == SIGNATURE_LEN,
        decreases nsigs - si,
    {
        if t.signatures[si].bytes.len() != SIGNATURE_LEN {
            proof {
                assert(t@.signatures[si as int] == t.signatures@[si as int]@);
            }
            return false;
        }
        si = si + 1;
    }
    let nix = t.message.instructions.len();
    if nix > 0xFFFF {
        return false;
    }
    let mut j: usize = 0;
    while j < nix
        invariant
            nix == t.message.instructions@.len(),
            nkeys == t.message.account_keys@.len(),
            j <= nix,
            forall|k: int|
                0 <= k < j ==> crate::message::wf_instruction_view(
                    (#[trigger] t.message.instructions@[k])@,
                ),
            forall|k: int|
                0 <= k < j ==> ((#[trigger] t.message.instructions@[k])@.program_id_index as int)
                    < nkeys,
            forall|k: int, l: int|
                0 <= k < j && 0 <= l < t.message.instructions@[k]@.accounts.len() ==> ((
                #[trigger] t.message.instructions@[k]@.accounts[l]) as int) < nkeys,
        decreases nix - j,
    {
        proof {
            assert(t.message@.instructions[j as int] == t.message.instructions@[j as int]@);
        }
        if t.message.instructions[j].accounts.len() > 0xFFFF || t.message.instructions[j].data.len()
            > 0xFFFF {
            return false;
        }
        if t.message.instructions[j].program_id_index as usize >= nkeys {
            return false;
        }
        let nacc = t.message.instructions[j].accounts.len();
        let mut l: usize = 0;
        while l < nacc
            invariant
                nkeys == t.message.account_keys@.len(),
                0 <= j < t.message.instructions@.len(),
                nacc == t.message.instructions@[j as int].accounts@.len(),
                l <= nacc,
                forall|k: int|
                    0 <= k < l ==> ((#[trigger] t.message.instructions@[j as int].accounts@[k])
                        as int) < nkeys,
            decreases nacc - l,
        {
            if t.message.instructions[j].accounts[l] as usize >= nkeys {
                proof {
                    assert(t.message@.instructions[j as int] == t.message.instructions@[j as int]@);
                }
                return false;
            }
            l = l + 1;
        }
        j = j + 1;
    }
    proof {
        assert(forall|k: int|
            0 <= k < t.message@.account_keys.len() ==> (#[trigger] t.message@.account_keys[k])
                == t.message.account_keys@[k]@);
        assert(forall|k: int|
            0 <= k < t.message@.instructions.len() ==> (#[trigger] t.message@.instructions[k])
                == t.message.instructions@[k]@);
        assert(forall|k: int|
            0 <= k < t@.signatures.len() ==> (#[trigger] t@.signatures[k]) == t.signatures@[k]@);
        assert(crate::message::wf_message_view(t.message@));
    }
    true
}

/// Parses base-wire transaction bytes: the whole input must be consumed
/// and the result must be structurally well formed — stricter than the
/// plain wire grammar, which also admits, say, a signature count that
/// disagrees with the header — else the deserialization fails.
pub fn deserialize_transaction_bytes(data: &Vec<u8>) -> (r: Result<Transaction, ServiceError>)
    ensures
        r is Ok <==> parse_transaction_bytes(data@) is Some,
        r matches Ok(t) ==> parse_transaction_bytes(data@) == Some(t@) && t.wf(),
{
    match decode_transaction(data, 0) {
        None => Err(
            ServiceError::Web3Error(
                Web3ErrorType::Custom(String::from_str("Failed to deserialize transaction")),
            ),
        ),
        Some((t, p)) => {
            if p != data.len() {
                return Err(
                    ServiceError::Web3Error(
                        Web3ErrorType::Custom(
                            String::from_str("Failed to deserialize transaction"),
                        ),
                    ),
                );
            }
            if !transaction_is_wf(&t) {
                return Err(
                    ServiceError::Web3Error(
                        Web3ErrorType::Custom(
                            String::from_str("Failed to deserialize transaction"),
                        ),
                    ),
                );
            }
            Ok(t)
        },
    }
}

} // verus!



