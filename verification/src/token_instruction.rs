//! Wire codec for the token program's transfer instruction family.
//!
//! Two variants are understood: a basic transfer (tag 3: amount as eight
//! little-endian bytes) and a checked transfer (tag 12: amount, then a
//! decimal count). Decoding is closed, tag-dispatched, and rejects every
//! other shape as unsupported.

use vstd::prelude::*;

use crate::errors::{ServiceError, Web3ErrorType};

verus! {

/// The instruction tag of a basic transfer.
pub const TRANSFER_TAG: u8 = 3;

/// The instruction tag of a checked transfer.
pub const TRANSFER_CHECKED_TAG: u8 = 12;

/// The eight little-endian bytes of `v`.
pub open spec fn u64_le_bytes(v: u64) -> Seq<u8> {
    seq![
        (v & 0xff) as u8,
        ((v >> 8) & 0xff) as u8,
        ((v >> 16) & 0xff) as u8,
        ((v >> 24) & 0xff) as u8,
        ((v >> 32) & 0xff) as u8,
        ((v >> 40) & 0xff) as u8,
        ((v >> 48) & 0xff) as u8,
        ((v >> 56) & 0xff) as u8,
    ]
}

/// The value read back from eight little-endian bytes.
pub open spec fn u64_from_le_bytes(s: Seq<u8>) -> u64
    recommends
        s.len() >= 8,
{
    (s[0] as u64) | ((s[1] as u64) << 8) | ((s[2] as u64) << 16) | ((s[3] as u64) << 24) | ((
    s[4] as u64) << 32) | ((s[5] as u64) << 40) | ((s[6] as u64) << 48) | ((s[7] as u64) << 56)
}

/// Reading back the little-endian bytes of `v` yields `v`.
pub proof fn lemma_u64_le_round_trip(v: u64)
    ensures
        u64_from_le_bytes(u64_le_bytes(v)) == v,
{
    let b = u64_le_bytes(v);
    assert(b[0] == (v & 0xff) as u8);
    assert(b[1] == ((v >> 8) & 0xff) as u8);
    assert(b[2] == ((v >> 16) & 0xff) as u8);
    assert(b[3] == ((v >> 24) & 0xff) as u8);
    assert(b[4] == ((v >> 32) & 0xff) as u8);
    assert(b[5] == ((v >> 40) & 0xff) as u8);
    assert(b[6] == ((v >> 48) & 0xff) as u8);
    assert(b[7] == ((v >> 56) & 0xff) as u8);
    assert((((v & 0xff) as u8) as u64) | (((((v >> 8) & 0xff) as u8) as u64) << 8) | (((((v >> 16)
        & 0xff) as u8) as u64) << 16) | (((((v >> 24) & 0xff) as u8) as u64) << 24) | (((((v >> 32)
        & 0xff) as u8) as u64) << 32) | (((((v >> 40) & 0xff) as u8) as u64) << 40) | (((((v >> 48)
        & 0xff) as u8) as u64) << 48) | (((((v >> 56) & 0xff) as u8) as u64) << 56) == v)
        by (bit_vector);
}

/// The payload of a decoded transfer-family instruction.
#[derive(Debug, Clone, Copy, PartialEq, Eq, Structural)]
pub enum TokenInstructionData {
    /// Basic transfer: the mint is implicit.
    Transfer { amount: u64 },
    /// Checked transfer: the mint account and its decimal count are explicit.
    TransferChecked { amount: u64, decimals: u8 },
}

/// The byte encoding of a transfer-family instruction payload.
pub open spec fn token_instruction_bytes(ix: TokenInstructionData) -> Seq<u8> {
    match ix {
        TokenInstructionData::Transfer { amount } => seq![TRANSFER_TAG] + u64_le_bytes(amount),
        TokenInstructionData::TransferChecked { amount, decimals } => seq![TRANSFER_CHECKED_TAG]
            + u64_le_bytes(amount) + seq![decimals],
    }
}

/// What decoding a raw payload yields: the recognized transfer variant, or
/// nothing for any other instruction shape. Trailing bytes after a variant's
/// fixed fields are ignored, as the token program itself ignores them.
pub open spec fn parse_token_instruction(data: Seq<u8>) -> Option<TokenInstructionData> {
    if data.len() >= 9 && data[0] == TRANSFER_TAG {
        Some(TokenInstructionData::Transfer { amount: u64_from_le_bytes(data.subrange(1, 9)) })
    } else if data.len() >= 10 && data[0] == TRANSFER_CHECKED_TAG {
        Some(
            TokenInstructionData::TransferChecked {
                amount: u64_from_le_bytes(data.subrange(1, 9)),
                decimals: data[9],
            },
        )
    } else {
        None
    }
}

impl TokenInstructionData {
    /// The transferred amount of either variant.
    pub open spec fn amount(&self) -> u64 {
        match self {
            TokenInstructionData::Transfer { amount } => *amount,
            TokenInstructionData::TransferChecked { amount, .. } => *amount,
        }
    }

    /// Serializes the payload to its wire bytes.
    pub fn pack(&self) -> (r: Vec<u8>)
        ensures
            r@ == token_instruction_bytes(*self),
    {
        let mut out: Vec<u8> = Vec::new();
        match self {
            TokenInstructionData::Transfer { amount } => {
                out.push(TRANSFER_TAG);
                push_u64_le(&mut out, *amount);
                assert(out@ =~= token_instruction_bytes(*self));
            },
            TokenInstructionData::TransferChecked { amount, decimals } => {
                out.push(TRANSFER_CHECKED_TAG);
                push_u64_le(&mut out, *amount);
                out.push(*decimals);
                assert(out@ =~= token_instruction_bytes(*self));
            },
        }
        out
    }

    /// Decodes a raw instruction payload, failing with an unsupported-
    /// instruction error on every shape but the two transfer variants.
    pub fn unpack(data: &Vec<u8>) -> (r: Result<TokenInstructionData, ServiceError>)
        ensures
            r matches Ok(ix) ==> parse_token_instruction(data@) == Some(ix),
            r is Err <==> parse_token_instruction(data@) is None,
            r matches Err(e) ==> e matches ServiceError::Web3Error(
                Web3ErrorType::UnsupportedInstruction,
            ),
    {
        if data.len() >= 9 && data[0] == TRANSFER_TAG {
            let amount = read_u64_le(data, 1);
            Ok(TokenInstructionData::Transfer { amount })
        } else if data.len() >= 10 && data[0] == TRANSFER_CHECKED_TAG {
            let amount = read_u64_le(data, 1);
            let decimals = data[9];
            Ok(TokenInstructionData::TransferChecked { amount, decimals })
        } else {
            Err(ServiceError::Web3Error(Web3ErrorType::UnsupportedInstruction))
        }
    }
}

/// Appends the eight little-endian bytes of `v`.
pub fn push_u64_le(out: &mut Vec<u8>, v: u64)
    ensures
        final(out)@ == old(out)@ + u64_le_bytes(v),
{
    out.push((v & 0xff) as u8);
    out.push(((v >> 8) & 0xff) as u8);
    out.push(((v >> 16) & 0xff) as u8);
    out.push(((v >> 24) & 0xff) as u8);
    out.push(((v >> 32) & 0xff) as u8);
    out.push(((v >> 40) & 0xff) as u8);
    out.push(((v >> 48) & 0xff) as u8);
    out.push(((v >> 56) & 0xff) as u8);
    assert(out@ =~= old(out)@ + u64_le_bytes(v));
}

/// Reads eight little-endian bytes starting at `pos`.
pub fn read_u64_le(data: &Vec<u8>, pos: usize) -> (r: u64)
    requires
        pos + 8 <= data@.len(),
    ensures
        r == u64_from_le_bytes(data@.subrange(pos as int, pos + 8)),
{
    let n: usize = data.len();
    assert(pos + 8 <= n);
    let r = (data[pos] as u64) | ((data[pos + 1] as u64) << 8) | ((data[pos + 2] as u64) << 16) | ((
    data[pos + 3] as u64) << 24) | ((data[pos + 4] as u64) << 32) | ((data[pos + 5] as u64) << 40)
        | ((data[pos + 6] as u64) << 48) | ((data[pos + 7] as u64) << 56);
    proof {
        let s = data@.subrange(pos as int, pos + 8);
        assert(s[0] == data@[pos as int]);
        assert(s[1] == data@[pos + 1]);
        assert(s[2] == data@[pos + 2]);
        assert(s[3] == data@[pos + 3]);
        assert(s[4] == data@[pos + 4]);
        assert(s[5] == data@[pos + 5]);
        assert(s[6] == data@[pos + 6]);
        assert(s[7] == data@[pos + 7]);
    }
    r
}

/// Encoding a transfer-family payload and decoding it again recovers the
/// identical variant and fields.
pub proof fn lemma_token_instruction_round_trip(ix: TokenInstructionData)
    ensures
        parse_token_instruction(token_instruction_bytes(ix)) == Some(ix),
{
    let data = token_instruction_bytes(ix);
    match ix {
        TokenInstructionData::Transfer { amount } => {
            assert(data.subrange(1, 9) =~= u64_le_bytes(amount));
            lemma_u64_le_round_trip(amount);
        },
        TokenInstructionData::TransferChecked { amount, decimals } => {
            assert(data[0] != TRANSFER_TAG) by {
                assert(TRANSFER_CHECKED_TAG != TRANSFER_TAG);
            }
            assert(data.subrange(1, 9) =~= u64_le_bytes(amount));
            lemma_u64_le_round_trip(amount);
            assert(data[9] == decimals);
        },
    }
}

} // verus!
