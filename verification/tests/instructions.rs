use settlement_engine::account::Address;
use settlement_engine::fees::split_fee;
use settlement_engine::indexer::Indexer;
use settlement_engine::instruction::{AccountRef, Instruction};
use settlement_engine::token_instruction::TokenInstructionData;

#[test]
fn fee_split_exact_for_one_million() {
    let (fee, after) = split_fee(1_000_000).unwrap();
    assert_eq!(fee, 10_000);
    assert_eq!(after, 990_000);
    assert_eq!(fee + after, 1_000_000);
}

#[test]
fn fee_split_edges() {
    assert_eq!(split_fee(0).unwrap(), (0, 0));
    assert_eq!(split_fee(99).unwrap(), (0, 99));
    assert_eq!(split_fee(100).unwrap(), (1, 99));
    assert_eq!(split_fee(101).unwrap(), (1, 100));
    let (fee, after) = split_fee(u64::MAX).unwrap();
    assert_eq!(fee, u64::MAX / 100);
    assert_eq!(fee + after, u64::MAX);
}

#[test]
fn transfer_instruction_round_trip() {
    let ix = TokenInstructionData::Transfer { amount: 123_456_789 };
    let packed = ix.pack();
    let unpacked = TokenInstructionData::unpack(&packed).unwrap();
    assert_eq!(unpacked, ix);
}

#[test]
fn transfer_checked_instruction_round_trip() {
    let ix = TokenInstructionData::TransferChecked { amount: 42, decimals: 6 };
    let packed = ix.pack();
    let unpacked = TokenInstructionData::unpack(&packed).unwrap();
    assert_eq!(unpacked, ix);
}

#[test]
fn transfer_pack_matches_token_program_wire_format() {
    let amount: u64 = 987_654_321;
    let mine = TokenInstructionData::Transfer { amount }.pack();
    let theirs = spl_token::instruction::TokenInstruction::Transfer { amount }.pack();
    assert_eq!(mine, theirs);

    let mine = TokenInstructionData::TransferChecked { amount, decimals: 9 }.pack();
    let theirs = spl_token::instruction::TokenInstruction::TransferChecked { amount, decimals: 9 }
        .pack();
    assert_eq!(mine, theirs);
}

#[test]
fn unpack_rejects_unsupported_shapes() {
    // An empty payload.
    assert!(TokenInstructionData::unpack(&vec![]).is_err());
    // A different variant tag (burn).
    let mut burn = vec![8u8];
    burn.extend_from_slice(&7u64.to_le_bytes());
    assert!(TokenInstructionData::unpack(&burn).is_err());
    // A transfer cut short.
    let short = vec![3u8, 1, 2, 3];
    assert!(TokenInstructionData::unpack(&short).is_err());
    // A checked transfer missing its decimals byte.
    let mut checked_short = vec![12u8];
    checked_short.extend_from_slice(&1u64.to_le_bytes());
    assert!(TokenInstructionData::unpack(&checked_short).is_err());
}

#[test]
fn checked_transfer_decodes_with_explicit_mint() {
    let addr = |b: u8| Address::from_bytes(vec![b; 32]).unwrap();
    let account = |b: u8| AccountRef { pubkey: addr(b), is_signer: false, is_writable: false };
    let instruction = Instruction {
        program_id: addr(9),
        accounts: vec![account(1), account(2), account(3), account(4), account(5)],
        data: settlement_engine::token_instruction::TokenInstructionData::TransferChecked {
            amount: 555,
            decimals: 6,
        }
        .pack(),
    };
    let (data, rem, amount) = Indexer::decode_transfer_instruction_data(&instruction).unwrap();
    assert_eq!(amount, 555);
    assert_eq!(data.source.bytes, vec![1u8; 32]);
    assert_eq!(data.mint.unwrap().bytes, vec![2u8; 32]);
    assert_eq!(data.destination.bytes, vec![3u8; 32]);
    assert_eq!(data.authority.bytes, vec![4u8; 32]);
    assert_eq!(rem.len(), 1);
    assert_eq!(rem[0].pubkey.bytes, vec![5u8; 32]);
}
