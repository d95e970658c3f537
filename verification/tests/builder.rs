use settlement_engine::account::{Address, Blockhash};
use settlement_engine::custody::{create_wallet, decode_keypair, Keypair};
use settlement_engine::indexer::Indexer;
use settlement_engine::message::Transaction;
use settlement_engine::web3::create_transfer_transaction;
use std::str::FromStr;

fn fresh_address_string() -> String {
    let kp = solana_keypair::Keypair::new();
    solana_keypair::Signer::pubkey(&kp).to_string()
}

fn fresh_address() -> Address {
    let kp = solana_keypair::Keypair::new();
    Address::from_bytes(solana_keypair::Signer::pubkey(&kp).to_bytes().to_vec()).unwrap()
}

fn operator() -> Keypair {
    let (blob, secret, _address) = create_wallet().unwrap();
    decode_keypair(&blob, &secret).unwrap()
}

fn token_program_address() -> Address {
    Address::from_bytes(spl_token::ID.to_bytes().to_vec()).unwrap()
}

fn blockhash() -> Blockhash {
    Blockhash::from_bytes(vec![7u8; 32]).unwrap()
}

fn build(amount: u64) -> (Transaction, Keypair, String, String, String, Address) {
    let op = operator();
    let sender = fresh_address_string();
    let receiver = fresh_address_string();
    let mint = fresh_address_string();
    let treasury = fresh_address_string();
    let reference = fresh_address();
    let tx = create_transfer_transaction(
        &sender,
        &receiver,
        amount,
        &mint,
        &reference,
        &op,
        &treasury,
        &token_program_address(),
        &blockhash(),
    )
    .unwrap();
    (tx, op, sender, receiver, mint, reference)
}

#[test]
fn builder_fee_payer_is_operator() {
    let (tx, op, _, _, _, _) = build(1_000_000);
    assert_eq!(tx.message.account_keys[0].bytes, op.address.bytes);
    // The operator's signature fills the first slot; the sender's is open.
    assert!(tx.signatures[0].bytes.iter().any(|b| *b != 0));
}

#[test]
fn builder_splits_fee_and_tags_reference() {
    let (tx, _op, sender, receiver, mint, reference) = build(1_000_000);
    assert_eq!(tx.message.instructions.len(), 2);

    let fee_ix = Indexer::decompile_instruction(&tx.message.instructions[0], &tx.message).unwrap();
    let (_data, _rem, fee_amount) = Indexer::decode_transfer_instruction_data(&fee_ix).unwrap();
    assert_eq!(fee_amount, 10_000);

    let main_ix = Indexer::decompile_instruction(&tx.message.instructions[1], &tx.message)
        .unwrap();
    let (data, rem, main_amount) = Indexer::decode_transfer_instruction_data(&main_ix).unwrap();
    assert_eq!(main_amount, 990_000);
    assert!(rem.iter().any(|a| a.pubkey.bytes == reference.bytes));

    // The destinations are the derived token sub-accounts.
    let mint_pk = spl_token::solana_program::pubkey::Pubkey::from_str(&mint).unwrap();
    let sender_pk = spl_token::solana_program::pubkey::Pubkey::from_str(&sender).unwrap();
    let receiver_pk = spl_token::solana_program::pubkey::Pubkey::from_str(&receiver).unwrap();
    let sender_ata = spl_associated_token_account::get_associated_token_address(
        &sender_pk, &mint_pk,
    );
    let receiver_ata = spl_associated_token_account::get_associated_token_address(
        &receiver_pk, &mint_pk,
    );
    assert_eq!(data.source.bytes.as_slice(), sender_ata.to_bytes().as_slice());
    assert_eq!(data.destination.bytes.as_slice(), receiver_ata.to_bytes().as_slice());
    assert_eq!(data.authority.bytes.as_slice(), sender_pk.to_bytes().as_slice());
}

#[test]
fn builder_rejects_malformed_addresses() {
    let op = operator();
    let reference = fresh_address();
    let r = create_transfer_transaction(
        "not-an-address",
        &fresh_address_string(),
        5,
        &fresh_address_string(),
        &reference,
        &op,
        &fresh_address_string(),
        &token_program_address(),
        &blockhash(),
    );
    assert!(r.is_err());
}

#[test]
fn serialized_transaction_matches_ledger_wire_format() {
    let (tx, op, _, _, _, _) = build(77_000);
    let bytes = settlement_engine::codec::serialize_transaction(&tx);
    let decoded: solana_transaction::Transaction = bincode::deserialize(&bytes).unwrap();
    assert_eq!(
        decoded.message.account_keys[0].to_bytes().as_slice(),
        op.address.bytes.as_slice()
    );
    assert_eq!(decoded.message.instructions.len(), 2);
    let reencoded = bincode::serialize(&decoded).unwrap();
    assert_eq!(reencoded, bytes);
}

#[test]
fn transaction_codec_round_trips() {
    let (tx, _, _, _, _, _) = build(123_456);
    let bytes = settlement_engine::codec::serialize_transaction(&tx);
    let encoded = base64::Engine::encode(&base64::engine::general_purpose::STANDARD, &bytes);
    let back = settlement_engine::web3::deserialize_transaction(&encoded).unwrap();
    let bytes_again = settlement_engine::codec::serialize_transaction(&back);
    assert_eq!(bytes, bytes_again);
}

#[test]
fn deserialize_rejects_bad_input() {
    assert!(settlement_engine::web3::deserialize_transaction("@@@not-base64@@@").is_err());
    // Trailing garbage after a valid transaction is refused.
    let (tx, _, _, _, _, _) = build(9);
    let mut bytes = settlement_engine::codec::serialize_transaction(&tx);
    bytes.push(0);
    let encoded = base64::Engine::encode(&base64::engine::general_purpose::STANDARD, &bytes);
    assert!(settlement_engine::web3::deserialize_transaction(&encoded).is_err());
}

#[test]
fn reference_is_recoverable_from_built_transaction() {
    let (tx, _, _, _, _, reference) = build(4_242);
    let got = settlement_engine::web3::get_reference_from_transfer_transaction(&tx).unwrap();
    assert_eq!(got.bytes, reference.bytes);
}

#[test]
fn reference_account_is_non_signing_and_non_writable() {
    let (tx, _op, _sender, _receiver, _mint, reference) = build(31_415);
    let main_ix = Indexer::decompile_instruction(
        &tx.message.instructions[tx.message.instructions.len() - 1],
        &tx.message,
    )
    .unwrap();
    let (_data, rem, _amount) = Indexer::decode_transfer_instruction_data(&main_ix).unwrap();
    let tagged = rem
        .iter()
        .find(|a| a.pubkey.bytes == reference.bytes)
        .expect("the reference trails the transfer");
    assert!(!tagged.is_signer);
    assert!(!tagged.is_writable);
}
