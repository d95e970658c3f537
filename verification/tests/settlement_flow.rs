use settlement_engine::account::{Address, Blockhash, TxSignature};
use settlement_engine::custody::{create_wallet, decode_keypair, Keypair};
use settlement_engine::errors::{ServiceError, Web3ErrorType};
use settlement_engine::indexer::{Indexer, PollDecision, SearchStep, SignatureStatusEntry, TxStatusMeta};
use settlement_engine::payment::{CreatePaymentDto, PaymentService};
use settlement_engine::store::{PaymentCategory, PaymentStore, TransferStatus, TransferStore};
use settlement_engine::web3::verify_transaction_signature;

fn fresh_address_string() -> String {
    let kp = solana_keypair::Keypair::new();
    solana_keypair::Signer::pubkey(&kp).to_string()
}

fn fresh_address() -> Address {
    let kp = solana_keypair::Keypair::new();
    Address::from_bytes(solana_keypair::Signer::pubkey(&kp).to_bytes().to_vec()).unwrap()
}

fn operator() -> Keypair {
    let (blob, secret, _address) = create_wallet().unwrap();
    decode_keypair(&blob, &secret).unwrap()
}

fn token_program_address() -> Address {
    Address::from_bytes(spl_token::ID.to_bytes().to_vec()).unwrap()
}

fn signature_of(entry: &Option<TxSignature>) -> Option<Vec<u8>> {
    entry.as_ref().map(|s| s.bytes.clone())
}

struct Flow {
    payments: PaymentStore,
    transfers: TransferStore,
    op: Keypair,
    sender: String,
    receiver: String,
    mint: String,
    reference: Address,
    encoded: String,
}

/// Runs the request path: one payment of a million base units, one
/// pending transfer, one built transaction.
fn start_flow() -> Flow {
    let mut payments = PaymentStore::new();
    let dto = CreatePaymentDto {
        title: String::from("coffee"),
        description: String::from("one bag"),
        amount: 1_000_000,
        category: PaymentCategory::OneTime,
    };
    PaymentService::create(&mut payments, 42, dto, 1, 7, 1_700_000_000).unwrap();

    let mut transfers = TransferStore::new();
    let op = operator();
    let sender = fresh_address_string();
    let receiver = fresh_address_string();
    let mint = fresh_address_string();
    let treasury = fresh_address_string();
    let reference = fresh_address();
    let blockhash = Blockhash::from_bytes(vec![9u8; 32]).unwrap();
    let encoded = PaymentService::create_transfer(
        &payments,
        &mut transfers,
        7,
        &sender,
        &receiver,
        &mint,
        &reference,
        &op,
        &treasury,
        &token_program_address(),
        &blockhash,
        1,
        1_700_000_001,
    )
    .unwrap();
    Flow { payments, transfers, op, sender, receiver, mint, reference, encoded }
}

#[test]
fn end_to_end_completed_settlement() {
    let mut flow = start_flow();

    // The transfer sits Pending with no signature.
    let row = flow.transfers.find_by_reference(&flow.reference).unwrap();
    assert_eq!(row.status, TransferStatus::Pending);
    assert!(row.signature.is_none());
    assert_eq!(row.payment_id, 1);

    // The built transaction splits one million base units into the fee
    // and the forwarded remainder.
    let tx = settlement_engine::web3::deserialize_transaction(&flow.encoded).unwrap();
    let main_ix = Indexer::decompile_instruction(
        &tx.message.instructions[tx.message.instructions.len() - 1],
        &tx.message,
    )
    .unwrap();
    let (_data, _rem, amount) = Indexer::decode_transfer_instruction_data(&main_ix).unwrap();
    assert_eq!(amount, 990_000);
    let fee_ix = Indexer::decompile_instruction(&tx.message.instructions[0], &tx.message).unwrap();
    let (_d, _r, fee) = Indexer::decode_transfer_instruction_data(&fee_ix).unwrap();
    assert_eq!(fee, 10_000);

    // A matching ledger entry appears: the receiver sub-account (second
    // account of the transfer instruction) gains the forwarded amount.
    let meta = TxStatusMeta {
        err: false,
        pre_balances: vec![0, 5],
        post_balances: vec![0, 990_005],
    };
    let receiver_addr = settlement_engine::trusted::parse_address(&flow.receiver).unwrap();
    let mint_addr = settlement_engine::trusted::parse_address(&flow.mint).unwrap();
    let status = Indexer::validate_payment(
        &tx,
        &meta,
        &flow.op.address,
        &receiver_addr,
        &mint_addr,
        &flow.reference,
        990_000,
    )
    .unwrap();
    assert_eq!(status, TransferStatus::Completed);

    // The terminal write sets status and signature together.
    let found_sig = TxSignature::from_bytes(vec![3u8; 64]).unwrap();
    Indexer::record_outcome(&mut flow.transfers, &flow.reference, status, found_sig);
    let row = flow.transfers.find_by_reference(&flow.reference).unwrap();
    assert_eq!(row.status, TransferStatus::Completed);
    assert_eq!(signature_of(&row.signature), Some(vec![3u8; 64]));
}

#[test]
fn verifier_rejects_foreign_fee_payer() {
    let flow = start_flow();
    let tx = settlement_engine::web3::deserialize_transaction(&flow.encoded).unwrap();
    // Reference, destination and amount all match; only the payer is wrong.
    let meta = TxStatusMeta {
        err: false,
        pre_balances: vec![0, 0],
        post_balances: vec![0, 990_000],
    };
    let receiver_addr = settlement_engine::trusted::parse_address(&flow.receiver).unwrap();
    let mint_addr = settlement_engine::trusted::parse_address(&flow.mint).unwrap();
    let impostor = fresh_address();
    let r = Indexer::validate_transfer(
        &tx,
        &meta,
        &impostor,
        &receiver_addr,
        &mint_addr,
        &flow.reference,
        990_000,
    );
    assert!(matches!(
        r,
        Err(ServiceError::Web3Error(Web3ErrorType::ValidateTransferError(_)))
    ));
}

#[test]
fn verifier_rejects_short_delta_and_failed_execution() {
    let flow = start_flow();
    let tx = settlement_engine::web3::deserialize_transaction(&flow.encoded).unwrap();
    let receiver_addr = settlement_engine::trusted::parse_address(&flow.receiver).unwrap();
    let mint_addr = settlement_engine::trusted::parse_address(&flow.mint).unwrap();

    // Delta below the expected amount fails.
    let short = TxStatusMeta {
        err: false,
        pre_balances: vec![0, 0],
        post_balances: vec![0, 989_999],
    };
    assert!(Indexer::validate_transfer(
        &tx,
        &short,
        &flow.op.address,
        &receiver_addr,
        &mint_addr,
        &flow.reference,
        990_000,
    )
    .is_err());

    // A ledger execution failure turns into Rejected, even though every
    // instruction-level check passes.
    let failed = TxStatusMeta {
        err: true,
        pre_balances: vec![0, 0],
        post_balances: vec![0, 990_000],
    };
    let status = Indexer::validate_payment(
        &tx,
        &failed,
        &flow.op.address,
        &receiver_addr,
        &mint_addr,
        &flow.reference,
        990_000,
    )
    .unwrap();
    assert_eq!(status, TransferStatus::Rejected);
}

#[test]
fn timeout_rejects_with_signature_unset() {
    let mut flow = start_flow();
    let outcome: Result<SignatureStatusEntry, ServiceError> =
        Err(ServiceError::Web3Error(Web3ErrorType::ReferenceError));
    assert_eq!(Indexer::poll_decision(60, &outcome), PollDecision::Timeout);
    assert_eq!(Indexer::poll_decision(61, &outcome), PollDecision::Timeout);
    Indexer::resolve_timeout(&mut flow.transfers, &flow.reference);
    let row = flow.transfers.find_by_reference(&flow.reference).unwrap();
    assert_eq!(row.status, TransferStatus::Rejected);
    assert!(row.signature.is_none());
}

#[test]
fn poll_decisions_cover_every_outcome() {
    let found: Result<SignatureStatusEntry, ServiceError> = Ok(SignatureStatusEntry {
        signature: TxSignature::from_bytes(vec![1u8; 64]).unwrap(),
        err: false,
    });
    assert_eq!(Indexer::poll_decision(5, &found), PollDecision::Validate);
    let transient: Result<SignatureStatusEntry, ServiceError> =
        Err(ServiceError::Web3Error(Web3ErrorType::ReferenceError));
    assert_eq!(Indexer::poll_decision(5, &transient), PollDecision::Retry);
    let fatal: Result<SignatureStatusEntry, ServiceError> =
        Err(ServiceError::Database(String::from("gone")));
    assert_eq!(Indexer::poll_decision(5, &fatal), PollDecision::Fail);
}

#[test]
fn search_steps_follow_page_shape() {
    let entry = |b: u8| SignatureStatusEntry {
        signature: TxSignature::from_bytes(vec![b; 64]).unwrap(),
        err: false,
    };
    let empty: Vec<SignatureStatusEntry> = vec![];
    assert!(matches!(
        Indexer::search_step(&empty, 1000, 0, 10),
        SearchStep::NotFound
    ));
    // A page under the ceiling is authoritative: its newest (first) entry.
    let page = vec![entry(1), entry(2)];
    match Indexer::search_step(&page, 1000, 0, 10) {
        SearchStep::Found(e) => assert_eq!(e.signature.bytes, vec![1u8; 64]),
        _ => panic!("expected a match"),
    }
    // A full page continues from its oldest (last) entry.
    let full: Vec<SignatureStatusEntry> = (0..4).map(|i| entry(i as u8)).collect();
    match Indexer::search_step(&full, 4, 0, 10) {
        SearchStep::Continue { cursor, candidate } => {
            assert_eq!(cursor.bytes, vec![3u8; 64]);
            assert_eq!(candidate.signature.bytes, vec![0u8; 64]);
        },
        _ => panic!("expected a deeper walk"),
    }
    // The page ceiling caps the walk: the last allowed page is
    // authoritative even when full.
    match Indexer::search_step(&full, 4, 9, 10) {
        SearchStep::Found(e) => assert_eq!(e.signature.bytes, vec![0u8; 64]),
        _ => panic!("expected the capped page to resolve"),
    }
}

#[test]
fn terminal_update_is_idempotent() {
    let mut flow = start_flow();
    let sig = TxSignature::from_bytes(vec![8u8; 64]).unwrap();
    Indexer::record_outcome(
        &mut flow.transfers,
        &flow.reference,
        TransferStatus::Completed,
        sig,
    );
    let after_once: Vec<_> = flow
        .transfers
        .rows
        .iter()
        .map(|r| (r.id, r.reference_key.bytes.clone(), r.status, signature_of(&r.signature)))
        .collect();
    let sig = TxSignature::from_bytes(vec![8u8; 64]).unwrap();
    Indexer::record_outcome(
        &mut flow.transfers,
        &flow.reference,
        TransferStatus::Completed,
        sig,
    );
    let after_twice: Vec<_> = flow
        .transfers
        .rows
        .iter()
        .map(|r| (r.id, r.reference_key.bytes.clone(), r.status, signature_of(&r.signature)))
        .collect();
    assert_eq!(after_once, after_twice);
}

#[test]
fn submit_transfer_accepts_cosigned_transaction() {
    let flow = start_flow();
    let mut tx = settlement_engine::web3::deserialize_transaction(&flow.encoded).unwrap();

    // A partially signed transaction (the sender slot still zeroed) is
    // refused.
    assert!(verify_transaction_signature(&tx, &flow.op.address).is_err());

    // The flow uses a random sender address nobody holds a key for, so
    // co-sign a fresh transaction built around a known sender keypair.
    let sender_kp = solana_keypair::Keypair::new();
    let sender = solana_keypair::Signer::pubkey(&sender_kp).to_string();
    let mut payments = PaymentStore::new();
    let dto = CreatePaymentDto {
        title: String::from("book"),
        description: String::new(),
        amount: 2_000_000,
        category: PaymentCategory::OneTime,
    };
    PaymentService::create(&mut payments, 1, dto, 9, 11, 0).unwrap();
    let mut transfers = TransferStore::new();
    let reference = fresh_address();
    let encoded = PaymentService::create_transfer(
        &payments,
        &mut transfers,
        11,
        &sender,
        &flow.receiver,
        &flow.mint,
        &reference,
        &flow.op,
        &fresh_address_string(),
        &token_program_address(),
        &Blockhash::from_bytes(vec![5u8; 32]).unwrap(),
        3,
        0,
    )
    .unwrap();
    tx = settlement_engine::web3::deserialize_transaction(&encoded).unwrap();
    let message_bytes = settlement_engine::codec::serialize_message(&tx.message);
    let sender_bytes = solana_keypair::Signer::pubkey(&sender_kp).to_bytes();
    let slot = tx
        .message
        .account_keys
        .iter()
        .position(|k| k.bytes.as_slice() == sender_bytes.as_slice())
        .unwrap();
    let sig = solana_keypair::Signer::sign_message(&sender_kp, &message_bytes);
    tx.signatures[slot] = TxSignature::from_bytes(sig.as_ref().to_vec()).unwrap();

    assert!(verify_transaction_signature(&tx, &flow.op.address).is_ok());
    // A wallet outside the signer set is refused.
    assert!(matches!(
        verify_transaction_signature(&tx, &fresh_address()),
        Err(ServiceError::Web3Error(Web3ErrorType::InvalidSigner))
    ));

    let bytes = settlement_engine::codec::serialize_transaction(&tx);
    let cosigned = base64::Engine::encode(&base64::engine::general_purpose::STANDARD, &bytes);
    let (accepted, got_reference) = PaymentService::submit_transfer(
        &payments,
        &transfers,
        &cosigned,
        11,
        &flow.op.address,
    )
    .unwrap();
    assert_eq!(got_reference.bytes, reference.bytes);

    let broadcast_sig = TxSignature::from_bytes(accepted.signatures[0].bytes.clone()).unwrap();
    PaymentService::submit_transfer_finalize(&mut transfers, &got_reference, broadcast_sig);
    let row = transfers.find_by_reference(&reference).unwrap();
    assert_eq!(row.status, TransferStatus::Completed);
    assert!(row.signature.is_some());
}

#[test]
fn terminal_row_is_immutable_under_later_writes() {
    let mut flow = start_flow();
    let sig = TxSignature::from_bytes(vec![6u8; 64]).unwrap();
    Indexer::record_outcome(
        &mut flow.transfers,
        &flow.reference,
        TransferStatus::Completed,
        sig,
    );
    // A stale indexer hitting its timeout later must not overwrite the
    // fresher terminal state.
    Indexer::resolve_timeout(&mut flow.transfers, &flow.reference);
    let row = flow.transfers.find_by_reference(&flow.reference).unwrap();
    assert_eq!(row.status, TransferStatus::Completed);
    assert_eq!(signature_of(&row.signature), Some(vec![6u8; 64]));
}

#[test]
fn create_transfer_refuses_a_reused_reference() {
    let flow = start_flow();
    let mut payments = flow.payments;
    let mut transfers = flow.transfers;
    let dto = CreatePaymentDto {
        title: String::from("tea"),
        description: String::new(),
        amount: 5,
        category: PaymentCategory::OneTime,
    };
    PaymentService::create(&mut payments, 42, dto, 2, 8, 0).unwrap();
    let rows_before = transfers.rows.len();
    let r = PaymentService::create_transfer(
        &payments,
        &mut transfers,
        8,
        &flow.sender,
        &flow.receiver,
        &flow.mint,
        &flow.reference,
        &flow.op,
        &fresh_address_string(),
        &token_program_address(),
        &Blockhash::from_bytes(vec![2u8; 32]).unwrap(),
        2,
        0,
    );
    assert!(r.is_err());
    assert_eq!(transfers.rows.len(), rows_before);
}
