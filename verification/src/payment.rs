//! The payment service: looking up payments, recording them, building the
//! fee-split transfer for one, and accepting a sender-signed transfer for
//! broadcast.

use vstd::prelude::*;

use crate::account::{Address, Blockhash, TxSignature};
use crate::custody::Keypair;
use crate::errors::{EntityId, MathErrorType, ServiceError, Web3ErrorType};
use crate::message::Transaction;
use crate::store::{
    terminal_update_rows, Payment, PaymentCategory, PaymentStore, TransferRecord, TransferStatus,
    TransferStore,
};
use crate::trusted::{b64_of, base58_decode_address};
use crate::web3::{
    all_signatures_valid, built_transfer_ok, create_transfer_transaction, deserialize_transaction,
    get_reference_from_transfer_transaction, has_signer, verify_transaction_signature,
};

verus! {

/// A new payment request.
pub struct CreatePaymentDto {
    pub title: String,
    pub description: String,
    pub amount: u64,
    pub category: PaymentCategory,
}

/// A request to build a transfer for a payment.
pub struct CreateTransferDto {
    pub payment_id: u128,
    pub sender_address: String,
}

/// A sender-signed transaction submitted for broadcast.
pub struct SubmitTransferDto {
    pub transaction: String,
    pub payment_id: u128,
}

/// The payment service; its state lives in the stores it is handed.
pub struct PaymentService;

impl PaymentService {
    /// Looks a payment up by its internal id.
    pub fn find_one(store: &PaymentStore, id: i32) -> (r: Result<&Payment, ServiceError>)
        ensures
            r is Ok <==> exists|i: int| 0 <= i < store@.len() && (#[trigger] store@[i]).id == id,
            r matches Ok(p) ==> exists|i: int|
                0 <= i < store@.len() && (#[trigger] store@[i]).id == id && p@ == store@[i] && (
                forall|k: int| 0 <= k < i ==> (#[trigger] store@[k]).id != id),
            r matches Err(e) ==> e matches ServiceError::EntityNotFound { .. },
    {
        match store.find_by_id(id) {
            Some(p) => Ok(p),
            None => Err(
                ServiceError::EntityNotFound { entity: "Payment", id: EntityId::Int(id) },
            ),
        }
    }

    /// Looks a payment up by its opaque public identifier.
    pub fn public_find_one(store: &PaymentStore, public_id: u128) -> (r: Result<
        &Payment,
        ServiceError,
    >)
        ensures
            r is Ok <==> exists|i: int|
                0 <= i < store@.len() && (#[trigger] store@[i]).public_id == public_id,
            r matches Ok(p) ==> exists|i: int|
                0 <= i < store@.len() && (#[trigger] store@[i]).public_id == public_id && p@
                    == store@[i] && (forall|k: int|
                    0 <= k < i ==> (#[trigger] store@[k]).public_id != public_id),
            r matches Err(e) ==> e matches ServiceError::EntityNotFound { .. },
    {
        match store.find_by_public_id(public_id) {
            Some(p) => Ok(p),
            None => Err(
                ServiceError::EntityNotFound { entity: "Payment", id: EntityId::Uid(public_id) },
            ),
        }
    }

    /// Records a new payment owned by the user: the requested amount must
    /// fit the store's signed column.
    pub fn create(
        store: &mut PaymentStore,
        user_id: i32,
        create_payment_dto: CreatePaymentDto,
        id: i32,
        public_id: u128,
        now: i64,
    ) -> (r: Result<Payment, ServiceError>)
        ensures
            r is Ok <==> create_payment_dto.amount <= i64::MAX,
            r matches Ok(p) ==> p.id == id && p.public_id == public_id && p@.title
                == create_payment_dto.title@ && p@.description == create_payment_dto.description@
                && p.category == create_payment_dto.category && p.amount
                == create_payment_dto.amount && p.created_at == now && p.user_id == user_id
                && final(store)@ == old(store)@.push(p@),
            r is Err ==> final(store)@ == old(store)@,
    {
        let amount: i64 = if create_payment_dto.amount <= i64::MAX as u64 {
            create_payment_dto.amount as i64
        } else {
            return Err(ServiceError::MathError(MathErrorType::NumericalOverflow));
        };
        let title_copy = create_payment_dto.title.clone();
        let description_copy = create_payment_dto.description.clone();
        let payment = Payment {
            id,
            public_id,
            title: create_payment_dto.title,
            description: create_payment_dto.description,
            category: create_payment_dto.category,
            amount,
            created_at: now,
            user_id,
        };
        let copy = Payment {
            id,
            public_id,
            title: title_copy,
            description: description_copy,
            category: create_payment_dto.category,
            amount,
            created_at: now,
            user_id,
        };
        proof {
            assert(copy@ == payment@);
        }
        store.insert(copy);
        Ok(payment)
    }

    /// Builds the fee-split transfer transaction for the payment named by
    /// its public identifier — the payment's amount, already in base
    /// units, is handed to the builder unchanged — records the transfer
    /// as Pending under the fresh reference key, and returns the
    /// partially signed transaction, serialized and base64-encoded, for
    /// the sender to co-sign. Succeeds exactly when the payment exists
    /// with a non-negative amount, all four addresses parse, and no
    /// stored transfer already holds the reference key.
    pub fn create_transfer(
        payments: &PaymentStore,
        transfers: &mut TransferStore,
        payment_public_id: u128,
        sender_address: &str,
        receiver_address: &str,
        token_mint_address: &str,
        reference_key: &Address,
        operator: &Keypair,
        treasury: &str,
        token_program: &Address,
        recent_blockhash: &Blockhash,
        transfer_id: i32,
        now: i64,
    ) -> (r: Result<String, ServiceError>)
        requires
            old(transfers).wf(),
            reference_key.wf(),
            operator.wf(),
            token_program.wf(),
            recent_blockhash.wf(),
        ensures
            final(transfers).wf(),
            r is Err ==> final(transfers)@ == old(transfers)@,
            r is Ok <==> ((exists|i: int|
                0 <= i < payments@.len() && (#[trigger] payments@[i]).public_id
                    == payment_public_id && payments@[i].amount >= 0 && (forall|k: int|
                    0 <= k < i ==> (#[trigger] payments@[k]).public_id != payment_public_id))
                && base58_decode_address(sender_address@) is Some && base58_decode_address(
                receiver_address@,
            ) is Some && base58_decode_address(token_mint_address@) is Some
                && base58_decode_address(treasury@) is Some && (forall|j: int|
                0 <= j < old(transfers)@.len() ==> (#[trigger] old(transfers)@[j]).reference_key
                    != reference_key@)),
            r matches Ok(encoded) ==> exists|i: int|
                {
                    &&& 0 <= i < payments@.len()
                    &&& (#[trigger] payments@[i]).public_id == payment_public_id
                    &&& 0 <= payments@[i].amount
                    &&& (exists|tv: crate::message::TransactionView|
                        built_transfer_ok(
                            tv,
                            base58_decode_address(sender_address@).unwrap(),
                            base58_decode_address(receiver_address@).unwrap(),
                            base58_decode_address(treasury@).unwrap(),
                            base58_decode_address(token_mint_address@).unwrap(),
                            reference_key@,
                            operator.address@,
                            operator.bytes@,
                            recent_blockhash@,
                            payments@[i].amount as u64,
                        ) && encoded@ == b64_of(crate::codec::enc_transaction(tv)))
                    &&& final(transfers)@.len() == old(transfers)@.len() + 1
                    &&& final(transfers)@.last().reference_key == reference_key@
                    &&& final(transfers)@.last().payment_id == payments@[i].id
                    &&& final(transfers)@.last().status == TransferStatus::Pending
                    &&& final(transfers)@.last().signature is None
                    &&& final(transfers)@.last().sender_wallet_address == base58_decode_address(
                        sender_address@,
                    ).unwrap()
                    &&& final(transfers)@.last().id == transfer_id
                    &&& final(transfers)@.last().created_at == now
                    &&& forall|k: int|
                        0 <= k < old(transfers)@.len() ==> (#[trigger] final(transfers)@[k]) == old(
                            transfers,
                        )@[k]
                },
    {
        let payment = match Self::public_find_one(payments, payment_public_id) {
            Ok(p) => p,
            Err(e) => {
                return Err(e);
            },
        };
        let amount: u64 = if payment.amount >= 0 {
            payment.amount as u64
        } else {
            return Err(ServiceError::MathError(MathErrorType::NumericalOverflow));
        };
        let transfer_transaction = match create_transfer_transaction(
            sender_address,
            receiver_address,
            amount,
            token_mint_address,
            reference_key,
            operator,
            treasury,
            token_program,
            recent_blockhash,
        ) {
            Ok(tx) => tx,
            Err(e) => {
                return Err(e);
            },
        };
        let sender = match crate::trusted::parse_address(sender_address) {
            Some(a) => a,
            None => {
                proof {
                    assert(false);
                }
                return Err(
                    ServiceError::Web3Error(
                        Web3ErrorType::Custom(String::from_str("Malformed address")),
                    ),
                );
            },
        };
        let record = TransferRecord {
            id: transfer_id,
            reference_key: reference_key.clone(),
            payment_id: payment.id,
            signature: None,
            status: TransferStatus::Pending,
            sender_wallet_address: sender,
            created_at: now,
        };
        match transfers.insert(record) {
            Ok(()) => {},
            Err(e) => {
                return Err(e);
            },
        }
        let serialized_transaction = crate::codec::serialize_transaction(&transfer_transaction);
        let base64_transaction = crate::trusted::b64_encode(&serialized_transaction);
        proof {
            assert(encoded_ok(base64_transaction@, transfer_transaction@));
        }
        Ok(base64_transaction)
    }
}

/// The encoded string carries exactly the given transaction's wire bytes.
pub open spec fn encoded_ok(encoded: Seq<char>, tv: crate::message::TransactionView) -> bool {
    encoded == b64_of(crate::codec::enc_transaction(tv))
}

/// Every check of the submit path, over the stores and the submitted
/// transaction: the reference tag can be read off it, the first payment
/// row with the public id owns the first transfer row keyed by that
/// reference, that transfer is still Pending, every declared signature
/// verifies, and the operator is among the signers.
pub open spec fn submitted_transfer_acceptable(
    payments: Seq<crate::store::PaymentView>,
    transfers: Seq<crate::store::TransferRecordView>,
    tv: crate::message::TransactionView,
    payment_public_id: u128,
    operator: Seq<u8>,
) -> bool {
    let reference = tv.message.account_keys[tv.message.instructions.last().accounts.last() as int];
    &&& tv.message.instructions.len() > 0
    &&& tv.message.instructions.last().accounts.len() > 0
    &&& exists|i: int, j: int|
        {
            &&& 0 <= i < payments.len()
            &&& (#[trigger] payments[i]).public_id == payment_public_id
            &&& (forall|k: int| 0 <= k < i ==> payments[k].public_id != payment_public_id)
            &&& 0 <= j < transfers.len()
            &&& (#[trigger] transfers[j]).reference_key == reference
            &&& (forall|k: int| 0 <= k < j ==> transfers[k].reference_key != reference)
            &&& transfers[j].payment_id == payments[i].id
            &&& transfers[j].status == TransferStatus::Pending
        }
    &&& all_signatures_valid(tv)
    &&& has_signer(tv, operator)
}

impl PaymentService {
    /// Accepts a sender-signed transaction for an open transfer: the
    /// encoded bytes must deserialize, the embedded reference tag must
    /// name a Pending transfer of the named payment, every declared
    /// signature must verify, and the operator must be among the signers
    /// — and exactly then does the call succeed. On success the caller
    /// broadcasts the transaction and then records the confirmation with
    /// `submit_transfer_finalize`.
    #[verifier::rlimit(60)]
    pub fn submit_transfer(
        payments: &PaymentStore,
        transfers: &TransferStore,
        encoded_transaction: &str,
        payment_public_id: u128,
        operator_address: &Address,
    ) -> (r: Result<(Transaction, Address), ServiceError>)
        requires
            operator_address.wf(),
        ensures
            r is Ok <==> exists|b: Seq<u8>|
                #![trigger b64_of(b)]
                {
                    &&& encoded_transaction@ == b64_of(b)
                    &&& crate::codec::parse_transaction_bytes(b) is Some
                    &&& submitted_transfer_acceptable(
                        payments@,
                        transfers@,
                        crate::codec::parse_transaction_bytes(b).unwrap(),
                        payment_public_id,
                        operator_address@,
                    )
                },
            r matches Ok((tx, reference)) ==> {
                &&& tx.wf()
                &&& exists|b: Seq<u8>|
                    encoded_transaction@ == b64_of(b) && crate::codec::parse_transaction_bytes(b)
                        == Some(tx@)
                &&& tx.message.instructions@.len() > 0
                &&& tx.message.instructions@.last().accounts@.len() > 0
                &&& reference@ == tx@.message.account_keys[tx@.message.instructions.last().accounts.last() as int]
                &&& exists|i: int, j: int|
                    {
                        &&& 0 <= i < payments@.len()
                        &&& (#[trigger] payments@[i]).public_id == payment_public_id
                        &&& 0 <= j < transfers@.len()
                        &&& (#[trigger] transfers@[j]).reference_key == reference@
                        &&& transfers@[j].payment_id == payments@[i].id
                        &&& transfers@[j].status == TransferStatus::Pending
                    }
                &&& all_signatures_valid(tx@)
                &&& has_signer(tx@, operator_address@)
            },
    {
        let transaction = match deserialize_transaction(encoded_transaction) {
            Ok(t) => t,
            Err(e) => {
                return Err(e);
            },
        };
        let reference = match get_reference_from_transfer_transaction(&transaction) {
            Ok(a) => a,
            Err(e) => {
                return Err(e);
            },
        };
        let payment = match Self::public_find_one(payments, payment_public_id) {
            Ok(p) => p,
            Err(e) => {
                return Err(e);
            },
        };
        let transfer = match transfers.find_by_reference(&reference) {
            Some(t) => t,
            None => {
                return Err(
                    ServiceError::Web3Error(
                        Web3ErrorType::Custom(
                            String::from_str(
                                "Transfer associated with this reference does not exist",
                            ),
                        ),
                    ),
                );
            },
        };
        if transfer.payment_id != payment.id {
            return Err(
                ServiceError::Web3Error(
                    Web3ErrorType::Custom(
                        String::from_str(
                            "Transfer associated with this reference does not exist",
                        ),
                    ),
                ),
            );
        }
        if transfer.status == TransferStatus::Completed {
            return Err(
                ServiceError::Web3Error(
                    Web3ErrorType::Custom(String::from_str("Transfer has already completed")),
                ),
            );
        }
        if transfer.status == TransferStatus::Rejected {
            return Err(
                ServiceError::Web3Error(
                    Web3ErrorType::Custom(String::from_str("Transfer was rejected")),
                ),
            );
        }
        match verify_transaction_signature(&transaction, operator_address) {
            Ok(()) => {},
            Err(e) => {
                return Err(e);
            },
        }
        proof {
            let i = choose|i: int|
                0 <= i < payments@.len() && (#[trigger] payments@[i]).public_id
                    == payment_public_id && payment@ == payments@[i] && (forall|k: int|
                    0 <= k < i ==> (#[trigger] payments@[k]).public_id != payment_public_id);
            let j = choose|j: int|
                0 <= j < transfers@.len() && (#[trigger] transfers@[j]).reference_key
                    == reference@ && transfer@ == transfers@[j] && (forall|k: int|
                    0 <= k < j ==> (#[trigger] transfers@[k]).reference_key != reference@);
            assert(transfers@[j].payment_id == payments@[i].id && transfers@[j].status
                == TransferStatus::Pending && payments@[i].public_id == payment_public_id
                && transfers@[j].reference_key == reference@);
            let b0 = choose|b: Seq<u8>|
                encoded_transaction@ == b64_of(b) && crate::codec::parse_transaction_bytes(b)
                    == Some(transaction@);
            assert(submitted_transfer_acceptable(
                payments@,
                transfers@,
                transaction@,
                payment_public_id,
                operator_address@,
            ));
            assert(crate::codec::parse_transaction_bytes(b0).unwrap() == transaction@);
        }
        Ok((transaction, reference))
    }

    /// The terminal write after a successful broadcast: the transfer
    /// keyed by the reference moves to Completed with the broadcast
    /// signature, in one filtered update.
    pub fn submit_transfer_finalize(
        transfers: &mut TransferStore,
        reference: &Address,
        signature: TxSignature,
    )
        ensures
            final(transfers)@ == terminal_update_rows(
                old(transfers)@,
                reference@,
                TransferStatus::Completed,
                Some(signature@),
            ),
            old(transfers).wf() ==> final(transfers).wf(),
    {
        transfers.apply_terminal_update(reference, TransferStatus::Completed, Some(signature));
    }
}

} // verus!
