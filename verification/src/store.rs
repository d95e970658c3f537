//! In-memory model of the relational rows the engine reads and writes.
//!
//! The engine consumes only insert, find-by-key and update-by-unique-key
//! on two records, Payment and Transfer; this module states those
//! operations exactly. A Transfer's status moves only from `Pending` to a
//! terminal state, terminal rows are immutable, and reference keys are
//! unique across rows.

use vstd::prelude::*;

use crate::account::{Address, TxSignature};
use crate::errors::ServiceError;

verus! {

/// The fate of a transfer: open, settled, or refused.
#[derive(Debug, Clone, Copy, PartialEq, Eq, Structural)]
pub enum TransferStatus {
    Pending,
    Completed,
    Rejected,
}

impl TransferStatus {
    /// Completed and Rejected are terminal; Pending is not.
    pub open spec fn is_terminal(&self) -> bool {
        match self {
            TransferStatus::Pending => false,
            TransferStatus::Completed => true,
            TransferStatus::Rejected => true,
        }
    }
}

/// The closed set of payment categories.
#[derive(Debug, Clone, Copy, PartialEq, Eq, Structural)]
pub enum PaymentCategory {
    OneTime,
}

/// One payment request row.
pub struct Payment {
    pub id: i32,
    pub public_id: u128,
    pub title: String,
    pub description: String,
    pub category: PaymentCategory,
    pub amount: i64,
    pub created_at: i64,
    pub user_id: i32,
}

/// Ghost mirror of a payment row.
pub ghost struct PaymentView {
    pub id: i32,
    pub public_id: u128,
    pub title: Seq<char>,
    pub description: Seq<char>,
    pub category: PaymentCategory,
    pub amount: i64,
    pub created_at: i64,
    pub user_id: i32,
}

impl View for Payment {
    type V = PaymentView;

    open spec fn view(&self) -> PaymentView {
        PaymentView {
            id: self.id,
            public_id: self.public_id,
            title: self.title@,
            description: self.description@,
            category: self.category,
            amount: self.amount,
            created_at: self.created_at,
            user_id: self.user_id,
        }
    }
}

/// One transfer row: the unique public reference tag, the owning payment,
/// the located ledger signature once known, and the settlement status.
pub struct TransferRecord {
    pub id: i32,
    pub reference_key: Address,
    pub payment_id: i32,
    pub signature: Option<TxSignature>,
    pub status: TransferStatus,
    pub sender_wallet_address: Address,
    pub created_at: i64,
}

/// Ghost mirror of a transfer row.
pub ghost struct TransferRecordView {
    pub id: i32,
    pub reference_key: Seq<u8>,
    pub payment_id: i32,
    pub signature: Option<Seq<u8>>,
    pub status: TransferStatus,
    pub sender_wallet_address: Seq<u8>,
    pub created_at: i64,
}

impl View for TransferRecord {
    type V = TransferRecordView;

    open spec fn view(&self) -> TransferRecordView {
        TransferRecordView {
            id: self.id,
            reference_key: self.reference_key@,
            payment_id: self.payment_id,
            signature: match self.signature {
                Some(ref s) => Some(s@),
                None => None,
            },
            status: self.status,
            sender_wallet_address: self.sender_wallet_address@,
            created_at: self.created_at,
        }
    }
}

/// The payment table.
pub struct PaymentStore {
    pub rows: Vec<Payment>,
}

impl View for PaymentStore {
    type V = Seq<PaymentView>;

    open spec fn view(&self) -> Seq<PaymentView> {
        self.rows@.map_values(|p: Payment| p@)
    }
}

impl PaymentStore {
    /// An empty table.
    pub fn new() -> (r: PaymentStore)
        ensures
            r@ == Seq::<PaymentView>::empty(),
    {
        let r = PaymentStore { rows: Vec::new() };
        proof {
            assert(r@ =~= Seq::<PaymentView>::empty());
        }
        r
    }

    /// Appends a payment row.
    pub fn insert(&mut self, payment: Payment)
        ensures
            final(self)@ == old(self)@.push(payment@),
    {
        let ghost before = self@;
        self.rows.push(payment);
        proof {
            assert(self@ =~= before.push(self.rows@.last()@));
        }
    }

    /// The first row with the given id, if any.
    pub fn find_by_id(&self, id: i32) -> (r: Option<&Payment>)
        ensures
            r matches Some(p) ==> exists|i: int|
                0 <= i < self@.len() && (#[trigger] self@[i]).id == id && p@ == self@[i] && (
                forall|k: int| 0 <= k < i ==> (#[trigger] self@[k]).id != id),
            r is None <==> forall|i: int| 0 <= i < self@.len() ==> (#[trigger] self@[i]).id != id,
    {
        let n = self.rows.len();
        let mut i: usize = 0;
        while i < n
            invariant
                n == self.rows@.len(),
                i <= n,
                self@.len() == n,
                forall|k: int| 0 <= k < i ==> (#[trigger] self@[k]).id != id,
                forall|k: int| 0 <= k < n ==> (#[trigger] self@[k]) == self.rows@[k]@,
            decreases n - i,
        {
            if self.rows[i].id == id {
                proof {
                    assert(self@[i as int] == self.rows@[i as int]@);
                    assert(self@[i as int].id == id);
                }
                return Some(&self.rows[i]);
            }
            i = i + 1;
        }
        None
    }

    /// The first row with the given public identifier, if any.
    pub fn find_by_public_id(&self, public_id: u128) -> (r: Option<&Payment>)
        ensures
            r matches Some(p) ==> exists|i: int|
                0 <= i < self@.len() && (#[trigger] self@[i]).public_id == public_id && p@
                    == self@[i] && (forall|k: int|
                    0 <= k < i ==> (#[trigger] self@[k]).public_id != public_id),
            r is None <==> forall|i: int|
                0 <= i < self@.len() ==> (#[trigger] self@[i]).public_id != public_id,
    {
        let n = self.rows.len();
        let mut i: usize = 0;
        while i < n
            invariant
                n == self.rows@.len(),
                i <= n,
                self@.len() == n,
                forall|k: int| 0 <= k < i ==> (#[trigger] self@[k]).public_id != public_id,
                forall|k: int| 0 <= k < n ==> (#[trigger] self@[k]) == self.rows@[k]@,
            decreases n - i,
        {
            if self.rows[i].public_id == public_id {
                proof {
                    assert(self@[i as int] == self.rows@[i as int]@);
                    assert(self@[i as int].public_id == public_id);
                }
                return Some(&self.rows[i]);
            }
            i = i + 1;
        }
        None
    }
}

/// What one terminal write makes of a row: status and signature set
/// together, the rest untouched.
pub open spec fn terminal_update_row(
    r: TransferRecordView,
    status: TransferStatus,
    signature: Option<Seq<u8>>,
) -> TransferRecordView {
    TransferRecordView {
        id: r.id,
        reference_key: r.reference_key,
        payment_id: r.payment_id,
        signature,
        status,
        sender_wallet_address: r.sender_wallet_address,
        created_at: r.created_at,
    }
}

/// What the terminal write makes of the whole table: every still-Pending
/// row keyed by the reference is rewritten, every other row — in
/// particular every row already terminal — is untouched.
pub open spec fn terminal_update_rows(
    rows: Seq<TransferRecordView>,
    reference: Seq<u8>,
    status: TransferStatus,
    signature: Option<Seq<u8>>,
) -> Seq<TransferRecordView> {
    rows.map_values(
        |r: TransferRecordView|
            if r.reference_key == reference && r.status is Pending {
                terminal_update_row(r, status, signature)
            } else {
                r
            },
    )
}

/// Terminal rows are immutable: a terminal write never changes a row
/// whose status is already terminal, whatever its reference key.
pub proof fn lemma_terminal_rows_immutable(
    rows: Seq<TransferRecordView>,
    reference: Seq<u8>,
    status: TransferStatus,
    signature: Option<Seq<u8>>,
)
    ensures
        forall|i: int|
            0 <= i < rows.len() && (#[trigger] rows[i]).status.is_terminal()
                ==> terminal_update_rows(rows, reference, status, signature)[i] == rows[i],
{
}

/// The terminal write is idempotent: applying the same update twice, with
/// the same reference key and the same values, leaves the table exactly as
/// one application does.
pub proof fn lemma_terminal_update_idempotent(
    rows: Seq<TransferRecordView>,
    reference: Seq<u8>,
    status: TransferStatus,
    signature: Option<Seq<u8>>,
)
    ensures
        terminal_update_rows(
            terminal_update_rows(rows, reference, status, signature),
            reference,
            status,
            signature,
        ) == terminal_update_rows(rows, reference, status, signature),
{
    let once = terminal_update_rows(rows, reference, status, signature);
    let twice = terminal_update_rows(once, reference, status, signature);
    assert(twice =~= once);
}

/// The transfer table.
pub struct TransferStore {
    pub rows: Vec<TransferRecord>,
}

impl View for TransferStore {
    type V = Seq<TransferRecordView>;

    open spec fn view(&self) -> Seq<TransferRecordView> {
        self.rows@.map_values(|r: TransferRecord| r@)
    }
}

impl TransferStore {
    /// Reference keys are globally unique across rows.
    pub open spec fn wf(&self) -> bool {
        forall|i: int, j: int|
            0 <= i < j < self@.len() ==> (#[trigger] self@[i]).reference_key != (
            #[trigger] self@[j]).reference_key
    }

    /// An empty table.
    pub fn new() -> (r: TransferStore)
        ensures
            r@ == Seq::<TransferRecordView>::empty(),
            r.wf(),
    {
        let r = TransferStore { rows: Vec::new() };
        proof {
            assert(r@ =~= Seq::<TransferRecordView>::empty());
        }
        r
    }

    /// Appends a transfer row; a reference key already present is refused,
    /// as the unique constraint refuses it.
    pub fn insert(&mut self, record: TransferRecord) -> (r: Result<(), ServiceError>)
        requires
            old(self).wf(),
        ensures
            final(self).wf(),
            r is Ok <==> (forall|i: int|
                0 <= i < old(self)@.len() ==> (#[trigger] old(self)@[i]).reference_key
                    != record.reference_key@),
            r is Ok ==> final(self)@ == old(self)@.push(record@),
            r is Err ==> final(self)@ == old(self)@,
    {
        let n = self.rows.len();
        let mut i: usize = 0;
        while i < n
            invariant
                n == self.rows@.len(),
                i <= n,
                self@.len() == n,
                self@ == old(self)@,
                old(self).wf(),
                forall|k: int|
                    0 <= k < i ==> (#[trigger] self@[k]).reference_key != record.reference_key@,
                forall|k: int| 0 <= k < n ==> (#[trigger] self@[k]) == self.rows@[k]@,
            decreases n - i,
        {
            if self.rows[i].reference_key.eq_address(&record.reference_key) {
                proof {
                    assert(self@[i as int] == self.rows@[i as int]@);
                    assert(self@[i as int].reference_key == record.reference_key@);
                }
                return Err(
                    ServiceError::Database(String::from_str("duplicate reference key")),
                );
            }
            i = i + 1;
        }
        let ghost before = self@;
        self.rows.push(record);
        proof {
            assert(self@ =~= before.push(self.rows@.last()@));
        }
        Ok(())
    }

    /// The first row keyed by the reference, if any; under `wf` it is the
    /// only one.
    pub fn find_by_reference(&self, reference: &Address) -> (r: Option<&TransferRecord>)
        ensures
            r matches Some(t) ==> exists|i: int|
                0 <= i < self@.len() && (#[trigger] self@[i]).reference_key == reference@ && t@
                    == self@[i] && (forall|k: int|
                    0 <= k < i ==> (#[trigger] self@[k]).reference_key != reference@),
            r is None <==> forall|i: int|
                0 <= i < self@.len() ==> (#[trigger] self@[i]).reference_key != reference@,
    {
        let n = self.rows.len();
        let mut i: usize = 0;
        while i < n
            invariant
                n == self.rows@.len(),
                i <= n,
                self@.len() == n,
                forall|k: int| 0 <= k < i ==> (#[trigger] self@[k]).reference_key != reference@,
                forall|k: int| 0 <= k < n ==> (#[trigger] self@[k]) == self.rows@[k]@,
            decreases n - i,
        {
            if self.rows[i].reference_key.eq_address(reference) {
                proof {
                    assert(self@[i as int] == self.rows@[i as int]@);
                    assert(self@[i as int].reference_key == reference@);
                }
                return Some(&self.rows[i]);
            }
            i = i + 1;
        }
        None
    }

    /// The terminal write: one update, filtered by the unique reference
    /// key and by the status still being Pending, sets status and
    /// signature together on every matching row; terminal rows stay as
    /// they are.
    pub fn apply_terminal_update(
        &mut self,
        reference: &Address,
        status: TransferStatus,
        signature: Option<TxSignature>,
    )
        ensures
            final(self)@ == terminal_update_rows(
                old(self)@,
                reference@,
                status,
                match signature {
                    Some(ref s) => Some(s@),
                    None => None,
                },
            ),
            old(self).wf() ==> final(self).wf(),
    {
        let ghost before = self@;
        let ghost sig_view: Option<Seq<u8>> = match signature {
            Some(ref s) => Some(s@),
            None => None,
        };
        let n = self.rows.len();
        let mut i: usize = 0;
        while i < n
            invariant
                n == self.rows@.len(),
                before.len() == n,
                i <= n,
                sig_view == match signature {
                    Some(ref s) => Some(s@),
                    None => None,
                },
                forall|k: int|
                    0 <= k < n ==> (#[trigger] before[k]).reference_key == self.rows@[k]@
                        .reference_key,
                forall|k: int|
                    i <= k < n ==> (#[trigger] self.rows@[k]@) == before[k],
                forall|k: int|
                    0 <= k < i ==> (#[trigger] self.rows@[k]@) == (if before[k].reference_key
                        == reference@ && before[k].status is Pending {
                        terminal_update_row(before[k], status, sig_view)
                    } else {
                        before[k]
                    }),
            decreases n - i,
        {
            if self.rows[i].reference_key.eq_address(reference) && self.rows[i].status
                == TransferStatus::Pending {
                let sig_copy: Option<TxSignature> = match signature {
                    Some(ref s) => Some(s.clone()),
                    None => None,
                };
                let row = &mut self.rows[i];
                row.status = status;
                row.signature = sig_copy;
            }
            i = i + 1;
        }
        proof {
            assert(self@ =~= terminal_update_rows(before, reference@, status, sig_view));
        }
    }
}

} // verus!
