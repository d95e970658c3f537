//! Plain-value models of the ledger's key material: account addresses,
//! block hashes and transaction signatures, each a fixed-width byte string.

use vstd::prelude::*;

verus! {

/// Byte width of an account address (an Ed25519 public key).
pub const ADDRESS_LEN: usize = 32;

/// Byte width of a block hash.
pub const BLOCKHASH_LEN: usize = 32;

/// Byte width of a transaction signature.
pub const SIGNATURE_LEN: usize = 64;

/// Compares two byte vectors for exact equality of contents.
pub fn bytes_eq(a: &Vec<u8>, b: &Vec<u8>) -> (r: bool)
    ensures
        r == (a@ == b@),
{
    if a.len() != b.len() {
        assert(a@ != b@);
        return false;
    }
    let n = a.len();
    let mut i: usize = 0;
    while i < n
        invariant
            n == a.len() == b.len(),
            i <= n,
            forall|j: int| 0 <= j < i ==> a@[j] == b@[j],
        decreases n - i,
    {
        if a[i] != b[i] {
            return false;
        }
        i = i + 1;
    }
    assert(a@ =~= b@);
    true
}

/// Copies the bytes of `v` from `from` (inclusive) to `to` (exclusive).
pub fn bytes_range(v: &Vec<u8>, from: usize, to: usize) -> (r: Vec<u8>)
    requires
        from <= to <= v@.len(),
    ensures
        r@ == v@.subrange(from as int, to as int),
{
    let n: usize = v.len();
    let mut out: Vec<u8> = Vec::new();
    let mut i: usize = from;
    while i < to
        invariant
            from <= i <= to <= n,
            n == v@.len(),
            out@ =~= v@.subrange(from as int, i as int),
        decreases to - i,
    {
        out.push(v[i]);
        i = i + 1;
    }
    assert(out@ =~= v@.subrange(from as int, to as int));
    out
}

/// An on-ledger account address, held as its raw 32 bytes.
#[derive(Debug)]
pub struct Address {
    pub bytes: Vec<u8>,
}

impl View for Address {
    type V = Seq<u8>;

    open spec fn view(&self) -> Seq<u8> {
        self.bytes@
    }
}

impl Address {
    /// A well-formed address holds exactly 32 bytes.
    pub open spec fn wf(&self) -> bool {
        self@.len() == ADDRESS_LEN
    }

    /// Wraps raw bytes as an address; rejects any width but 32.
    pub fn from_bytes(bytes: Vec<u8>) -> (r: Option<Address>)
        ensures
            r matches Some(a) ==> a.wf() && a@ == bytes@,
            r is None <==> bytes@.len() != ADDRESS_LEN,
    {
        if bytes.len() == ADDRESS_LEN {
            Some(Address { bytes })
        } else {
            None
        }
    }

    /// Exact content equality of two addresses.
    pub fn eq_address(&self, other: &Address) -> (r: bool)
        ensures
            r == (self@ == other@),
    {
        bytes_eq(&self.bytes, &other.bytes)
    }
}

impl Clone for Address {
    fn clone(&self) -> (r: Self)
        ensures
            r@ == self@,
    {
        let mut bytes: Vec<u8> = Vec::new();
        let mut i: usize = 0;
        while i < self.bytes.len()
            invariant
                i <= self.bytes.len(),
                bytes@ =~= self.bytes@.subrange(0, i as int),
            decreases self.bytes.len() - i,
        {
            bytes.push(self.bytes[i]);
            i = i + 1;
        }
        assert(bytes@ =~= self.bytes@);
        Address { bytes }
    }
}

/// The hash of a recent ledger tip, fixed at transaction build time.
#[derive(Debug)]
pub struct Blockhash {
    pub bytes: Vec<u8>,
}

impl View for Blockhash {
    type V = Seq<u8>;

    open spec fn view(&self) -> Seq<u8> {
        self.bytes@
    }
}

impl Blockhash {
    /// A well-formed block hash holds exactly 32 bytes.
    pub open spec fn wf(&self) -> bool {
        self@.len() == BLOCKHASH_LEN
    }

    /// Wraps raw bytes as a block hash; rejects any width but 32.
    pub fn from_bytes(bytes: Vec<u8>) -> (r: Option<Blockhash>)
        ensures
            r matches Some(h) ==> h.wf() && h@ == bytes@,
            r is None <==> bytes@.len() != BLOCKHASH_LEN,
    {
        if bytes.len() == BLOCKHASH_LEN {
            Some(Blockhash { bytes })
        } else {
            None
        }
    }
}

/// An Ed25519 transaction signature, held as its raw 64 bytes.
#[derive(Debug)]
pub struct TxSignature {
    pub bytes: Vec<u8>,
}

impl View for TxSignature {
    type V = Seq<u8>;

    open spec fn view(&self) -> Seq<u8> {
        self.bytes@
    }
}

impl TxSignature {
    /// A well-formed signature holds exactly 64 bytes.
    pub open spec fn wf(&self) -> bool {
        self@.len() == SIGNATURE_LEN
    }

    /// Wraps raw bytes as a signature; rejects any width but 64.
    pub fn from_bytes(bytes: Vec<u8>) -> (r: Option<TxSignature>)
        ensures
            r matches Some(s) ==> s.wf() && s@ == bytes@,
            r is None <==> bytes@.len() != SIGNATURE_LEN,
    {
        if bytes.len() == SIGNATURE_LEN {
            Some(TxSignature { bytes })
        } else {
            None
        }
    }

    /// The all-zero placeholder that marks a signature slot not yet signed.
    pub fn unsigned() -> (r: TxSignature)
        ensures
            r.wf(),
            forall|i: int| 0 <= i < SIGNATURE_LEN ==> r@[i] == 0u8,
    {
        let mut bytes: Vec<u8> = Vec::new();
        let mut i: usize = 0;
        while i < SIGNATURE_LEN
            invariant
                i <= SIGNATURE_LEN,
                bytes@.len() == i,
            forall|j: int| 0 <= j < i ==> bytes@[j] == 0u8,
            decreases SIGNATURE_LEN - i,
        {
            bytes.push(0u8);
            i = i + 1;
        }
        TxSignature { bytes }
    }

}

impl Clone for TxSignature {
    fn clone(&self) -> (r: Self)
        ensures
            r@ == self@,
    {
        let mut bytes: Vec<u8> = Vec::new();
        let mut i: usize = 0;
        while i < self.bytes.len()
            invariant
                i <= self.bytes.len(),
                bytes@ =~= self.bytes@.subrange(0, i as int),
            decreases self.bytes.len() - i,
        {
            bytes.push(self.bytes[i]);
            i = i + 1;
        }
        assert(bytes@ =~= self.bytes@);
        TxSignature { bytes }
    }
}

} // verus!
