//! Trusted boundary to the outside crates.
//!
//! Every function here is `external_body`: its contract is believed, not
//! proved, and states only what the called crate's source or documentation
//! plainly shows. Results that are functions of the arguments alone but
//! have no short statement (a digest, a cipher, an address derivation) are
//! given opaque names by bodiless spec functions.

use std::str::FromStr;

use solana_keypair::Signer;

use vstd::prelude::*;

use crate::account::{Address, TxSignature};

verus! {

/// The standard base64 encoding (with padding) of a byte string.
pub uninterp spec fn b64_of(bytes: Seq<u8>) -> Seq<char>;

/// Relies on base64's `STANDARD` engine: `encode` is deterministic in its
/// input.
#[verifier::external_body]
pub(crate) fn b64_encode(bytes: &Vec<u8>) -> (r: String)
    ensures
        r@ == b64_of(bytes@),
{
    base64::Engine::encode(&base64::engine::general_purpose::STANDARD, bytes.as_slice())
}

/// Relies on base64's `STANDARD` engine: `decode` inverts `encode`, so any
/// string that is the encoding of some bytes decodes to exactly those
/// bytes; and the engine is strict (canonical padding, no stray trailing
/// bits), so whatever it accepts re-encodes to the same string.
#[verifier::external_body]
pub(crate) fn b64_decode(s: &str) -> (r: Option<Vec<u8>>)
    ensures
        r is None ==> forall|b: Seq<u8>| s@ != b64_of(b),
        r matches Some(v) ==> forall|b: Seq<u8>| s@ == b64_of(b) ==> v@ == b,
        r matches Some(v) ==> s@ == b64_of(v@),
{
    match base64::Engine::decode(&base64::engine::general_purpose::STANDARD, s) {
        Ok(v) => Some(v),
        Err(_) => None,
    }
}

/// The SHA-256 digest of a byte string.
pub uninterp spec fn sha256_of(bytes: Seq<u8>) -> Seq<u8>;

/// Relies on sha2's `Sha256::digest`: a 32-byte digest, deterministic in
/// its input.
#[verifier::external_body]
pub(crate) fn sha256(bytes: &Vec<u8>) -> (r: Vec<u8>)
    ensures
        r@ == sha256_of(bytes@),
        r@.len() == 32,
{
    <sha2::Sha256 as sha2::Digest>::digest(bytes.as_slice()).to_vec()
}

/// The AES-256-GCM sealing (ciphertext with appended tag) of a plaintext
/// under a 32-byte key and a 12-byte nonce.
pub uninterp spec fn aead_seal(key: Seq<u8>, nonce: Seq<u8>, plaintext: Seq<u8>) -> Seq<u8>;

/// Relies on aes-gcm's `encrypt`: deterministic in key, nonce and
/// plaintext; the ciphertext is the plaintext's length plus the 16-byte
/// postfix tag; its only failure is a plaintext above the GCM length cap
/// (just under 2^36 bytes), so short plaintexts always seal.
#[verifier::external_body]
pub(crate) fn aes_gcm_seal(key: &Vec<u8>, nonce: &Vec<u8>, plaintext: &Vec<u8>) -> (r: Option<
    Vec<u8>,
>)
    requires
        key@.len() == 32,
        nonce@.len() == 12,
    ensures
        r matches Some(ct) ==> ct@ == aead_seal(key@, nonce@, plaintext@),
        r matches Some(ct) ==> ct@.len() == plaintext@.len() + 16,
        plaintext@.len() <= 0xFFFFFFFF ==> r is Some,
{
    let cipher = match aes_gcm::KeyInit::new_from_slice(key.as_slice()) {
        Ok(c) => c,
        Err(_) => {
            return None;
        },
    };
    let cipher: aes_gcm::Aes256Gcm = cipher;
    let nonce_arr = match aes_gcm::aead::array::Array::try_from(nonce.as_slice()) {
        Ok(a) => a,
        Err(_) => {
            return None;
        },
    };
    aes_gcm::aead::Aead::encrypt(&cipher, &nonce_arr, plaintext.as_slice()).ok()
}

/// Relies on aes-gcm's `decrypt`: it authenticates and inverts `encrypt`
/// under the same key and nonce, so a ciphertext sealed from some plaintext
/// opens to exactly that plaintext. Nothing is promised of other inputs.
#[verifier::external_body]
pub(crate) fn aes_gcm_open(key: &Vec<u8>, nonce: &Vec<u8>, ciphertext: &Vec<u8>) -> (r: Option<
    Vec<u8>,
>)
    requires
        key@.len() == 32,
        nonce@.len() == 12,
    ensures
        r is None ==> forall|p: Seq<u8>| ciphertext@ != aead_seal(key@, nonce@, p),
        r matches Some(v) ==> forall|p: Seq<u8>|
            ciphertext@ == aead_seal(key@, nonce@, p) ==> v@ == p,
{
    let cipher = match aes_gcm::KeyInit::new_from_slice(key.as_slice()) {
        Ok(c) => c,
        Err(_) => {
            return None;
        },
    };
    let cipher: aes_gcm::Aes256Gcm = cipher;
    let nonce_arr = match aes_gcm::aead::array::Array::try_from(nonce.as_slice()) {
        Ok(a) => a,
        Err(_) => {
            return None;
        },
    };
    aes_gcm::aead::Aead::decrypt(&cipher, &nonce_arr, ciphertext.as_slice()).ok()
}

/// Relies on rand's `fill`: fills a buffer with random bytes; only the
/// length is promised.
#[verifier::external_body]
pub(crate) fn random_bytes(len: usize) -> (r: Vec<u8>)
    ensures
        r@.len() == len,
{
    let mut buf = vec![0u8; len];
    rand::fill(&mut buf[..]);
    buf
}

/// The 64-byte strings accepted by the signing-key reconstruction: the
/// second half equals the public key derived from the first half.
pub uninterp spec fn keypair_wf(bytes: Seq<u8>) -> bool;

/// Relies on solana-keypair's `Keypair::new` and `to_bytes`: 64 fresh
/// bytes, secret half then matching public half, so reconstruction accepts
/// them. The value itself is random and nothing more is promised of it.
#[verifier::external_body]
pub(crate) fn keypair_generate() -> (r: Vec<u8>)
    ensures
        r@.len() == 64,
        keypair_wf(r@),
{
    solana_keypair::Keypair::new().to_bytes().to_vec()
}

/// Relies on solana-keypair's `TryFrom<&[u8]>` and `Signer::pubkey`: the
/// conversion succeeds exactly on 64-byte strings whose public half matches
/// the secret half, and the public key is that second half.
#[verifier::external_body]
pub(crate) fn keypair_address(bytes: &Vec<u8>) -> (r: Option<Address>)
    ensures
        r is Some <==> (bytes@.len() == 64 && keypair_wf(bytes@)),
        r matches Some(a) ==> a@ == bytes@.subrange(32, 64) && a.wf(),
{
    let kp = match solana_keypair::Keypair::try_from(bytes.as_slice()) {
        Ok(k) => k,
        Err(_) => {
            return None;
        },
    };
    Some(Address { bytes: kp.pubkey().to_bytes().to_vec() })
}

/// The Ed25519 signature of a message under a 64-byte keypair; RFC 8032
/// signing is deterministic, so this is a function of its arguments.
pub uninterp spec fn ed25519_sign_bytes(keypair: Seq<u8>, message: Seq<u8>) -> Seq<u8>;

/// Relies on solana-keypair's `Signer::sign_message`: a 64-byte signature,
/// deterministic in keypair and message.
#[verifier::external_body]
pub(crate) fn keypair_sign(bytes: &Vec<u8>, message: &Vec<u8>) -> (r: Option<TxSignature>)
    ensures
        r is Some <==> (bytes@.len() == 64 && keypair_wf(bytes@)),
        r matches Some(s) ==> s@ == ed25519_sign_bytes(bytes@, message@) && s.wf(),
{
    let kp = match solana_keypair::Keypair::try_from(bytes.as_slice()) {
        Ok(k) => k,
        Err(_) => {
            return None;
        },
    };
    let sig = kp.sign_message(message.as_slice());
    Some(TxSignature { bytes: <[u8; 64]>::from(sig).to_vec() })
}

/// Whether a 64-byte Ed25519 signature verifies a message under a 32-byte
/// public key; a function of its arguments.
pub uninterp spec fn ed25519_verifies(sig: Seq<u8>, pubkey: Seq<u8>, message: Seq<u8>) -> bool;

/// Relies on solana-signature's `Signature::verify`: strict Ed25519
/// verification, deterministic in signature, key and message.
#[verifier::external_body]
pub(crate) fn signature_verify(sig: &TxSignature, pubkey: &Address, message: &Vec<u8>) -> (r: bool)
    requires
        sig.wf(),
        pubkey.wf(),
    ensures
        r == ed25519_verifies(sig@, pubkey@, message@),
{
    match solana_signature::Signature::try_from(sig.bytes.as_slice()) {
        Ok(s) => s.verify(pubkey.bytes.as_slice(), message.as_slice()),
        Err(_) => false,
    }
}

/// The deterministic per-owner token sub-account for (owner, mint).
pub uninterp spec fn ata_of(owner: Seq<u8>, mint: Seq<u8>) -> Seq<u8>;

/// Relies on spl-associated-token-account's
/// `get_associated_token_address`: the canonical program-derived token
/// sub-account of an owner for a mint; a function of its arguments.
#[verifier::external_body]
pub(crate) fn associated_token_address(owner: &Address, mint: &Address) -> (r: Address)
    requires
        owner.wf(),
        mint.wf(),
    ensures
        r@ == ata_of(owner@, mint@),
        r.wf(),
{
    let o = spl_token::solana_program::pubkey::Pubkey::try_from(owner.bytes.as_slice()).unwrap();
    let m = spl_token::solana_program::pubkey::Pubkey::try_from(mint.bytes.as_slice()).unwrap();
    let ata = spl_associated_token_account::get_associated_token_address(&o, &m);
    Address { bytes: ata.to_bytes().to_vec() }
}

/// What parsing a base58 account-address string yields, when it is valid.
pub uninterp spec fn base58_decode_address(s: Seq<char>) -> Option<Seq<u8>>;

/// The base58 rendering of a 32-byte account address.
pub uninterp spec fn base58_of_address(a: Seq<u8>) -> Seq<char>;

/// Relies on solana-address's `FromStr`: parses base58 into the 32 address
/// bytes, failing on malformed strings; deterministic in the string.
#[verifier::external_body]
pub fn parse_address(s: &str) -> (r: Option<Address>)
    ensures
        r is Some <==> base58_decode_address(s@) is Some,
        r matches Some(a) ==> Some(a@) == base58_decode_address(s@) && a.wf(),
{
    match solana_keypair::Address::from_str(s) {
        Ok(a) => Some(Address { bytes: a.to_bytes().to_vec() }),
        Err(_) => None,
    }
}

/// Relies on solana-address's `Display` and `FromStr`: rendering is
/// deterministic and parsing inverts it.
#[verifier::external_body]
pub fn address_to_base58(a: &Address) -> (r: String)
    requires
        a.wf(),
    ensures
        r@ == base58_of_address(a@),
        base58_decode_address(r@) == Some(a@),
{
    let addr = solana_keypair::Address::try_from(a.bytes.as_slice()).unwrap();
    addr.to_string()
}

} // verus!
