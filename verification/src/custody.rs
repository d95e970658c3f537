//! Custody of the operator's signing key under envelope encryption.
//!
//! A keypair is persisted only as an encrypted blob (nonce followed by
//! AEAD ciphertext, base64-encoded) plus a separately-held random secret;
//! the symmetric key is the one-way hash of the secret. Both artifacts are
//! required to recover the key: losing either makes recovery permanently
//! impossible by design, and a wrong secret or a tampered blob fails
//! authentication instead of yielding wrong key material.

use vstd::prelude::*;

use crate::account::{bytes_range, Address};
use crate::codec::push_bytes;
use crate::errors::{ServiceError, Web3ErrorType};
use crate::trusted::{
    address_to_base58, aead_seal, aes_gcm_open, aes_gcm_seal, b64_decode, b64_encode, b64_of,
    base58_of_address, keypair_address, keypair_generate, keypair_sign, keypair_wf, random_bytes,
    sha256, sha256_of,
};

verus! {

/// Width of the random secret that derives the symmetric key.
pub const SECRET_LEN: usize = 32;

/// Width of the AEAD nonce that prefixes the encrypted blob.
pub const NONCE_LEN: usize = 12;

/// A recovered signing keypair: its 64 raw bytes and its public address.
pub struct Keypair {
    pub bytes: Vec<u8>,
    pub address: Address,
}

impl Keypair {
    /// The bytes reconstruct to a valid keypair whose public half is the
    /// held address.
    pub open spec fn wf(&self) -> bool {
        &&& self.bytes@.len() == 64
        &&& keypair_wf(self.bytes@)
        &&& self.address.wf()
        &&& self.address@ == self.bytes@.subrange(32, 64)
    }

    /// Signs a message with this keypair.
    pub fn sign(&self, message: &Vec<u8>) -> (r: crate::account::TxSignature)
        requires
            self.wf(),
        ensures
            r@ == crate::trusted::ed25519_sign_bytes(self.bytes@, message@),
            r.wf(),
    {
        match keypair_sign(&self.bytes, message) {
            Some(s) => s,
            None => {
                // Unreachable: well-formedness guarantees the
                // reconstruction accepts these bytes.
                proof {
                    assert(false);
                }
                crate::account::TxSignature::unsigned()
            },
        }
    }
}

/// The custody relation: `blob` and `secret` are the base64 encodings of
/// `raw` and `sb`; `sb` is the 32-byte symmetric-derivation secret; and
/// `raw` is a 12-byte nonce followed by the 64 keypair bytes `kp` sealed
/// (with the 16-byte authentication tag) under the hash of `sb` and that
/// nonce — 92 bytes in all.
pub open spec fn custody_encodes(
    blob: Seq<char>,
    secret: Seq<char>,
    raw: Seq<u8>,
    sb: Seq<u8>,
    kp: Seq<u8>,
) -> bool {
    &&& blob == b64_of(raw)
    &&& secret == b64_of(sb)
    &&& sb.len() == SECRET_LEN
    &&& raw.len() == NONCE_LEN + kp.len() + 16
    &&& raw.subrange(NONCE_LEN as int, raw.len() as int) == aead_seal(
        sha256_of(sb),
        raw.subrange(0, NONCE_LEN as int),
        kp,
    )
    &&& kp.len() == 64
    &&& keypair_wf(kp)
}

/// The three artifacts belong together: blob and secret stand in the
/// custody relation to some keypair bytes whose rendered public address is
/// the third.
pub open spec fn custody_artifacts_ok(blob: Seq<char>, secret: Seq<char>, addr: Seq<char>) -> bool {
    exists|raw: Seq<u8>, sb: Seq<u8>, kp: Seq<u8>|
        custody_encodes(blob, secret, raw, sb, kp) && addr == base58_of_address(
            kp.subrange(32, 64),
        )
}

/// Generates a fresh signing keypair and returns, separately: the
/// encrypted blob, the encoded secret, and the public address — always,
/// for a 64-byte plaintext is far under the cipher's length cap. The blob
/// and secret returned stand in the custody relation to the generated
/// keypair bytes, whose public address is the third component — so
/// `decode_keypair` on exactly this pair recovers exactly this key.
pub fn create_wallet() -> (r: Result<(String, String, String), ServiceError>)
    ensures
        r is Ok,
        r matches Ok((blob, secret, addr)) ==> custody_artifacts_ok(blob@, secret@, addr@),
{
    let kp_bytes = keypair_generate();
    let secret = random_bytes(SECRET_LEN);
    let key = sha256(&secret);
    let nonce = random_bytes(NONCE_LEN);
    let ciphertext = match aes_gcm_seal(&key, &nonce, &kp_bytes) {
        Some(c) => c,
        None => {
            proof {
                assert(false);
            }
            return Err(
                ServiceError::Web3Error(
                    Web3ErrorType::Custom(String::from_str("Failed to encrypt wallet")),
                ),
            );
        },
    };
    let mut raw: Vec<u8> = Vec::new();
    push_bytes(&mut raw, &nonce);
    push_bytes(&mut raw, &ciphertext);
    let blob = b64_encode(&raw);
    let secret_s = b64_encode(&secret);
    let address = match keypair_address(&kp_bytes) {
        Some(a) => a,
        None => {
            proof {
                assert(false);
            }
            return Err(
                ServiceError::Web3Error(
                    Web3ErrorType::Custom(
                        String::from_str("Failed to derive keypair from wallet"),
                    ),
                ),
            );
        },
    };
    let addr_str = address_to_base58(&address);
    proof {
        assert(raw@.subrange(0, NONCE_LEN as int) =~= nonce@);
        assert(raw@.subrange(NONCE_LEN as int, raw@.len() as int) =~= ciphertext@);
        assert(custody_encodes(blob@, secret_s@, raw@, secret@, kp_bytes@));
        assert(addr_str@ == base58_of_address(kp_bytes@.subrange(32, 64)));
        assert(custody_artifacts_ok(blob@, secret_s@, addr_str@));
    }
    Ok((blob, secret_s, addr_str))
}

/// Recovers the signing keypair from the encrypted blob and the held
/// secret. Whenever the two inputs stand in the custody relation to some
/// keypair bytes — in particular, whenever they came from `create_wallet`
/// — recovery succeeds and returns exactly that keypair. An input that is
/// not base64, a blob too short to hold a nonce, an authentication
/// failure (a wrong secret or a tampered blob), or bytes that are no
/// keypair are an error, never silently wrong key material.
pub fn decode_keypair(private_key: &str, secret: &str) -> (r: Result<Keypair, ServiceError>)
    ensures
        r matches Ok(k) ==> k.wf(),
        forall|raw: Seq<u8>, sb: Seq<u8>, kp: Seq<u8>|
            custody_encodes(private_key@, secret@, raw, sb, kp) ==> (r matches Ok(k) && k.bytes@
                == kp && k.address@ == kp.subrange(32, 64)),
        (forall|b: Seq<u8>| private_key@ != b64_of(b)) ==> r is Err,
        (forall|b: Seq<u8>| secret@ != b64_of(b)) ==> r is Err,
        forall|b: Seq<u8>|
            private_key@ == b64_of(b) && b.len() < NONCE_LEN ==> r is Err,
{
    let raw = match b64_decode(private_key) {
        Some(v) => v,
        None => {
            return Err(
                ServiceError::Web3Error(
                    Web3ErrorType::Custom(String::from_str("Failed to decode private key")),
                ),
            );
        },
    };
    let secret_bytes = match b64_decode(secret) {
        Some(v) => v,
        None => {
            return Err(
                ServiceError::Web3Error(
                    Web3ErrorType::Custom(String::from_str("Failed to decode secret")),
                ),
            );
        },
    };
    if raw.len() < NONCE_LEN {
        return Err(
            ServiceError::Web3Error(
                Web3ErrorType::Custom(String::from_str("Invalid private key")),
            ),
        );
    }
    let nonce = bytes_range(&raw, 0, NONCE_LEN);
    let ciphertext = bytes_range(&raw, NONCE_LEN, raw.len());
    let key = sha256(&secret_bytes);
    let kp_bytes = match aes_gcm_open(&key, &nonce, &ciphertext) {
        Some(v) => v,
        None => {
            return Err(
                ServiceError::Web3Error(
                    Web3ErrorType::Custom(String::from_str("Failed to decrypt wallet")),
                ),
            );
        },
    };
    let address = match keypair_address(&kp_bytes) {
        Some(a) => a,
        None => {
            return Err(
                ServiceError::Web3Error(
                    Web3ErrorType::Custom(
                        String::from_str("Failed to derive keypair from wallet"),
                    ),
                ),
            );
        },
    };
    Ok(Keypair { bytes: kp_bytes, address })
}

} // verus!
