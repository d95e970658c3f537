use settlement_engine::custody::{create_wallet, decode_keypair};
use std::str::FromStr;

#[test]
fn test_create_wallet() -> Result<(), String> {
    let (private_key, secret, public_key) = create_wallet().map_err(|e| format!("{:?}", e))?;
    println!("Public Key: {}", public_key);
    println!("Private key: {}", private_key);
    println!("Secret: {}", secret);

    let keypair = decode_keypair(&private_key, &secret).map_err(|e| format!("{:?}", e))?;
    let expected = solana_keypair::Address::from_str(&public_key).map_err(|e| format!("{:?}", e))?;
    assert!(keypair.address.bytes.as_slice() == expected.to_bytes().as_slice());

    Ok(())
}

#[test]
fn custody_round_trip_many_trials() {
    for _ in 0..20 {
        let (blob, secret, address) = create_wallet().unwrap();
        let recovered = decode_keypair(&blob, &secret).unwrap();
        let expected = solana_keypair::Address::from_str(&address).unwrap();
        assert_eq!(recovered.address.bytes.as_slice(), expected.to_bytes().as_slice());
    }
}

#[test]
fn custody_wrong_secret_fails() {
    let (blob, _secret, _address) = create_wallet().unwrap();
    let (_blob2, other_secret, _address2) = create_wallet().unwrap();
    let recovered = decode_keypair(&blob, &other_secret);
    assert!(recovered.is_err());
}

#[test]
fn custody_tampered_blob_fails() {
    let (blob, secret, _address) = create_wallet().unwrap();
    let mut raw = base64::Engine::decode(&base64::engine::general_purpose::STANDARD, &blob)
        .unwrap();
    let last = raw.len() - 1;
    raw[last] ^= 0x01;
    let tampered = base64::Engine::encode(&base64::engine::general_purpose::STANDARD, &raw);
    let recovered = decode_keypair(&tampered, &secret);
    assert!(recovered.is_err());
}

#[test]
fn custody_blob_is_not_base64_fails() {
    let (_blob, secret, _address) = create_wallet().unwrap();
    let recovered = decode_keypair("not-base64!!", &secret);
    assert!(recovered.is_err());
}

#[test]
fn keypair_signs_deterministically() {
    let (blob, secret, _address) = create_wallet().unwrap();
    let keypair = decode_keypair(&blob, &secret).unwrap();
    let message: Vec<u8> = vec![1, 2, 3, 4];
    let a = keypair.sign(&message);
    let b = keypair.sign(&message);
    assert_eq!(a.bytes, b.bytes);
    let external = solana_keypair::Keypair::try_from(keypair.bytes.as_slice()).unwrap();
    let expected = solana_keypair::Signer::sign_message(&external, &message);
    assert_eq!(a.bytes.as_slice(), expected.as_ref());
}
