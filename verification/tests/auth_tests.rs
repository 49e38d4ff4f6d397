use orderbook::auth::{challenge_for, KalshiSigner};
use orderbook::error::OrderbookError;
use rsa::pkcs1::{EncodeRsaPrivateKey, LineEnding};
use rsa::signature::Verifier;

fn fresh_key_pem() -> (rsa::RsaPrivateKey, String) {
    let mut rng = rand::thread_rng();
    let private_key = rsa::RsaPrivateKey::new(&mut rng, 2048).unwrap();
    let pem = private_key.to_pkcs1_pem(LineEnding::LF).unwrap().to_string();
    (private_key, pem)
}

#[test]
fn test_auth_header_generation() {
    let (_, pem) = fresh_key_pem();
    let signer = KalshiSigner::new(&pem, "test_id".to_string()).unwrap();
    let (id, sig, ts) = signer.get_auth_headers().unwrap();

    assert_eq!(id, "test_id");
    assert!(!sig.is_empty());
    assert!(ts.parse::<u64>().is_ok());
}

#[test]
fn signer_rejects_malformed_key() {
    let r = KalshiSigner::new("not a private key", "test_id".to_string());
    assert!(matches!(r, Err(OrderbookError::AuthError(_))));
}

#[test]
fn header_triple_is_id_base64_and_decimal_timestamp() {
    let (_, pem) = fresh_key_pem();
    let signer = KalshiSigner::new(&pem, "test_id".to_string()).unwrap();
    let h = signer.headers_from_sig(12345, &vec![1u8, 2, 3]);
    assert_eq!(h.0, "test_id");
    assert_eq!(h.1, "AQID");
    assert_eq!(h.2, "12345");
}

#[test]
fn challenge_is_timestamp_then_verb_and_path() {
    assert_eq!(challenge_for(42), "42GET/trade-api/ws/v2");
}

#[test]
fn produced_signature_verifies_against_the_key() {
    let (private_key, pem) = fresh_key_pem();
    let signer = KalshiSigner::new(&pem, "test_id".to_string()).unwrap();
    let (_, sig_b64, ts) = signer.headers_for(93000).unwrap();
    assert_eq!(ts, "93000");

    let sig_bytes =
        base64::Engine::decode(&base64::engine::general_purpose::STANDARD, &sig_b64).unwrap();
    let signature = rsa::pss::Signature::try_from(sig_bytes.as_slice()).unwrap();
    let verifying_key =
        rsa::pss::VerifyingKey::<sha2::Sha256>::new(rsa::RsaPublicKey::from(&private_key));
    let challenge = challenge_for(93000);
    verifying_key.verify(challenge.as_bytes(), &signature).unwrap();
}
