use vstd::prelude::*;
use vstd::string::StringExecFns;
use crate::error::OrderbookError;
use crate::numeral::{dec_seq, u64_to_dec};

verus! {

#[verifier::external_type_specification]
#[verifier::external_body]
pub struct ExRsaPrivateKey(rsa::RsaPrivateKey);

/// Holds the RSA-PSS signing key. `rsa::pss::SigningKey<sha2::Sha256>`
/// cannot be declared to Verus (the digest type is an alias over crate
/// internals), so this struct stands opaque and the trusted signing
/// functions below are the only code that touches it.
#[verifier::external_body]
pub struct SigningBackend {
    key: rsa::pss::SigningKey<sha2::Sha256>,
}

/// Whether a text is a well-formed PEM-encoded PKCS#1 RSA private key.
/// Parsing is a function of the text alone.
pub uninterp spec fn is_pkcs1_rsa_pem(s: Seq<char>) -> bool;

/// The standard, padded base64 encoding of `b`: a function of the bytes
/// alone.
pub uninterp spec fn base64_of(b: Seq<u8>) -> Seq<char>;

/// Relies on `rsa::pkcs1::DecodeRsaPrivateKey::from_pkcs1_pem`: whether
/// the text parses as a PKCS#1 RSA private key depends on the text alone.
#[verifier::external_body]
fn parse_private_key(pem: &str) -> (r: Option<rsa::RsaPrivateKey>)
    ensures
        r is Some <==> is_pkcs1_rsa_pem(pem@),
{
    <rsa::RsaPrivateKey as rsa::pkcs1::DecodeRsaPrivateKey>::from_pkcs1_pem(pem).ok()
}

/// Relies on `rsa::pss::SigningKey::new`: wraps a parsed private key for
/// RSA-PSS signing with SHA-256.
#[verifier::external_body]
fn make_signing_key(key: rsa::RsaPrivateKey) -> (r: SigningBackend) {
    SigningBackend { key: rsa::pss::SigningKey::new(key) }
}

/// Relies on `rsa::signature::RandomizedSigner::try_sign_with_rng` with
/// `rand::thread_rng`: the scheme injects fresh randomness per call, so
/// nothing relates two signatures of the same challenge; `None` is the
/// backend declining (a key too small for the digest and salt).
#[verifier::external_body]
fn sign_message(backend: &SigningBackend, msg: &str) -> (r: Option<Vec<u8>>) {
    let mut rng = rand::thread_rng();
    let sig: rsa::pss::Signature = rsa::signature::RandomizedSigner::try_sign_with_rng(
        &backend.key,
        &mut rng,
        msg.as_bytes(),
    ).ok()?;
    Some(rsa::signature::SignatureEncoding::to_vec(&sig))
}

/// Relies on `base64::engine::general_purpose::STANDARD`'s `encode`:
/// standard alphabet with padding, a function of the input bytes alone;
/// the output is four characters for every three input bytes, rounded up.
#[verifier::external_body]
fn encode_base64(b: &Vec<u8>) -> (r: String)
    ensures
        r@ == base64_of(b@),
        r@.len() == 4 * ((b@.len() + 2) / 3),
{
    base64::Engine::encode(&base64::engine::general_purpose::STANDARD, b.as_slice())
}

/// Relies on `std::time::SystemTime::now` and `duration_since`:
/// milliseconds since the Unix epoch, zero if the clock reads earlier
/// than the epoch. Wall-clock time, so nothing is promised of the value.
#[verifier::external_body]
fn now_millis() -> (t: u64) {
    match std::time::SystemTime::now().duration_since(std::time::UNIX_EPOCH) {
        Ok(d) => d.as_millis() as u64,
        Err(_) => 0,
    }
}

/// The challenge the venue expects signed: the millisecond timestamp
/// followed by the verb and path of the streaming endpoint.
pub open spec fn spec_challenge(ts: u64) -> Seq<char> {
    dec_seq(ts) + "GET/trade-api/ws/v2"@
}

/// Builds the signing challenge for a timestamp.
pub fn challenge_for(ts: u64) -> (s: String)
    ensures
        s@ == spec_challenge(ts),
{
    let num = u64_to_dec(ts);
    let s = num.concat("GET/trade-api/ws/v2");
    s
}

/// The request signer: an RSA-PSS signing key plus the public key
/// identifier the venue knows it by. Immutable once loaded; the key
/// itself never leaves this struct.
pub struct KalshiSigner {
    signing_key: SigningBackend,
    api_key_id: String,
}

impl KalshiSigner {
    /// The key identifier sent alongside every signature.
    pub closed spec fn spec_key_id(self) -> Seq<char> {
        self.api_key_id@
    }

    /// Loads the signer from the PEM text of a PKCS#1 RSA private key.
    /// Fails, and says so, exactly when the text is not such a key.
    pub fn new(pem: &str, api_key_id: String) -> (r: Result<KalshiSigner, OrderbookError>)
        ensures
            r is Ok <==> is_pkcs1_rsa_pem(pem@),
            r is Ok ==> r->Ok_0.spec_key_id() == api_key_id@,
            r is Err ==> r->Err_0 is AuthError,
    {
        match parse_private_key(pem) {
            None => Err(
                OrderbookError::AuthError(
                    String::from_str("key is not a PEM-encoded PKCS#1 RSA private key"),
                ),
            ),
            Some(key) => Ok(
                KalshiSigner { signing_key: make_signing_key(key), api_key_id },
            ),
        }
    }

    /// Assembles the header triple from a timestamp and the raw signature
    /// bytes the backend produced: the key identifier, the base64 text of
    /// the signature, and the decimal timestamp.
    pub fn headers_from_sig(&self, ts: u64, sig: &Vec<u8>) -> (h: (String, String, String))
        ensures
            h.0@ == self.spec_key_id(),
            h.1@ == base64_of(sig@),
            h.2@ == dec_seq(ts),
    {
        (self.api_key_id.clone(), encode_base64(sig), u64_to_dec(ts))
    }

    /// Produces the authentication headers for the given timestamp:
    /// signs the challenge for `ts` and assembles the header triple.
    /// `None` only when the signing backend declines.
    pub fn headers_for(&self, ts: u64) -> (r: Option<(String, String, String)>)
        ensures
            match r {
                Some(h) => {
                    &&& h.0@ == self.spec_key_id()
                    &&& h.2@ == dec_seq(ts)
                    &&& exists|b: Seq<u8>| h.1@ == base64_of(b)
                },
                None => true,
            },
    {
        let msg = challenge_for(ts);
        match sign_message(&self.signing_key, msg.as_str()) {
            None => None,
            Some(sig) => {
                let h = self.headers_from_sig(ts, &sig);
                proof {
                    assert(h.1@ == base64_of(sig@));
                }
                Some(h)
            },
        }
    }

    /// Produces fresh, single-use authentication headers from the wall
    /// clock, as each connection attempt needs them.
    pub fn get_auth_headers(&self) -> (r: Option<(String, String, String)>)
        ensures
            match r {
                Some(h) => {
                    &&& h.0@ == self.spec_key_id()
                    &&& (exists|ts: u64| h.2@ == dec_seq(ts))
                    &&& exists|b: Seq<u8>| h.1@ == base64_of(b)
                },
                None => true,
            },
    {
        let ts = now_millis();
        self.headers_for(ts)
    }
}

} // verus!
