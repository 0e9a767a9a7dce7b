//! The authentication and anti-replay pipeline run on the first `presence`
//! frame: password, per-address rate limit, timestamp window, nonce, and
//! Ed25519 signature over the raw timestamp string.

use base64::Engine;
use ed25519_dalek::Verifier;
use vstd::prelude::*;
use vstd::string::StrSliceExecFns;

use crate::limiter::{
    check_and_store_nonce, check_auth_rate_limit, live_times, spec_nonce_fresh, times_under,
    RateLimiter, RATE_WINDOW_MS,
};
use crate::numparse::{format_i64, spec_format_i64};
use crate::strutil::str_eq;
use crate::timestamp::{spec_validate_timestamp, validate_timestamp_at};

verus! {

/// What the standard base64 alphabet decodes a string to, if anything.
/// Relies on the base64 crate's `Engine::decode` being a function of the
/// input characters alone.
pub uninterp spec fn base64_decoding(s: Seq<char>) -> Option<Seq<u8>>;

/// Whether 32 bytes decode to a valid Ed25519 verifying key. Relies on
/// `ed25519_dalek::VerifyingKey::from_bytes` depending on the bytes alone.
pub uninterp spec fn ed25519_key_ok(pk: Seq<u8>) -> bool;

/// Whether a 64-byte signature verifies a message under a key. Relies on
/// Ed25519 verification depending on key, message and signature alone.
pub uninterp spec fn ed25519_sig_valid(pk: Seq<u8>, msg: Seq<u8>, sig: Seq<u8>) -> bool;

/// Relies on the base64 crate's standard engine `decode`.
#[verifier::external_body]
fn b64_decode(s: &str) -> (r: Option<Vec<u8>>)
    ensures
        match r {
            Some(v) => base64_decoding(s@) == Some(v@),
            None => base64_decoding(s@) is None,
        },
{
    match base64::engine::general_purpose::STANDARD.decode(s) {
        Ok(v) => Some(v),
        Err(_) => None,
    }
}

/// Relies on `ed25519_dalek::VerifyingKey::from_bytes`: whether a 32-byte
/// string is a valid public key.
#[verifier::external_body]
fn ed25519_key_decodes(pk: &[u8]) -> (r: bool)
    requires
        pk@.len() == 32,
    ensures
        r == ed25519_key_ok(pk@),
{
    let arr: [u8; 32] = match pk.try_into() {
        Ok(a) => a,
        Err(_) => return false,
    };
    ed25519_dalek::VerifyingKey::from_bytes(&arr).is_ok()
}

/// Relies on `ed25519_dalek::VerifyingKey::from_bytes`,
/// `ed25519_dalek::Signature::from_slice` (which fails only on a length
/// other than 64) and `Verifier::verify`.
#[verifier::external_body]
fn ed25519_verify(pk: &[u8], msg: &[u8], sig: &[u8]) -> (r: bool)
    requires
        pk@.len() == 32,
        ed25519_key_ok(pk@),
        sig@.len() == 64,
    ensures
        r == ed25519_sig_valid(pk@, msg@, sig@),
{
    let arr: [u8; 32] = match pk.try_into() {
        Ok(a) => a,
        Err(_) => return false,
    };
    let key = match ed25519_dalek::VerifyingKey::from_bytes(&arr) {
        Ok(k) => k,
        Err(_) => return false,
    };
    let signature = match ed25519_dalek::Signature::from_slice(sig) {
        Ok(s) => s,
        Err(_) => return false,
    };
    key.verify(msg, &signature).is_ok()
}

/// Why an authentication attempt was rejected.
#[derive(PartialEq, Eq, Structural, Clone, Copy, Debug)]
pub enum AuthError {
    InvalidPassword,
    AuthRateLimit,
    InvalidTimestamp,
    ReplayAttack,
    InvalidEncoding,
    InvalidKeyLength,
    InvalidPublicKey,
    InvalidSignatureFormat,
    InvalidSignature,
}

impl AuthError {
    /// The stable error code sent to the peer.
    pub open spec fn spec_code(&self) -> Seq<char> {
        match self {
            AuthError::InvalidPassword => "invalid-password"@,
            AuthError::AuthRateLimit => "auth-rate-limit"@,
            AuthError::InvalidTimestamp => "invalid-timestamp"@,
            AuthError::ReplayAttack => "replay-attack"@,
            AuthError::InvalidEncoding => "invalid-encoding"@,
            AuthError::InvalidKeyLength => "invalid-key-length"@,
            AuthError::InvalidPublicKey => "invalid-public-key"@,
            AuthError::InvalidSignatureFormat => "invalid-signature-format"@,
            AuthError::InvalidSignature => "invalid-signature"@,
        }
    }

    /// The stable error code sent to the peer.
    pub fn code(&self) -> (r: &'static str)
        ensures
            r@ == self.spec_code(),
    {
        match self {
            AuthError::InvalidPassword => "invalid-password",
            AuthError::AuthRateLimit => "auth-rate-limit",
            AuthError::InvalidTimestamp => "invalid-timestamp",
            AuthError::ReplayAttack => "replay-attack",
            AuthError::InvalidEncoding => "invalid-encoding",
            AuthError::InvalidKeyLength => "invalid-key-length",
            AuthError::InvalidPublicKey => "invalid-public-key",
            AuthError::InvalidSignatureFormat => "invalid-signature-format",
            AuthError::InvalidSignature => "invalid-signature",
        }
    }
}

/// The replay key composed from a public key and a parsed timestamp.
pub open spec fn spec_nonce_key(pk: Seq<char>, t: i64) -> Seq<char> {
    pk + seq![':'] + spec_format_i64(t as int)
}

/// The authentication decision, given the limiter state at entry.
///
/// The checks run in order: password, field presence, per-address rate
/// limit, timestamp window, replay nonce, base64 decoding, key length, key
/// validity, signature length, signature verification.
pub open spec fn spec_authenticate(
    server_password: Option<Seq<char>>,
    password: Option<Seq<char>>,
    public_key: Option<Seq<char>>,
    signature: Option<Seq<char>>,
    timestamp: Option<Seq<char>>,
    client_ip: Seq<char>,
    now: i64,
    auth_limit: usize,
    nonce_expiry_ms: i64,
    limiter: RateLimiter,
) -> Result<i64, AuthError> {
    if server_password is Some && password != server_password {
        Err(AuthError::InvalidPassword)
    } else if !(public_key is Some && signature is Some && timestamp is Some) {
        Err(AuthError::InvalidSignature)
    } else if !limiter.auth_attempts.spec_allowed(client_ip, now, auth_limit) {
        Err(AuthError::AuthRateLimit)
    } else {
        match spec_validate_timestamp(timestamp.unwrap(), now) {
            Err(_) => Err(AuthError::InvalidTimestamp),
            Ok(t) => {
                if !spec_nonce_fresh(
                    limiter.used_nonces@,
                    spec_nonce_key(public_key.unwrap(), t),
                    now - nonce_expiry_ms,
                ) {
                    Err(AuthError::ReplayAttack)
                } else {
                    match (base64_decoding(public_key.unwrap()), base64_decoding(
                        signature.unwrap(),
                    )) {
                        (Some(pkb), Some(sigb)) => {
                            if pkb.len() != 32 {
                                Err(AuthError::InvalidKeyLength)
                            } else if !ed25519_key_ok(pkb) {
                                Err(AuthError::InvalidPublicKey)
                            } else if sigb.len() != 64 {
                                Err(AuthError::InvalidSignatureFormat)
                            } else if !ed25519_sig_valid(
                                pkb,
                                vstd::utf8::encode_utf8(timestamp.unwrap()),
                                sigb,
                            ) {
                                Err(AuthError::InvalidSignature)
                            } else {
                                Ok(t)
                            }
                        },
                        _ => Err(AuthError::InvalidEncoding),
                    }
                }
            },
        }
    }
}

/// Run the authentication pipeline for a first `presence` frame.
///
/// On success the parsed timestamp is returned; on failure the most
/// specific error. The per-address attempt window and the nonce store are
/// updated as a side effect, exactly when their checks are reached.
pub fn authenticate(
    server_password: &Option<String>,
    password: &Option<String>,
    public_key: &Option<String>,
    signature: &Option<String>,
    timestamp: &Option<String>,
    client_ip: &str,
    now: i64,
    auth_limit: usize,
    nonce_expiry_ms: i64,
    limiter: &mut RateLimiter,
) -> (r: Result<i64, AuthError>)
    requires
        old(limiter).wf(),
    ensures
        final(limiter).wf(),
        final(limiter).message_times@ == old(limiter).message_times@,
        !auth_fields_reached(view_opt(*server_password), view_opt(*password), view_opt(*public_key), view_opt(*signature), view_opt(*timestamp))
            ==> final(limiter).auth_attempts@ == old(limiter).auth_attempts@
                && final(limiter).used_nonces@ == old(limiter).used_nonces@,
        auth_fields_reached(view_opt(*server_password), view_opt(*password), view_opt(*public_key), view_opt(*signature), view_opt(*timestamp))
            && old(limiter).auth_attempts.spec_allowed(client_ip@, now, auth_limit)
            ==> (match spec_validate_timestamp(timestamp.unwrap()@, now) {
                Ok(t) => final(limiter).used_nonces@ == (
                    if spec_nonce_fresh(
                        old(limiter).used_nonces@,
                        spec_nonce_key(public_key.unwrap()@, t),
                        now - nonce_expiry_ms,
                    ) {
                        crate::limiter::live_nonces(old(limiter).used_nonces@, now - nonce_expiry_ms)
                            .insert(spec_nonce_key(public_key.unwrap()@, t), now)
                    } else {
                        crate::limiter::live_nonces(old(limiter).used_nonces@, now - nonce_expiry_ms)
                    }),
                Err(_) => final(limiter).used_nonces@ == old(limiter).used_nonces@,
            }),
        auth_fields_reached(view_opt(*server_password), view_opt(*password), view_opt(*public_key), view_opt(*signature), view_opt(*timestamp))
            && !old(limiter).auth_attempts.spec_allowed(client_ip@, now, auth_limit)
            ==> final(limiter).used_nonces@ == old(limiter).used_nonces@,
        auth_fields_reached(view_opt(*server_password), view_opt(*password), view_opt(*public_key), view_opt(*signature), view_opt(*timestamp))
            ==> times_under(final(limiter).auth_attempts@, client_ip@) == (
                if old(limiter).auth_attempts.spec_allowed(client_ip@, now, auth_limit) {
                    live_times(times_under(old(limiter).auth_attempts@, client_ip@), now - RATE_WINDOW_MS).push(now)
                } else {
                    live_times(times_under(old(limiter).auth_attempts@, client_ip@), now - RATE_WINDOW_MS)
                })
                && (forall|k2: Seq<char>| k2 != client_ip@
                    ==> times_under(final(limiter).auth_attempts@, k2)
                        == times_under(old(limiter).auth_attempts@, k2)),
        r == spec_authenticate(
            view_opt(*server_password),
            view_opt(*password),
            view_opt(*public_key),
            view_opt(*signature),
            view_opt(*timestamp),
            client_ip@,
            now,
            auth_limit,
            nonce_expiry_ms,
            *old(limiter),
        ),
{
    if let Some(required) = server_password {
        let matches = match password {
            Some(p) => str_eq(p.as_str(), required.as_str()),
            None => false,
        };
        if !matches {
            return Err(AuthError::InvalidPassword);
        }
    }
    let (pk, sig, ts) = match (public_key, signature, timestamp) {
        (Some(pk), Some(sig), Some(ts)) => (pk, sig, ts),
        _ => {
            return Err(AuthError::InvalidSignature);
        },
    };
    if !check_auth_rate_limit(limiter, client_ip, now, auth_limit) {
        return Err(AuthError::AuthRateLimit);
    }
    let t = match validate_timestamp_at(ts.as_str(), now) {
        Ok(t) => t,
        Err(_) => {
            return Err(AuthError::InvalidTimestamp);
        },
    };
    let mut nonce = pk.clone();
    nonce.append(":");
    let t_str = format_i64(t);
    nonce.append(t_str.as_str());
    proof {
        reveal_strlit(":");
        assert(nonce@ =~= spec_nonce_key(pk@, t));
    }
    if !check_and_store_nonce(limiter, nonce.as_str(), now, nonce_expiry_ms) {
        return Err(AuthError::ReplayAttack);
    }
    let pk_bytes = match b64_decode(pk.as_str()) {
        Some(b) => b,
        None => {
            return Err(AuthError::InvalidEncoding);
        },
    };
    let sig_bytes = match b64_decode(sig.as_str()) {
        Some(b) => b,
        None => {
            return Err(AuthError::InvalidEncoding);
        },
    };
    if pk_bytes.len() != 32 {
        return Err(AuthError::InvalidKeyLength);
    }
    if !ed25519_key_decodes(pk_bytes.as_slice()) {
        return Err(AuthError::InvalidPublicKey);
    }
    if sig_bytes.len() != 64 {
        return Err(AuthError::InvalidSignatureFormat);
    }
    if !ed25519_verify(pk_bytes.as_slice(), ts.as_str().as_bytes(), sig_bytes.as_slice()) {
        return Err(AuthError::InvalidSignature);
    }
    Ok(t)
}


/// Whether the pipeline reaches the rate-limit step: the password gate
/// passed and all three credential fields are present.
pub open spec fn auth_fields_reached(
    server_password: Option<Seq<char>>,
    password: Option<Seq<char>>,
    public_key: Option<Seq<char>>,
    signature: Option<Seq<char>>,
    timestamp: Option<Seq<char>>,
) -> bool {
    !(server_password is Some && password != server_password) && public_key is Some
        && signature is Some && timestamp is Some
}

/// The view of an optional string.
pub open spec fn view_opt(s: Option<String>) -> Option<Seq<char>> {
    match s {
        Some(s) => Some(s@),
        None => None,
    }
}

} // verus!
