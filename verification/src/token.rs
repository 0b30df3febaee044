//! Issuance and verification of the CSRF token / sealed-cookie pair.
//!
//! A pair is minted per session-creation event: a fresh random value is
//! sealed under a process-wide 256-bit symmetric key into two
//! authenticated-encrypted blobs, the plaintext-comparable CSRF token and
//! the sealed cookie (which also embeds an expiry), both base64-encoded
//! for transport. Verification authenticates before trusting anything: a
//! blob that fails decoding is `Malformed`, one that fails authentication
//! is `Forged`, and an authentic cookie whose embedded expiry has elapsed
//! is `Expired` — no further reason is ever revealed.

use vstd::prelude::*;

use crate::errors::{Error, VerifyError};

verus! {

/// Largest magnitude of a time to live, in seconds, that is handed to
/// the sealing primitive (about thirty-five thousand years). The expiry
/// is computed as now-plus-ttl with `chrono`, whose duration constructor
/// panics beyond roughly `i64::MAX / 1000` seconds and whose date
/// arithmetic panics when the resulting date leaves its representable
/// range; this bound stays far inside both for any sane clock.
pub const MAX_TTL_SECONDS: i64 = 1_099_511_627_776;

/// What standard padded base64 decoding yields for `s`: `None` where the
/// decoder rejects the string, otherwise the decoded bytes. A pure
/// function of the string.
pub uninterp spec fn b64_decoded(s: Seq<char>) -> Option<Seq<u8>>;

/// What authenticated decryption of a sealed cookie yields under `key`:
/// `None` where the blob does not authenticate, otherwise the embedded
/// token value. A pure function of key and bytes.
pub uninterp spec fn parsed_cookie(key: Seq<u8>, bytes: Seq<u8>) -> Option<Seq<u8>>;

/// What authenticated decryption of a CSRF token blob yields under `key`:
/// `None` where the blob does not authenticate, otherwise the embedded
/// token value. A pure function of key and bytes.
pub uninterp spec fn parsed_token(key: Seq<u8>, bytes: Seq<u8>) -> Option<Seq<u8>>;

/// The sealed cookie `cookie` decodes and authenticates under `key`.
pub open spec fn cookie_sealed(key: Seq<u8>, cookie: Seq<char>) -> bool {
    match b64_decoded(cookie) {
        Some(bytes) => parsed_cookie(key, bytes) is Some,
        None => false,
    }
}

/// The embedded token value of a sealed cookie (meaningful only where
/// `cookie_sealed` holds).
pub open spec fn cookie_value(key: Seq<u8>, cookie: Seq<char>) -> Seq<u8>
    recommends
        cookie_sealed(key, cookie),
{
    parsed_cookie(key, b64_decoded(cookie).unwrap()).unwrap()
}

/// The CSRF token string `token` decodes and authenticates under `key`.
pub open spec fn token_sealed(key: Seq<u8>, token: Seq<char>) -> bool {
    match b64_decoded(token) {
        Some(bytes) => parsed_token(key, bytes) is Some,
        None => false,
    }
}

/// The embedded value of a CSRF token string (meaningful only where
/// `token_sealed` holds).
pub open spec fn token_value(key: Seq<u8>, token: Seq<char>) -> Seq<u8>
    recommends
        token_sealed(key, token),
{
    parsed_token(key, b64_decoded(token).unwrap()).unwrap()
}

/// Token and cookie both authenticate under `key` and carry the same
/// embedded value — what holds of every freshly issued pair.
pub open spec fn pair_sealed(key: Seq<u8>, token: Seq<char>, cookie: Seq<char>) -> bool {
    &&& token_sealed(key, token)
    &&& cookie_sealed(key, cookie)
    &&& token_value(key, token) == cookie_value(key, cookie)
}

/// Relies on `data_encoding::BASE64.decode`: standard padded base64, a
/// pure function of the input string; rejection is reported as an error,
/// never a panic. (The decoder also accepts concatenations of padded
/// chunks, so acceptance is slightly wider than one canonical encoding.)
#[verifier::external_body]
fn b64_decode(s: &str) -> (r: Result<Vec<u8>, ()>)
    ensures
        match r {
            Ok(v) => b64_decoded(s@) == Some(v@),
            Err(_) => b64_decoded(s@) is None,
        },
{
    match data_encoding::BASE64.decode(s.as_bytes()) {
        Ok(v) => Ok(v),
        Err(_) => Err(()),
    }
}

/// Relies on `csrf::CsrfProtection::parse_cookie` for
/// `ChaCha20Poly1305CsrfProtection`: authenticated decryption under `key`,
/// a pure function of key and ciphertext, yielding the embedded token
/// value on success and an error where length or authentication fails.
#[verifier::external_body]
fn csrf_parse_cookie(key: &[u8; 32], bytes: &Vec<u8>) -> (r: Result<Vec<u8>, ()>)
    ensures
        match r {
            Ok(v) => parsed_cookie(key@, bytes@) == Some(v@),
            Err(_) => parsed_cookie(key@, bytes@) is None,
        },
{
    let protect = csrf::ChaCha20Poly1305CsrfProtection::from_key(*key);
    match csrf::CsrfProtection::parse_cookie(&protect, bytes.as_slice()) {
        Ok(parsed) => Ok(parsed.value().to_vec()),
        Err(_) => Err(()),
    }
}

/// Relies on `csrf::CsrfProtection::parse_token` for
/// `ChaCha20Poly1305CsrfProtection`: authenticated decryption under `key`,
/// a pure function of key and ciphertext, yielding the embedded token
/// value on success.
#[verifier::external_body]
fn csrf_parse_token(key: &[u8; 32], bytes: &Vec<u8>) -> (r: Result<Vec<u8>, ()>)
    ensures
        match r {
            Ok(v) => parsed_token(key@, bytes@) == Some(v@),
            Err(_) => parsed_token(key@, bytes@) is None,
        },
{
    let protect = csrf::ChaCha20Poly1305CsrfProtection::from_key(*key);
    match csrf::CsrfProtection::parse_token(&protect, bytes.as_slice()) {
        Ok(parsed) => Ok(parsed.value().to_vec()),
        Err(_) => Err(()),
    }
}

/// Relies on `csrf::CsrfProtection::generate_token_pair` for
/// `ChaCha20Poly1305CsrfProtection`: a fresh random 64-byte value is
/// sealed under `key` into a token blob and a cookie blob (the cookie
/// additionally embedding an expiry `ttl_seconds` from now), both returned
/// base64-encoded; parsing either under the same key recovers that one
/// value. The value and the ciphertexts are random, so nothing is claimed
/// about the strings themselves. The bound on `ttl_seconds` keeps the
/// expiry arithmetic inside `chrono`'s panic-free range (see
/// `MAX_TTL_SECONDS`); an operating-system RNG failure would still abort,
/// which no input can provoke.
#[verifier::external_body]
fn csrf_generate_pair(key: &[u8; 32], ttl_seconds: i64) -> (r: Result<(String, String), ()>)
    requires
        -MAX_TTL_SECONDS <= ttl_seconds <= MAX_TTL_SECONDS,
    ensures
        r matches Ok(p) ==> pair_sealed(key@, p.0@, p.1@),
{
    let protect = csrf::ChaCha20Poly1305CsrfProtection::from_key(*key);
    match csrf::CsrfProtection::generate_token_pair(&protect, None, ttl_seconds) {
        Ok((token, cookie)) => Ok((token.b64_string(), cookie.b64_string())),
        Err(_) => Err(()),
    }
}

/// Relies on `csrf::CsrfProtection::{parse_cookie, verify_token_pair}`:
/// handed the cookie's own embedded value as the token, the pair check
/// reduces to testing the cookie's embedded expiry against the clock at
/// the time of the call. The outcome depends on that clock, so nothing
/// more is assumed of it than that success presupposes authentication.
#[verifier::external_body]
fn csrf_cookie_unexpired(key: &[u8; 32], bytes: &Vec<u8>) -> (r: bool)
    ensures
        r ==> parsed_cookie(key@, bytes@) is Some,
{
    let protect = csrf::ChaCha20Poly1305CsrfProtection::from_key(*key);
    match csrf::CsrfProtection::parse_cookie(&protect, bytes.as_slice()) {
        Ok(cookie) => {
            let token = csrf::UnencryptedCsrfToken::new(cookie.value().to_vec());
            csrf::CsrfProtection::verify_token_pair(&protect, &token, &cookie).is_ok()
        }
        Err(_) => false,
    }
}

/// The token protector: proves "this request was issued a valid session by
/// us" without a lookup table of its own, and supplies the CSRF-binding
/// value. The symmetric key is injected once at construction and is
/// immutable for the protector's lifetime; losing it (a restart without a
/// persisted key) invalidates all outstanding sealed cookies, which is
/// accepted behaviour.
pub struct TokenProtector {
    key: [u8; 32],
}

impl TokenProtector {
    /// The key this protector seals and verifies under.
    pub closed spec fn key(&self) -> Seq<u8> {
        self.key@
    }

    /// Construct a protector over a 256-bit symmetric key.
    pub fn new(key: [u8; 32]) -> (r: TokenProtector)
        ensures
            r.key() == key@,
    {
        TokenProtector { key }
    }

    /// Mint a fresh CSRF token / sealed cookie pair with the given time to
    /// live. On success both halves authenticate under this protector's
    /// key and carry the same embedded value; failure reports only an
    /// internal error. The bound on `ttl_seconds` is a machine limit of
    /// the sealing primitive's time arithmetic (see `MAX_TTL_SECONDS`).
    pub fn get_new_token_pair(&self, ttl_seconds: i64) -> (r: Result<(String, String), Error>)
        requires
            -MAX_TTL_SECONDS <= ttl_seconds <= MAX_TTL_SECONDS,
        ensures
            r matches Ok(p) ==> pair_sealed(self.key(), p.0@, p.1@),
            r matches Err(e) ==> e == Error::InternalServerError,
    {
        match csrf_generate_pair(&self.key, ttl_seconds) {
            Ok(pair) => Ok(pair),
            Err(_) => Err(Error::InternalServerError),
        }
    }

    /// Decode, authenticate and freshness-check a sealed cookie.
    /// `Malformed` exactly where base64 decoding fails, `Forged` exactly
    /// where the decoded blob does not authenticate; an authentic cookie
    /// yields `Ok` or `Expired` according to whether its embedded expiry
    /// has elapsed at the time of the call. Nothing of an unauthenticated
    /// blob is ever trusted.
    pub fn verify_cookie(&self, cookie: &str) -> (r: Result<(), VerifyError>)
        ensures
            b64_decoded(cookie@) is None ==> r == Err::<(), VerifyError>(VerifyError::Malformed),
            (b64_decoded(cookie@) is Some && !cookie_sealed(self.key(), cookie@)) ==> r == Err::<
                (),
                VerifyError,
            >(VerifyError::Forged),
            cookie_sealed(self.key(), cookie@) ==> (r == Ok::<(), VerifyError>(()) || r == Err::<
                (),
                VerifyError,
            >(VerifyError::Expired)),
            r is Ok ==> cookie_sealed(self.key(), cookie@),
    {
        let bytes = match b64_decode(cookie) {
            Ok(b) => b,
            Err(_) => {
                return Err(VerifyError::Malformed);
            },
        };
        match csrf_parse_cookie(&self.key, &bytes) {
            Ok(_) => (),
            Err(_) => {
                return Err(VerifyError::Forged);
            },
        }
        if csrf_cookie_unexpired(&self.key, &bytes) {
            Ok(())
        } else {
            Err(VerifyError::Expired)
        }
    }

    /// Double-submit check: the request-supplied CSRF token and the sealed
    /// cookie must both authenticate under this protector's key and carry
    /// the same embedded value, and the cookie must be fresh. `Malformed`
    /// exactly where either half fails base64 decoding; `Forged` where
    /// either fails authentication or the embedded values differ; an
    /// authentic matching pair yields `Ok` or `Expired` by the cookie's
    /// embedded expiry at the time of the call.
    pub fn verify_token_pair(&self, token: &str, cookie: &str) -> (r: Result<(), VerifyError>)
        ensures
            (b64_decoded(token@) is None || b64_decoded(cookie@) is None) ==> r == Err::<
                (),
                VerifyError,
            >(VerifyError::Malformed),
            (b64_decoded(token@) is Some && b64_decoded(cookie@) is Some && !pair_sealed(
                self.key(),
                token@,
                cookie@,
            )) ==> r == Err::<(), VerifyError>(VerifyError::Forged),
            pair_sealed(self.key(), token@, cookie@) ==> (r == Ok::<(), VerifyError>(()) || r
                == Err::<(), VerifyError>(VerifyError::Expired)),
            r is Ok ==> pair_sealed(self.key(), token@, cookie@),
    {
        let token_bytes = match b64_decode(token) {
            Ok(b) => b,
            Err(_) => {
                return Err(VerifyError::Malformed);
            },
        };
        let cookie_bytes = match b64_decode(cookie) {
            Ok(b) => b,
            Err(_) => {
                return Err(VerifyError::Malformed);
            },
        };
        let token_val = match csrf_parse_token(&self.key, &token_bytes) {
            Ok(v) => v,
            Err(_) => {
                return Err(VerifyError::Forged);
            },
        };
        let cookie_val = match csrf_parse_cookie(&self.key, &cookie_bytes) {
            Ok(v) => v,
            Err(_) => {
                return Err(VerifyError::Forged);
            },
        };
        if !vec_bytes_equal(&token_val, &cookie_val) {
            return Err(VerifyError::Forged);
        }
        if csrf_cookie_unexpired(&self.key, &cookie_bytes) {
            Ok(())
        } else {
            Err(VerifyError::Expired)
        }
    }
}

/// Byte-for-byte equality of two byte vectors.
fn vec_bytes_equal(a: &Vec<u8>, b: &Vec<u8>) -> (r: bool)
    ensures
        r == (a@ == b@),
{
    if a.len() != b.len() {
        assert(a@ != b@);
        return false;
    }
    let n = a.len();
    let mut i: usize = 0;
    while i < n
        invariant
            n == a@.len() == b@.len(),
            0 <= i <= n,
            forall|j: int| 0 <= j < i ==> a@[j] == b@[j],
        decreases n - i,
    {
        if a[i] != b[i] {
            return false;
        }
        i += 1;
    }
    proof {
        assert(a@ =~= b@);
    }
    true
}

/// A cookie from a freshly issued pair is authentic by construction: it
/// can never be rejected as malformed or forged, only accepted or, once
/// its embedded expiry has elapsed, reported expired (see the contracts of
/// `get_new_token_pair` and `verify_cookie`).
pub proof fn lemma_issued_cookie_sealed(key: Seq<u8>, token: Seq<char>, cookie: Seq<char>)
    requires
        pair_sealed(key, token, cookie),
    ensures
        cookie_sealed(key, cookie),
        token_sealed(key, token),
        token_value(key, token) == cookie_value(key, cookie),
{
}

} // verus!
