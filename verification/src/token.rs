//! Signed, expiring session tokens bound to a user identity.
//!
//! A token carries the claims {subject, issued_at, expires_at}. Signing adds
//! a random nonce, so the token string itself is not a function of its
//! inputs; what is promised of it is the round trip: the token verifies
//! under the pair's public key at any instant within its validity window and
//! yields back exactly the claims that were signed. Verification at a pinned
//! instant is deterministic, and its outcome is named `token_claims_at`.
//!
//! Expiry is strict: a token is refused from the instant `expires_at` itself
//! on; only `expires_at > now` passes. No leeway window is granted.

use vstd::prelude::*;

use jwt_simple::prelude::{
    Duration, Ed25519KeyPair, Ed25519PublicKey, EdDSAKeyPairLike, EdDSAPublicKeyLike, JWTClaims,
    NoCustomClaims, VerificationOptions,
};

use crate::errors::{AuthenticationError, ProcessorError};
use crate::keys::{ed25519_pair_valid, ed25519_public_of};

verus! {

/// One more than the largest timestamp (in seconds) the token clockwork can
/// carry without overflowing its fixed-point representation.
pub const MAX_TOKEN_TIME: u64 = 0x1_0000_0000;

/// The claims that verifying `token` under `public_key` at instant `at`
/// yields: `None` when the token is refused (bad signature, malformed
/// structure, no subject, or outside the window the token itself declares),
/// otherwise the decoded (subject, issued_at, expires_at).
pub uninterp spec fn token_claims_at(public_key: Seq<u8>, token: Seq<char>, at: u64) -> Option<
    (Seq<char>, u64, u64),
>;

/// The decoded, verified payload of a session token.
#[derive(Clone, Debug)]
pub struct SessionClaims {
    pub subject: String,
    pub issued_at: u64,
    pub expires_at: u64,
}

/// What the sign-in endpoint hands back on success.
#[derive(Debug)]
pub struct AuthenticationResponse {
    pub access_token: String,
    pub token_type: String,
}

impl AuthenticationResponse {
    pub fn new(access_token: String) -> (r: Self)
        ensures
            r.access_token@ == access_token@,
            r.token_type@ == "Bearer"@,
    {
        Self { access_token, token_type: "Bearer".to_owned() }
    }
}

/// Relies on jwt_simple's Ed25519KeyPair::from_bytes and
/// EdDSAKeyPairLike::sign: parsing accepts exactly 64 bytes, and signing
/// and claim serialization cannot fail for these claims, so signing
/// succeeds for every 64-byte pair. Parsing does not check the pair's
/// halves against each other, and the challenge binds the stored public
/// half while the scalar comes from the seed — so only for a *valid* pair
/// is the signed token promised to verify under the pair's public half, at
/// any instant within [issued_at, expires_at], decoding to exactly the
/// claims that were signed. The signature embeds a random nonce, so nothing
/// more is promised of the token string itself.
#[verifier::external_body]
fn sign_session_token(pair: &Vec<u8>, subject: &String, issued_at: u64, expires_at: u64) -> (r:
    Result<String, anyhow::Error>)
    requires
        issued_at < MAX_TOKEN_TIME,
        expires_at < MAX_TOKEN_TIME,
    ensures
        (pair@.len() == 64 ==> r is Ok),
        (r matches Ok(t) ==> (ed25519_pair_valid(pair@) ==> forall|at: u64|
            issued_at <= at <= expires_at ==> token_claims_at(ed25519_public_of(pair@), t@, at)
                == Some((subject@, issued_at, expires_at)))),
{
    let kp = Ed25519KeyPair::from_bytes(pair.as_slice())?;
    let claims = JWTClaims::<NoCustomClaims> {
        issued_at: Some(Duration::from_secs(issued_at)),
        expires_at: Some(Duration::from_secs(expires_at)),
        invalid_before: Some(Duration::from_secs(issued_at)),
        issuer: None,
        subject: Some(subject.clone()),
        audiences: None,
        jwt_id: None,
        nonce: None,
        custom: NoCustomClaims {},
    };
    kp.sign(claims)
}

/// Relies on jwt_simple's Ed25519PublicKey::from_bytes and
/// EdDSAPublicKeyLike::verify_token, run with a pinned verification time and
/// a zero tolerance window: the outcome is then a function of the key, the
/// token and that instant alone.
#[verifier::external_body]
fn verify_session_token(public_key: &Vec<u8>, token: &String, at: u64) -> (r: Result<
    (String, u64, u64),
    anyhow::Error,
>)
    requires
        at < MAX_TOKEN_TIME,
    ensures
        (r matches Ok(c) ==> token_claims_at(public_key@, token@, at) == Some((c.0@, c.1, c.2))),
        (r matches Err(_) ==> token_claims_at(public_key@, token@, at) is None),
{
    let pk = Ed25519PublicKey::from_bytes(public_key.as_slice())?;
    let options = VerificationOptions {
        time_tolerance: Some(Duration::from_secs(0)),
        max_token_length: None,
        artificial_time: Some(Duration::from_secs(at)),
        ..VerificationOptions::default()
    };
    let claims = pk.verify_token::<NoCustomClaims>(token.as_str(), Some(options))?;
    let subject = claims.subject.ok_or_else(|| anyhow::Error::msg("token carries no subject"))?;
    let issued_at = claims.issued_at.map(|d| d.as_secs()).unwrap_or(0);
    let expires_at = claims.expires_at.map(|d| d.as_secs()).unwrap_or(0);
    Ok((subject, issued_at, expires_at))
}

/// The session that verification at instant `now` accepts for this token
/// under this key: the decoded claims when the token checks out and is
/// strictly unexpired, `None` otherwise.
pub open spec fn accepted_session(public_key: Seq<u8>, token: Seq<char>, now: u64) -> Option<
    (Seq<char>, u64, u64),
> {
    match token_claims_at(public_key, token, now) {
        Some(c) => if c.2 > now {
            Some(c)
        } else {
            None
        },
        None => None,
    }
}

/// Issue a token for `subject`: claims {subject, issued_at = now,
/// expires_at = now + ttl}, signed with the pair. Signing succeeds for
/// every 64-byte pair encoding; when the pair is valid, the token verifies
/// under the pair's public half, with exactly those claims, at any instant
/// within its window.
pub fn issue_token(pair: &Vec<u8>, subject: &String, now: u64, ttl_secs: u64) -> (r: Result<
    String,
    ProcessorError,
>)
    requires
        now + ttl_secs < MAX_TOKEN_TIME,
    ensures
        (pair@.len() == 64 ==> r is Ok),
        (r matches Ok(t) ==> (ed25519_pair_valid(pair@) ==> forall|at: u64|
            now <= at <= now + ttl_secs ==> token_claims_at(ed25519_public_of(pair@), t@, at)
                == Some((subject@, now, (now + ttl_secs) as u64)))),
        (r matches Err(e) ==> e == ProcessorError::AuthenticationError(
            AuthenticationError::TokenCreation,
        )),
{
    match sign_session_token(pair, subject, now, now + ttl_secs) {
        Ok(t) => Ok(t),
        Err(_) => Err(ProcessorError::AuthenticationError(AuthenticationError::TokenCreation)),
    }
}

/// Verify a token at instant `now`: the signature must check out under
/// `public_key` and the token must be strictly unexpired. Exactly the
/// accepted sessions come back; every refusal is the same error.
pub fn verify_token(public_key: &Vec<u8>, token: &String, now: u64) -> (r: Result<
    SessionClaims,
    AuthenticationError,
>)
    requires
        now < MAX_TOKEN_TIME,
    ensures
        (r matches Ok(c) ==> accepted_session(public_key@, token@, now) == Some(
            (c.subject@, c.issued_at, c.expires_at),
        )),
        (r matches Err(e) ==> accepted_session(public_key@, token@, now) is None && e
            == AuthenticationError::WrongCredentials),
{
    match verify_session_token(public_key, token, now) {
        Ok((subject, issued_at, expires_at)) => {
            if expires_at > now {
                Ok(SessionClaims { subject, issued_at, expires_at })
            } else {
                Err(AuthenticationError::WrongCredentials)
            }
        },
        Err(_) => Err(AuthenticationError::WrongCredentials),
    }
}

/// A token whose round trip holds over its window — what issuing promises —
/// is accepted at every instant of the window strictly before its expiry,
/// and refused at `expires_at` itself: the boundary is strict.
pub proof fn lemma_issued_token_lifetime(
    public_key: Seq<u8>,
    token: Seq<char>,
    subject: Seq<char>,
    issued_at: u64,
    expires_at: u64,
    at: u64,
)
    requires
        forall|t: u64|
            issued_at <= t <= expires_at ==> token_claims_at(public_key, token, t) == Some(
                (subject, issued_at, expires_at),
            ),
        issued_at <= at <= expires_at,
    ensures
        at < expires_at ==> accepted_session(public_key, token, at) == Some(
            (subject, issued_at, expires_at),
        ),
        at == expires_at ==> accepted_session(public_key, token, at) is None,
{
}

} // verus!
