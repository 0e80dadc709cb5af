use vault_of_games::errors::{AuthenticationError, ProcessorError, StorageError};
use vault_of_games::gate::JWTAuthorizationLayer;
use vault_of_games::keys::KeyPair;
use vault_of_games::password::{hash_password, random_salt, verify_password};
use vault_of_games::token::{issue_token, verify_token, AuthenticationResponse};

#[test]
fn password_round_trip_verifies() {
    let salt = random_salt();
    assert_eq!(salt.len(), 32);
    let password = String::from("correct horse battery staple");
    let encoded = hash_password(&password, &salt).unwrap();
    assert_ne!(encoded, password);
    assert_eq!(verify_password(&encoded, &password).unwrap(), true);
}

#[test]
fn password_rejects_other_password() {
    let salt = random_salt();
    let password = String::from("correct horse battery staple");
    let other = String::from("correct horse battery stapler");
    let encoded = hash_password(&password, &salt).unwrap();
    assert_eq!(verify_password(&encoded, &other).unwrap(), false);
}

#[test]
fn password_same_salt_same_hash() {
    let salt = random_salt();
    let password = String::from("pw");
    let first = hash_password(&password, &salt).unwrap();
    let second = hash_password(&password, &salt).unwrap();
    assert_eq!(first, second);
}

#[test]
fn password_malformed_stored_hash_is_internal_error() {
    let password = String::from("pw");
    let garbage = String::from("not an encoded hash");
    let err = verify_password(&garbage, &password).unwrap_err();
    assert_eq!(
        err,
        ProcessorError::AuthenticationError(AuthenticationError::TokenCreation)
    );
}

#[test]
fn token_verifies_immediately_and_expires_strictly() {
    let pair = KeyPair::generate();
    let subject = String::from("user-1");
    let now: u64 = 1_000_000;
    let token = issue_token(&pair.private_key, &subject, now, 1).unwrap();
    let claims = verify_token(&pair.public_key, &token, now).unwrap();
    assert_eq!(claims.subject, subject);
    assert_eq!(claims.issued_at, now);
    assert_eq!(claims.expires_at, now + 1);
    // still alive strictly before expiry, dead at the boundary itself
    assert!(verify_token(&pair.public_key, &token, now + 1).is_err());
    assert!(verify_token(&pair.public_key, &token, now + 2).is_err());
}

#[test]
fn token_signed_with_other_pair_fails() {
    let pair = KeyPair::generate();
    let stranger = KeyPair::generate();
    let subject = String::from("user-1");
    let now: u64 = 1_000_000;
    let token = issue_token(&stranger.private_key, &subject, now, 60).unwrap();
    assert!(verify_token(&pair.public_key, &token, now).is_err());
}

#[test]
fn token_garbage_fails() {
    let pair = KeyPair::generate();
    let garbage = String::from("definitely.not.a-token");
    assert!(verify_token(&pair.public_key, &garbage, 1_000_000).is_err());
}

#[test]
fn gate_accepts_exact_bearer_form_only() {
    let pair = KeyPair::generate();
    let gate = JWTAuthorizationLayer;
    let subject = String::from("user-7");
    let now: u64 = 500_000;
    let token = issue_token(&pair.private_key, &subject, now, 60).unwrap();

    let good = format!("Bearer {}", token);
    let claims = gate.authorize(&pair.public_key, Some(&good), now).unwrap();
    assert_eq!(claims.subject, subject);

    assert!(gate.authorize(&pair.public_key, None, now).is_none());
    let basic = format!("Basic {}", token);
    assert!(gate.authorize(&pair.public_key, Some(&basic), now).is_none());
    let lower = format!("bearer {}", token);
    assert!(gate.authorize(&pair.public_key, Some(&lower), now).is_none());
    let bare = token.clone();
    assert!(gate.authorize(&pair.public_key, Some(&bare), now).is_none());
    let empty = String::new();
    assert!(gate.authorize(&pair.public_key, Some(&empty), now).is_none());
    // expired tokens are refused just like invalid ones
    assert!(gate.authorize(&pair.public_key, Some(&good), now + 60).is_none());
}

#[test]
fn gate_unauthorized_response_is_fixed() {
    let gate = JWTAuthorizationLayer;
    let (status, hint) = gate.unauthorized_response();
    assert_eq!(status, 401);
    assert_eq!(
        hint,
        "Please provide a valid Bearer token in Authorization header."
    );
}

#[test]
fn authentication_response_is_bearer() {
    let resp = AuthenticationResponse::new(String::from("tok"));
    assert_eq!(resp.access_token, "tok");
    assert_eq!(resp.token_type, "Bearer");
}

#[test]
fn error_status_codes_and_messages() {
    assert_eq!(AuthenticationError::WrongCredentials.map_to_status_code(), 401);
    assert_eq!(AuthenticationError::MissingCredentials.map_to_status_code(), 400);
    assert_eq!(AuthenticationError::TokenCreation.map_to_status_code(), 500);
    assert_eq!(StorageError::NotFound.map_to_status_code(), 404);
    assert_eq!(StorageError::Other.map_to_status_code(), 500);

    let (status, message) =
        ProcessorError::AuthenticationError(AuthenticationError::WrongCredentials)
            .response_parts();
    assert_eq!(status, 401);
    assert_eq!(message, "wrong credentials");

    let (status, message) =
        ProcessorError::DatabaseError(StorageError::NotFound).response_parts();
    assert_eq!(status, 404);
    assert_eq!(message, "entity not found");
}

#[test]
fn keypair_from_pair_bytes_recovers_public_key() {
    let pair = KeyPair::generate();
    let rebuilt = KeyPair::from_pair_bytes(pair.private_key.clone()).unwrap();
    assert_eq!(rebuilt.public_key, pair.public_key);
    let token = issue_token(&rebuilt.private_key, &String::from("user-9"), 77, 60).unwrap();
    assert_eq!(verify_token(&rebuilt.public_key, &token, 77).unwrap().subject, "user-9");
    // malformed pair bytes are refused, not misread
    assert!(KeyPair::from_pair_bytes(vec![1, 2, 3]).is_err());
}

#[test]
fn keypair_from_key_bytes_requires_matching_halves() {
    let pair = KeyPair::generate();
    let ok = KeyPair::from_key_bytes(pair.private_key.clone(), pair.public_key.clone()).unwrap();
    assert_eq!(ok.public_key, pair.public_key);
    // a public key from another pair is refused
    let stranger = KeyPair::generate();
    assert!(KeyPair::from_key_bytes(pair.private_key.clone(), stranger.public_key.clone())
        .is_err());
    // a 64-byte string whose halves do not belong together is refused
    let mut mismatched = pair.private_key.clone();
    mismatched[40] ^= 1;
    assert!(KeyPair::from_pair_bytes(mismatched).is_err());
}
