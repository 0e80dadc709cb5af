use vault_of_games::entities::{UserAuthenticationPayload, UserUpdatePayload};
use vault_of_games::errors::{AuthenticationError, ProcessorError, StorageError};
use vault_of_games::gate::JWTAuthorizationLayer;
use vault_of_games::keys::KeyPair;
use vault_of_games::password::verify_password;
use vault_of_games::store::Store;
use vault_of_games::users::{UsersProcessor, SESSION_TTL_SECS};

fn credentials(username: &str, password: &str) -> UserAuthenticationPayload {
    UserAuthenticationPayload {
        username: String::from(username),
        password: String::from(password),
    }
}

#[test]
fn sign_in_with_empty_credentials_is_bad_request() {
    let store = Store::new();
    let pair = KeyPair::generate();
    let now: u64 = 1_000_000;
    let e = UsersProcessor::sign_in(&store, &credentials("", "pw"), &pair.private_key, now)
        .unwrap_err();
    assert_eq!(
        e,
        ProcessorError::AuthenticationError(AuthenticationError::MissingCredentials)
    );
    assert_eq!(e.response_parts(), (400, String::from("missing credentials")));
    let e = UsersProcessor::sign_in(&store, &credentials("alice", ""), &pair.private_key, now)
        .unwrap_err();
    assert_eq!(e.response_parts().0, 400);
}

#[test]
fn sign_in_unknown_username_is_not_found() {
    let store = Store::new();
    let pair = KeyPair::generate();
    let e = UsersProcessor::sign_in(
        &store,
        &credentials("nobody", "pw"),
        &pair.private_key,
        1_000_000,
    )
    .unwrap_err();
    assert_eq!(e, ProcessorError::DatabaseError(StorageError::NotFound));
    assert_eq!(e.response_parts().0, 404);
}

#[test]
fn sign_in_wrong_password_is_unauthorized() {
    let mut store = Store::new();
    let pair = KeyPair::generate();
    UsersProcessor::sign_up(&mut store, credentials("alice", "right")).unwrap();
    let e = UsersProcessor::sign_in(
        &store,
        &credentials("alice", "wrong"),
        &pair.private_key,
        1_000_000,
    )
    .unwrap_err();
    assert_eq!(
        e,
        ProcessorError::AuthenticationError(AuthenticationError::WrongCredentials)
    );
    assert_eq!(e.response_parts().0, 401);
}

#[test]
fn sign_up_then_sign_in_yields_working_token() {
    let mut store = Store::new();
    let pair = KeyPair::generate();
    let now: u64 = 1_000_000;
    let (status, user) = UsersProcessor::sign_up(&mut store, credentials("alice", "pw")).unwrap();
    assert_eq!(status, 201);
    assert_eq!(user.username, "alice");
    assert_eq!(user.id.len(), 36);
    // the stored credential is a salted hash, never the plaintext
    assert_ne!(user.password, "pw");
    assert_eq!(verify_password(&user.password, &String::from("pw")).unwrap(), true);

    let resp = UsersProcessor::sign_in(&store, &credentials("alice", "pw"), &pair.private_key, now)
        .unwrap();
    assert_eq!(resp.token_type, "Bearer");

    // the token authorizes requests for the whole session, bound to the user
    let gate = JWTAuthorizationLayer;
    let header = format!("Bearer {}", resp.access_token);
    let claims = gate.authorize(&pair.public_key, Some(&header), now).unwrap();
    assert_eq!(claims.subject, user.id);
    assert_eq!(claims.issued_at, now);
    assert_eq!(claims.expires_at, now + SESSION_TTL_SECS);
    // and is refused from the expiry instant on
    assert!(gate
        .authorize(&pair.public_key, Some(&header), now + SESSION_TTL_SECS)
        .is_none());
}

#[test]
fn sign_up_duplicate_username_fails() {
    let mut store = Store::new();
    UsersProcessor::sign_up(&mut store, credentials("alice", "pw")).unwrap();
    let e = UsersProcessor::sign_up(&mut store, credentials("alice", "other")).unwrap_err();
    assert_eq!(e, ProcessorError::DatabaseError(StorageError::Other));
    assert_eq!(store.users.len(), 1);
}

#[test]
fn user_read_returns_row_and_missing_is_not_found() {
    let mut store = Store::new();
    let (_, user) = UsersProcessor::sign_up(&mut store, credentials("alice", "pw")).unwrap();
    let shown = UsersProcessor::read(&store, &user.id).unwrap();
    assert_eq!(shown.username, "alice");
    assert_eq!(shown.updated_at, None);
    let missing = String::from("no-such-id");
    let e = UsersProcessor::read(&store, &missing).unwrap_err();
    assert_eq!(e.response_parts().0, 404);
}

#[test]
fn user_update_replaces_credentials() {
    let mut store = Store::new();
    let (_, user) = UsersProcessor::sign_up(&mut store, credentials("alice", "pw")).unwrap();
    UsersProcessor::update(
        &mut store,
        &user.id,
        UserUpdatePayload {
            username: String::from("alice2"),
            password: String::from("newpw"),
        },
    )
    .unwrap();
    let shown = UsersProcessor::read(&store, &user.id).unwrap();
    assert_eq!(shown.username, "alice2");
    assert!(shown.updated_at.is_some());
    assert_eq!(
        verify_password(&shown.password, &String::from("newpw")).unwrap(),
        true
    );
    assert_eq!(
        verify_password(&shown.password, &String::from("pw")).unwrap(),
        false
    );
}

#[test]
fn user_update_to_taken_username_fails() {
    let mut store = Store::new();
    let (_, alice) = UsersProcessor::sign_up(&mut store, credentials("alice", "pw")).unwrap();
    UsersProcessor::sign_up(&mut store, credentials("bob", "pw")).unwrap();
    let e = UsersProcessor::update(
        &mut store,
        &alice.id,
        UserUpdatePayload {
            username: String::from("bob"),
            password: String::from("pw"),
        },
    )
    .unwrap_err();
    assert_eq!(e, ProcessorError::DatabaseError(StorageError::Other));
}

#[test]
fn user_delete_removes_row() {
    let mut store = Store::new();
    let (_, user) = UsersProcessor::sign_up(&mut store, credentials("alice", "pw")).unwrap();
    let status = UsersProcessor::delete(&mut store, &user.id).unwrap();
    assert_eq!(status, 204);
    assert!(UsersProcessor::read(&store, &user.id).is_err());
    let e = UsersProcessor::delete(&mut store, &user.id).unwrap_err();
    assert_eq!(e, ProcessorError::DatabaseError(StorageError::NotFound));
}
