//! The user endpoints' processors: sign-in, sign-up, and account
//! maintenance.
//!
//! Sign-in refuses empty credentials before any storage lookup, answers an
//! unknown username as not found, a failed password check as unauthorized,
//! and a corrupt stored hash as an internal error — never as a wrong
//! password. On success it issues a fifteen-minute session token bound to
//! the user's identity.

use vstd::prelude::*;

use crate::entities::{clone_opt_string, opt_str, User, UserAuthenticationPayload,
    UserUpdatePayload};
use crate::errors::{AuthenticationError, ProcessorError, StorageError};
use crate::keys::{ed25519_pair_valid, ed25519_public_of};
use crate::password::{hash_password, password_check_of, password_hash_of, random_salt,
    verify_password};
use crate::store::Store;
use crate::token::{issue_token, token_claims_at, AuthenticationResponse, MAX_TOKEN_TIME};

verus! {

/// How long an issued session lives: fifteen minutes.
pub const SESSION_TTL_SECS: u64 = 900;

/// The visible user `u` renders the stored row `rec`.
pub open spec fn user_shows_row(u: User, rec: User) -> bool {
    &&& u.id@ == rec.id@
    &&& u.username@ == rec.username@
    &&& u.password@ == rec.password@
    &&& u.created_at@ == rec.created_at@
    &&& opt_str(u.updated_at) == opt_str(rec.updated_at)
}

/// Uniqueness makes the username-to-row reading definite.
pub proof fn lemma_user_named(s: Store, i: int)
    requires
        s.users_wf(),
        0 <= i < s.users@.len(),
    ensures
        s.spec_has_username(s.users@[i].username@),
        s.spec_user_named(s.users@[i].username@) == s.users@[i],
{
    let name = s.users@[i].username@;
    assert(s.spec_has_username(name));
    let j = choose|j: int| 0 <= j < s.users@.len() && #[trigger] s.users@[j].username@ == name;
    if i < j {
        assert(s.users@[i].username@ != s.users@[j].username@);
    } else if j < i {
        assert(s.users@[j].username@ != s.users@[i].username@);
    }
}

/// Two rows sharing an identity or a username are one row.
pub proof fn lemma_user_distinct(s: Store, a: int, b: int)
    requires
        s.users_wf(),
        0 <= a < s.users@.len(),
        0 <= b < s.users@.len(),
        s.users@[a].id@ == s.users@[b].id@ || s.users@[a].username@ == s.users@[b].username@,
    ensures
        a == b,
{
    if a < b {
        assert(s.users@[a].id@ != s.users@[b].id@ && s.users@[a].username@ != s.users@[
        b].username@);
    } else if b < a {
        assert(s.users@[b].id@ != s.users@[a].id@ && s.users@[b].username@ != s.users@[
        a].username@);
    }
}

pub struct UsersProcessor;

impl UsersProcessor {
    /// Sign a user in: empty credentials are refused before any lookup, an
    /// unknown username is not found, a wrong password is unauthorized, a
    /// corrupt stored hash is an internal error. On success the response
    /// carries a bearer token whose claims name the user for exactly the
    /// session window.
    pub fn sign_in(
        store: &Store,
        payload: &UserAuthenticationPayload,
        pair: &Vec<u8>,
        now: u64,
    ) -> (r: Result<AuthenticationResponse, ProcessorError>)
        requires
            store.wf(),
            now + SESSION_TTL_SECS < MAX_TOKEN_TIME,
        ensures
            (payload.username@.len() == 0 || payload.password@.len() == 0 ==> (r matches Err(e)
                && e == ProcessorError::AuthenticationError(
                AuthenticationError::MissingCredentials,
            ))),
            (payload.username@.len() > 0 && payload.password@.len() > 0
                && !store.spec_has_username(payload.username@) ==> (r matches Err(e) && e
                == ProcessorError::DatabaseError(StorageError::NotFound))),
            (payload.username@.len() > 0 && payload.password@.len() > 0
                && store.spec_has_username(payload.username@) ==> {
                let u = store.spec_user_named(payload.username@);
                match password_check_of(u.password@, payload.password@) {
                    Some(true) => r is Ok || (r matches Err(e) && e
                        == ProcessorError::AuthenticationError(AuthenticationError::TokenCreation)),
                    Some(false) => r matches Err(e) && e == ProcessorError::AuthenticationError(
                        AuthenticationError::WrongCredentials,
                    ),
                    None => r matches Err(e) && e == ProcessorError::AuthenticationError(
                        AuthenticationError::TokenCreation,
                    ),
                }
            }),
            (r matches Ok(resp) ==> payload.username@.len() > 0 && payload.password@.len() > 0
                && store.spec_has_username(payload.username@) && password_check_of(
                store.spec_user_named(payload.username@).password@,
                payload.password@,
            ) == Some(true) && resp.token_type@ == "Bearer"@ && (ed25519_pair_valid(pair@)
                ==> forall|at: u64|
                    now <= at <= now + SESSION_TTL_SECS ==> token_claims_at(
                        ed25519_public_of(pair@),
                        resp.access_token@,
                        at,
                    ) == Some(
                        (store.spec_user_named(payload.username@).id@, now, (now
                            + SESSION_TTL_SECS) as u64),
                    ))),
            (payload.username@.len() > 0 && payload.password@.len() > 0 && store.spec_has_username(
                payload.username@,
            ) && password_check_of(
                store.spec_user_named(payload.username@).password@,
                payload.password@,
            ) == Some(true) && pair@.len() == 64 ==> r is Ok),
    {
        if payload.username.as_str().is_empty() || payload.password.as_str().is_empty() {
            return Err(
                ProcessorError::AuthenticationError(AuthenticationError::MissingCredentials),
            );
        }
        let i: usize = match store.find_user_by_username(&payload.username) {
            Some(i) => i,
            None => {
                return Err(ProcessorError::DatabaseError(StorageError::NotFound));
            },
        };
        proof {
            lemma_user_named(*store, i as int);
        }
        let accepted = match verify_password(&store.users[i].password, &payload.password) {
            Ok(b) => b,
            Err(_) => {
                return Err(ProcessorError::AuthenticationError(AuthenticationError::TokenCreation));
            },
        };
        if !accepted {
            return Err(ProcessorError::AuthenticationError(AuthenticationError::WrongCredentials));
        }
        let token = match issue_token(pair, &store.users[i].id, now, SESSION_TTL_SECS) {
            Ok(t) => t,
            Err(e) => {
                return Err(e);
            },
        };
        Ok(AuthenticationResponse::new(token))
    }

    /// Register a user: the password is hashed under a fresh 32-byte salt
    /// and the stored hash verifies against the given password.
    pub fn sign_up(store: &mut Store, payload: UserAuthenticationPayload) -> (r: Result<
        (u16, User),
        ProcessorError,
    >)
        requires
            old(store).wf(),
        ensures
            final(store).wf(),
            final(store).games == old(store).games,
            final(store).categories == old(store).categories,
            final(store).links == old(store).links,
            (old(store).spec_has_username(payload.username@) ==> (r matches Err(e) && e
                == ProcessorError::DatabaseError(StorageError::Other))),
            (r matches Ok(p) ==> p.0 == 201 && !old(store).spec_has_username(payload.username@)
                && final(store).users@.len() == old(store).users@.len() + 1 && final(store).users@.subrange(0, old(store).users@.len() as int) == old(store).users@ && {
                let u = p.1;
                let rec = final(store).users@.last();
                &&& user_shows_row(u, rec)
                &&& u.username@ == payload.username@
                &&& password_check_of(u.password@, payload.password@) == Some(true)
                &&& (exists|salt: Seq<u8>|
                    salt.len() == 32 && u.password@ == password_hash_of(payload.password@, salt))
                &&& u.updated_at is None
            }),
            (r matches Err(e) ==> *final(store) == *old(store) && (e
                == ProcessorError::AuthenticationError(AuthenticationError::TokenCreation) || e
                == ProcessorError::DatabaseError(StorageError::Other))),
            (old(store).users@.len() == 0 && payload.password@.len() <= 0x3FFF_FFFF ==> r is Ok),
    {
        match store.find_user_by_username(&payload.username) {
            Some(_) => {
                return Err(ProcessorError::DatabaseError(StorageError::Other));
            },
            None => {},
        }
        let id = crate::ids::fresh_id();
        match store.find_user_by_id(&id) {
            Some(_) => {
                return Err(ProcessorError::DatabaseError(StorageError::Other));
            },
            None => {},
        }
        let salt = random_salt();
        let hash = match hash_password(&payload.password, &salt) {
            Ok(h) => h,
            Err(e) => {
                return Err(e);
            },
        };
        let created_at = crate::clock::utc_now_string();
        let rec = User {
            id: id.clone(),
            username: payload.username.clone(),
            password: hash.clone(),
            created_at: created_at.clone(),
            updated_at: None,
        };
        let ghost pre = *store;
        store.users.push(rec);
        proof {
            let cur = *store;
            assert forall|a: int, b: int|
                #![trigger cur.users@[a], cur.users@[b]]
                0 <= a < b < cur.users@.len() implies cur.users@[a].id@ != cur.users@[b].id@
                && cur.users@[a].username@ != cur.users@[b].username@ by {
                if b < pre.users@.len() {
                    assert(cur.users@[a] == pre.users@[a]);
                    assert(cur.users@[b] == pre.users@[b]);
                } else {
                    assert(cur.users@[a] == pre.users@[a]);
                    assert(!pre.spec_has_username(payload.username@));
                    assert(!pre.spec_has_user_id(id@));
                }
            }
            crate::store::lemma_links_wf_preserved(pre, cur);
            assert(cur.wf());
            assert(pre.users@ =~= cur.users@.subrange(0, pre.users@.len() as int));
        }
        let user = User { id, username: payload.username, password: hash, created_at,
            updated_at: None };
        Ok((201, user))
    }

    /// Read one user by identity.
    pub fn read(store: &Store, id: &String) -> (r: Result<User, ProcessorError>)
        requires
            store.wf(),
        ensures
            (r matches Ok(u) ==> exists|i: int|
                0 <= i < store.users@.len() && #[trigger] store.users@[i].id@ == id@
                    && user_shows_row(u, store.users@[i])),
            (r matches Err(e) ==> !store.spec_has_user_id(id@) && e
                == ProcessorError::DatabaseError(StorageError::NotFound)),
    {
        match store.find_user_by_id(id) {
            Some(i) => {
                let rec = &store.users[i];
                Ok(
                    User {
                        id: rec.id.clone(),
                        username: rec.username.clone(),
                        password: rec.password.clone(),
                        created_at: rec.created_at.clone(),
                        updated_at: clone_opt_string(&rec.updated_at),
                    },
                )
            },
            None => Err(ProcessorError::DatabaseError(StorageError::NotFound)),
        }
    }

    /// Replace a user's username and password; the new password is hashed
    /// under a fresh salt and the stored hash verifies against it.
    pub fn update(store: &mut Store, id: &String, payload: UserUpdatePayload) -> (r: Result<
        (),
        ProcessorError,
    >)
        requires
            old(store).wf(),
        ensures
            final(store).wf(),
            final(store).games == old(store).games,
            final(store).categories == old(store).categories,
            final(store).links == old(store).links,
            (!old(store).spec_has_user_id(id@) ==> (r matches Err(e) && e
                == ProcessorError::DatabaseError(StorageError::NotFound))),
            (r is Err ==> *final(store) == *old(store)),
            (r is Ok ==> exists|j: int|
                0 <= j < old(store).users@.len() && #[trigger] old(store).users@[j].id@ == id@
                    && final(store).users@.len() == old(store).users@.len() && (forall|t: int|
                    0 <= t < old(store).users@.len() && t != j ==> final(store).users@[t] == old(store).users@[t]) && {
                    let rec = final(store).users@[j];
                    &&& rec.id@ == id@
                    &&& rec.username@ == payload.username@
                    &&& password_check_of(rec.password@, payload.password@) == Some(true)
                    &&& rec.created_at@ == old(store).users@[j].created_at@
                    &&& rec.updated_at is Some
                }),
            (r matches Err(e) ==> e == ProcessorError::DatabaseError(StorageError::NotFound) || e
                == ProcessorError::DatabaseError(StorageError::Other) || e
                == ProcessorError::AuthenticationError(AuthenticationError::TokenCreation)),
            (old(store).spec_has_user_id(id@) && (forall|t: int|
                #![trigger old(store).users@[t]]
                0 <= t < old(store).users@.len() && old(store).users@[t].username@
                    == payload.username@ ==> old(store).users@[t].id@ == id@)
                && payload.password@.len() <= 0x3FFF_FFFF ==> r is Ok),
            (old(store).spec_has_user_id(id@) && (exists|t: int|
                0 <= t < old(store).users@.len() && #[trigger] old(store).users@[t].username@
                    == payload.username@ && old(store).users@[t].id@ != id@) ==> (r matches Err(e)
                && e == ProcessorError::DatabaseError(StorageError::Other))),
    {
        let j: usize = match store.find_user_by_id(id) {
            Some(j) => j,
            None => {
                return Err(ProcessorError::DatabaseError(StorageError::NotFound));
            },
        };
        match store.find_user_by_username(&payload.username) {
            Some(w) => {
                if w != j {
                    proof {
                        // the found row bears the requested username under a
                        // different identity, refuting the free-name premise
                        if store.users@[w as int].id@ == id@ {
                            lemma_user_distinct(*store, w as int, j as int);
                        }
                        assert(store.users@[w as int].id@ != id@);
                    }
                    return Err(ProcessorError::DatabaseError(StorageError::Other));
                } else {
                    proof {
                        // only this very row bears the requested username
                        if exists|t: int|
                            0 <= t < store.users@.len() && #[trigger] store.users@[t].username@
                                == payload.username@ && store.users@[t].id@ != id@ {
                            let t = choose|t: int|
                                0 <= t < store.users@.len() && #[trigger] store.users@[
                                t].username@ == payload.username@ && store.users@[t].id@ != id@;
                            lemma_user_distinct(*store, t, j as int);
                        }
                    }
                }
            },
            None => {
                proof {
                    // nobody bears the requested username at all
                    if exists|t: int|
                        0 <= t < store.users@.len() && #[trigger] store.users@[t].username@
                            == payload.username@ && store.users@[t].id@ != id@ {
                        let t = choose|t: int|
                            0 <= t < store.users@.len() && #[trigger] store.users@[t].username@
                                == payload.username@ && store.users@[t].id@ != id@;
                        assert(store.spec_has_username(payload.username@));
                    }
                }
            },
        }
        let salt = random_salt();
        let hash = match hash_password(&payload.password, &salt) {
            Ok(h) => h,
            Err(e) => {
                return Err(e);
            },
        };
        let updated_at = crate::clock::utc_now_string();
        let ghost pre = *store;
        let rec = User {
            id: id.clone(),
            username: payload.username,
            password: hash,
            created_at: store.users[j].created_at.clone(),
            updated_at: Some(updated_at),
        };
        store.users[j] = rec;
        proof {
            let cur = *store;
            assert forall|a: int, b: int|
                #![trigger cur.users@[a], cur.users@[b]]
                0 <= a < b < cur.users@.len() implies cur.users@[a].id@ != cur.users@[b].id@
                && cur.users@[a].username@ != cur.users@[b].username@ by {
                assert(pre.users@[a].id@ != pre.users@[b].id@);
                assert(pre.users@[a].username@ != pre.users@[b].username@);
                if a != j && b != j {
                    assert(cur.users@[a] == pre.users@[a]);
                    assert(cur.users@[b] == pre.users@[b]);
                }
            }
            crate::store::lemma_links_wf_preserved(pre, cur);
            assert(cur.wf());
        }
        Ok(())
    }

    /// Delete one user by identity. Games are not cascaded: a deleted
    /// user's games stay in place.
    pub fn delete(store: &mut Store, id: &String) -> (r: Result<u16, ProcessorError>)
        requires
            old(store).wf(),
        ensures
            final(store).wf(),
            final(store).games == old(store).games,
            final(store).categories == old(store).categories,
            final(store).links == old(store).links,
            (!old(store).spec_has_user_id(id@) ==> (r matches Err(e) && e
                == ProcessorError::DatabaseError(StorageError::NotFound) && *final(store) == *old(
                store,
            ))),
            (r matches Ok(code) ==> code == 204 && exists|j: int|
                0 <= j < old(store).users@.len() && #[trigger] old(store).users@[j].id@ == id@
                    && final(store).users@ == old(store).users@.remove(j)),
            (r matches Err(e) ==> e == ProcessorError::DatabaseError(StorageError::NotFound)),
            (old(store).spec_has_user_id(id@) ==> (r matches Ok(code) && code == 204)),
    {
        let j: usize = match store.find_user_by_id(id) {
            Some(j) => j,
            None => {
                return Err(ProcessorError::DatabaseError(StorageError::NotFound));
            },
        };
        store.delete_user_row(j);
        Ok(204)
    }
}

} // verus!
