//! The per-request authorization gate for protected routes.
//!
//! Each protected request's `Authorization` header must carry exactly the
//! `Bearer <token>` form; the token then goes to verification. A missing
//! header, any other scheme, a missing token value, a bad signature and an
//! expired token are all treated identically: the request is refused with
//! one fixed hint and never reaches the handler. The check is stateless and
//! synchronous; on success the resolved claims annotate the request.

use vstd::prelude::*;

use crate::token::{accepted_session, SessionClaims, MAX_TOKEN_TIME};

verus! {

/// The token a well-formed `Authorization` header value carries: the rest
/// of the value after the exact `Bearer ` prefix.
pub open spec fn spec_bearer_token(header: Seq<char>) -> Option<Seq<char>> {
    if header.len() >= 7 && header.take(7) == "Bearer "@ {
        Some(header.skip(7))
    } else {
        None
    }
}

/// The view of an optional `Authorization` header value.
pub open spec fn spec_header_view(header: Option<&String>) -> Option<Seq<char>> {
    match header {
        Some(h) => Some(h@),
        None => None,
    }
}

/// The session that authorization lets through for this header at instant
/// `now`: the header must carry a bearer token and that token must be
/// accepted under the configured public key.
pub open spec fn spec_authorized(
    public_key: Seq<u8>,
    header: Option<Seq<char>>,
    now: u64,
) -> Option<(Seq<char>, u64, u64)> {
    match header {
        None => None,
        Some(h) => match spec_bearer_token(h) {
            None => None,
            Some(token) => accepted_session(public_key, token, now),
        },
    }
}

/// Extract the token from an `Authorization` header value of the exact
/// `Bearer <token>` form.
pub fn bearer_token(header: &String) -> (r: Option<String>)
    ensures
        (r matches Some(t) ==> spec_bearer_token(header@) == Some(t@)),
        (r is None ==> spec_bearer_token(header@) is None),
{
    proof {
        reveal_strlit("Bearer ");
    }
    let h = header.as_str();
    let n = h.unicode_len();
    if n < 7 {
        return None;
    }
    let prefix = h.substring_char(0, 7);
    let scheme: String = "Bearer ".to_owned();
    if prefix.to_owned() == scheme {
        Some(h.substring_char(7, n).to_owned())
    } else {
        assert(header@.take(7) != "Bearer "@);
        None
    }
}

/// The middleware that guards every protected route.
#[derive(Clone, Copy)]
pub struct JWTAuthorizationLayer;

impl JWTAuthorizationLayer {
    /// Decide one request: exactly the sessions of `spec_authorized` pass.
    pub fn authorize(&self, public_key: &Vec<u8>, header: Option<&String>, now: u64) -> (r:
        Option<SessionClaims>)
        requires
            now < MAX_TOKEN_TIME,
        ensures
            (r matches Some(c) ==> spec_authorized(public_key@, spec_header_view(header), now)
                == Some((c.subject@, c.issued_at, c.expires_at))),
            (r is None ==> spec_authorized(public_key@, spec_header_view(header), now) is None),
    {
        let value = match header {
            Some(v) => v,
            None => {
                return None;
            },
        };
        let token = match bearer_token(value) {
            Some(t) => t,
            None => {
                return None;
            },
        };
        match crate::token::verify_token(public_key, &token, now) {
            Ok(claims) => Some(claims),
            Err(_) => None,
        }
    }

    /// The fixed refusal: status 401 and one human-readable hint.
    pub fn unauthorized_response(&self) -> (r: (u16, String))
        ensures
            r.0 == 401,
            r.1@ == "Please provide a valid Bearer token in Authorization header."@,
    {
        (401, "Please provide a valid Bearer token in Authorization header.".to_owned())
    }
}

} // verus!
