//! The process-wide asymmetric signing key pair.
//!
//! Key material is held as plain bytes: the 64-byte Ed25519 pair encoding
//! (used to sign) and the 32-byte public-key encoding (used to verify). A
//! pair encoding carries its public half verbatim in its upper bytes, and
//! parsing does not check that half against the seed; a pair is *valid* —
//! `ed25519_pair_valid` — only when the two halves belong together. Pairs
//! from outside sources are therefore validated on construction, and only
//! valid pairs are promised to sign tokens that verify. The pair is loaded
//! (or generated) once at process start and read-only afterwards; the
//! signer and the verifier receive it by reference.

use vstd::prelude::*;

use jwt_simple::prelude::EdDSAKeyPairLike;

verus! {

/// The public-key bytes that an encoded Ed25519 key pair carries: the
/// upper half of the 64-byte seed-then-public-key encoding.
pub open spec fn ed25519_public_of(pair: Seq<u8>) -> Seq<u8> {
    pair.subrange(32, 64)
}

/// The pair encoding is coherent: its seed is usable and its stored public
/// half equals the public key recomputed from the seed — what
/// ed25519-compact's pair validation accepts.
pub uninterp spec fn ed25519_pair_valid(pair: Seq<u8>) -> bool;

#[verifier::external_type_specification]
#[verifier::external_body]
pub struct ExAnyhowError(anyhow::Error);

/// An Ed25519 key pair: the full pair encoding (used to sign) and the
/// public-key encoding (used to verify).
pub struct KeyPair {
    pub private_key: Vec<u8>,
    pub public_key: Vec<u8>,
}

impl KeyPair {
    /// The pair is valid and the public bytes are exactly its public half.
    pub open spec fn wf(self) -> bool {
        &&& self.public_key@ == ed25519_public_of(self.private_key@)
        &&& ed25519_pair_valid(self.private_key@)
        &&& self.private_key@.len() == 64
    }

    pub fn new(private_key: Vec<u8>, public_key: Vec<u8>) -> (r: Self)
        ensures
            r.private_key@ == private_key@,
            r.public_key@ == public_key@,
    {
        Self { private_key, public_key }
    }

    /// Build the pair from the full pair encoding alone: the encoding is
    /// validated (its halves must belong together) and the public bytes are
    /// derived from it. Fails exactly on a malformed or incoherent encoding.
    pub fn from_pair_bytes(private_key: Vec<u8>) -> (r: Result<Self, ()>)
        ensures
            (r matches Ok(kp) ==> kp.wf() && kp.private_key@ == private_key@),
            (ed25519_pair_valid(private_key@) && private_key@.len() == 64 ==> r is Ok),
    {
        match validate_keypair_bytes(&private_key) {
            Ok(public_key) => Ok(Self { private_key, public_key }),
            Err(_) => Err(()),
        }
    }

    /// Build the pair from separately loaded private and public bytes,
    /// failing fast when either is malformed or when the two do not belong
    /// together.
    pub fn from_key_bytes(private_key: Vec<u8>, public_key: Vec<u8>) -> (r: Result<Self, ()>)
        ensures
            (r matches Ok(kp) ==> kp.wf() && kp.private_key@ == private_key@ && kp.public_key@
                == public_key@),
            (ed25519_pair_valid(private_key@) && private_key@.len() == 64 && public_key@
                == ed25519_public_of(private_key@) ==> r is Ok),
    {
        let derived = match validate_keypair_bytes(&private_key) {
            Ok(p) => p,
            Err(_) => {
                return Err(());
            },
        };
        if bytes_equal(&derived, &public_key) {
            Ok(Self { private_key, public_key })
        } else {
            Err(())
        }
    }

    /// Generate a fresh pair.
    pub fn generate() -> (r: Self)
        ensures
            r.wf(),
    {
        let (private_key, public_key) = generate_ed25519_pair();
        Self { private_key, public_key }
    }
}

/// Byte-for-byte equality of two byte strings.
fn bytes_equal(a: &Vec<u8>, b: &Vec<u8>) -> (r: bool)
    ensures
        r == (a@ =~= b@),
{
    if a.len() != b.len() {
        return false;
    }
    let n = a.len();
    for i in 0..n
        invariant
            n == a@.len(),
            n == b@.len(),
            forall|k: int| 0 <= k < i ==> a@[k] == b@[k],
    {
        if a[i] != b[i] {
            return false;
        }
    }
    true
}

/// Relies on jwt_simple's Ed25519KeyPair::from_bytes and, through it,
/// ed25519-compact's pair validation: the pair parses only at 64 bytes, the
/// validation recomputes the public key from the seed and accepts exactly
/// the encodings whose stored public half matches it, and the public bytes
/// returned are that half — a fixed function of the pair's bytes.
#[verifier::external_body]
fn validate_keypair_bytes(pair: &Vec<u8>) -> (r: Result<Vec<u8>, anyhow::Error>)
    ensures
        (r matches Ok(p) ==> p@ == ed25519_public_of(pair@) && ed25519_pair_valid(pair@)
            && pair@.len() == 64),
        (ed25519_pair_valid(pair@) && pair@.len() == 64 ==> r is Ok),
{
    let kp = jwt_simple::prelude::Ed25519KeyPair::from_bytes(pair.as_slice())?;
    kp.key_pair().as_ref().validate()?;
    Ok(kp.public_key().to_bytes())
}

/// Relies on jwt_simple's Ed25519KeyPair::generate, to_bytes and public_key:
/// a generated pair is a coherent 64-byte encoding whose public half is the
/// second component. The pair itself is drawn at random.
#[verifier::external_body]
fn generate_ed25519_pair() -> (r: (Vec<u8>, Vec<u8>))
    ensures
        r.1@ == ed25519_public_of(r.0@),
        ed25519_pair_valid(r.0@),
        r.0@.len() == 64,
{
    let kp = jwt_simple::prelude::Ed25519KeyPair::generate();
    (kp.to_bytes(), kp.public_key().to_bytes())
}

} // verus!
