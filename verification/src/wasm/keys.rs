//! x25519 key pairs and shared secrets.
use vstd::prelude::*;
use vstd::string::*;
use crate::ids::fill_random;

verus! {

broadcast use vstd::string::group_string_axioms;

/// An x25519 key pair.
pub struct KeyPair {
    pub public_key: [u8; 32],
    pub secret_key: [u8; 32],
}

/// The public key that x25519-dalek derives from a secret key
/// (`PublicKey::from(&StaticSecret::from(secret))`).
pub uninterp spec fn x25519_public_key(secret: Seq<u8>) -> Seq<u8>;

/// The shared secret that x25519-dalek computes from a secret key and a public key
/// (`StaticSecret::from(secret).diffie_hellman(&PublicKey::from(public))`).
pub uninterp spec fn x25519_shared_secret(secret: Seq<u8>, public: Seq<u8>) -> Seq<u8>;

/// Calls x25519-dalek: the public key of `secret`, through `StaticSecret::from` (which
/// keeps the bytes as given) and `PublicKey::from`. Its result is named:
/// `x25519_public_key`.
#[verifier::external_body]
fn public_key_of(secret: &[u8; 32]) -> (p: [u8; 32])
    ensures
        p@ == x25519_public_key(secret@),
{
    let s = x25519_dalek::StaticSecret::from(*secret);
    *x25519_dalek::PublicKey::from(&s).as_bytes()
}

/// Calls x25519-dalek: `StaticSecret::diffie_hellman` of `secret` with the public key
/// `public`. Its result is named: `x25519_shared_secret`.
#[verifier::external_body]
fn diffie_hellman(secret: &[u8; 32], public: &[u8; 32]) -> (shared: [u8; 32])
    ensures
        shared@ == x25519_shared_secret(secret@, public@),
{
    let s = x25519_dalek::StaticSecret::from(*secret);
    let p = x25519_dalek::PublicKey::from(*public);
    *s.diffie_hellman(&p).as_bytes()
}

/// The key pair of a secret key: the secret and its public key.
pub fn keypair_from_secret(secret: [u8; 32]) -> (kp: KeyPair)
    ensures
        kp.secret_key@ == secret@,
        kp.public_key@ == x25519_public_key(secret@),
{
    let public = public_key_of(&secret);
    KeyPair { public_key: public, secret_key: secret }
}

/// A new key pair from the system's random source: a random secret key and its public
/// key; `None` when the random source failed.
pub fn generate_keypair() -> (r: Option<KeyPair>)
    ensures
        r matches Some(kp) ==> kp.public_key@ == x25519_public_key(kp.secret_key@),
{
    let mut secret = [0u8; 32];
    if !fill_random(&mut secret) {
        return None;
    }
    Some(keypair_from_secret(secret))
}

/// The shared secret of our secret key and their public key.
pub fn derive_shared_secret(my_secret: &[u8; 32], their_public: &[u8; 32]) -> (s: [u8; 32])
    ensures
        s@ == x25519_shared_secret(my_secret@, their_public@),
{
    diffie_hellman(my_secret, their_public)
}

fn to_key(bytes: &[u8]) -> (r: [u8; 32])
    requires
        bytes@.len() == 32,
    ensures
        r@ == bytes@,
{
    let mut a = [0u8; 32];
    let mut i: usize = 0;
    while i < 32
        invariant
            i <= 32,
            bytes@.len() == 32,
            a@.len() == 32,
            forall|j: int| 0 <= j < i ==> a@[j] == bytes@[j],
        decreases 32 - i,
    {
        a.set(i, bytes[i]);
        i += 1;
    }
    assert(a@ =~= bytes@);
    a
}

/// The shared secret of keys given as byte strings, which must be 32 bytes each.
pub fn derive_shared_secret_checked(my_secret: &[u8], their_public: &[u8]) -> (r: Result<
    Vec<u8>,
    String,
>)
    ensures
        my_secret@.len() != 32 ==> (r matches Err(e) && e@ == "secret key must be 32 bytes"@),
        my_secret@.len() == 32 && their_public@.len() != 32 ==> (r matches Err(e) && e@
            == "public key must be 32 bytes"@),
        my_secret@.len() == 32 && their_public@.len() == 32 ==> (r matches Ok(s) && s@
            == x25519_shared_secret(my_secret@, their_public@)),
{
    if my_secret.len() != 32 {
        return Err(String::from_str("secret key must be 32 bytes"));
    }
    if their_public.len() != 32 {
        return Err(String::from_str("public key must be 32 bytes"));
    }
    let s = to_key(my_secret);
    let p = to_key(their_public);
    let shared = derive_shared_secret(&s, &p);
    let mut out: Vec<u8> = Vec::new();
    let mut i: usize = 0;
    while i < 32
        invariant
            i <= 32,
            shared@.len() == 32,
            out@ == shared@.take(i as int),
        decreases 32 - i,
    {
        out.push(shared[i]);
        i += 1;
        assert(out@ =~= shared@.take(i as int));
    }
    assert(shared@.take(32) =~= shared@);
    Ok(out)
}

} // verus!
