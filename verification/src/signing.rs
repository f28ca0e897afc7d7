//! Detached signatures over arbitrary byte payloads.
//!
//! The Ed25519-style primitive lives in the `dryoc` crate and is trusted;
//! this module drives it: a signing keypair is 32 public and 64 secret
//! bytes (the secret half carries the public half in its last 32 bytes),
//! a signature is always 64 detached bytes, and a failed verification is a
//! first-class result, not an error.

use vstd::prelude::*;

verus! {

/// Byte length of a signing public key.
pub const SIGN_PUBLIC_KEY_LEN: usize = 32;

/// Byte length of a signing secret key.
pub const SIGN_SECRET_KEY_LEN: usize = 64;

/// Byte length of a detached signature.
pub const SIGNATURE_LEN: usize = 64;

/// The signature the deterministic signing primitive produces for a secret
/// key and a message.
pub uninterp spec fn spec_sign(secret_key: Seq<u8>, message: Seq<u8>) -> Seq<u8>;

/// Whether the verification primitive accepts `signature` for `message`
/// under `public_key`.
pub uninterp spec fn spec_sign_verifies(
    public_key: Seq<u8>,
    message: Seq<u8>,
    signature: Seq<u8>,
) -> bool;

/// Whether a 64-byte secret key is one the keypair generator can produce:
/// a seed followed by the matching public key.
pub uninterp spec fn spec_sign_keypair_wf(secret_key: Seq<u8>) -> bool;

/// The public key a well-formed signing secret key carries in its last 32
/// bytes.
pub open spec fn spec_sign_public_of(secret_key: Seq<u8>) -> Seq<u8>
    recommends
        secret_key.len() == SIGN_SECRET_KEY_LEN,
{
    secret_key.subrange(32, 64)
}

/// A freshly generated signing keypair.
pub struct SigningPair {
    pub public_key: Vec<u8>,
    pub secret_key: Vec<u8>,
}

impl SigningPair {
    /// Both halves have their fixed lengths, the secret half carries the
    /// public half, and the pair came out of the keypair generator.
    pub open spec fn wf(self) -> bool {
        &&& self.public_key@.len() == SIGN_PUBLIC_KEY_LEN
        &&& self.secret_key@.len() == SIGN_SECRET_KEY_LEN
        &&& self.public_key@ == spec_sign_public_of(self.secret_key@)
        &&& spec_sign_keypair_wf(self.secret_key@)
    }
}

/// Relies on dryoc's `classic::crypto_sign::crypto_sign_keypair`: a fresh
/// random Ed25519 pair whose 64-byte secret key is the 32-byte seed
/// followed by the 32-byte public key.
#[verifier::external_body]
fn sign_keypair_call() -> (kp: (Vec<u8>, Vec<u8>))
    ensures
        kp.0@.len() == SIGN_PUBLIC_KEY_LEN,
        kp.1@.len() == SIGN_SECRET_KEY_LEN,
        kp.0@ == spec_sign_public_of(kp.1@),
        spec_sign_keypair_wf(kp.1@),
{
    let (pk, sk) = dryoc::classic::crypto_sign::crypto_sign_keypair();
    (pk.to_vec(), sk.to_vec())
}

/// Relies on dryoc's `classic::crypto_sign::crypto_sign_detached`: a
/// deterministic 64-byte signature over exactly the supplied bytes, which
/// never fails for a 64-byte secret key, and which the verification
/// primitive accepts under the matching public key whenever the secret key
/// came out of the keypair generator.
#[verifier::external_body]
fn sign_detached_call(secret_key: &Vec<u8>, message: &Vec<u8>) -> (sig: Vec<u8>)
    requires
        secret_key@.len() == SIGN_SECRET_KEY_LEN,
    ensures
        sig@.len() == SIGNATURE_LEN,
        sig@ == spec_sign(secret_key@, message@),
        spec_sign_keypair_wf(secret_key@) ==> spec_sign_verifies(
            spec_sign_public_of(secret_key@),
            message@,
            sig@,
        ),
{
    let mut sig = [0u8; 64];
    let sk: &[u8; 64] = secret_key.as_slice().try_into().unwrap();
    let _ = dryoc::classic::crypto_sign::crypto_sign_detached(&mut sig, message.as_slice(), sk);
    sig.to_vec()
}

/// Relies on dryoc's `classic::crypto_sign::crypto_sign_verify_detached`:
/// deterministic in the three inputs, `Ok` exactly when the signature
/// authenticates the message under the public key.
#[verifier::external_body]
fn sign_verify_call(public_key: &Vec<u8>, message: &Vec<u8>, signature: &Vec<u8>) -> (ok: bool)
    requires
        public_key@.len() == SIGN_PUBLIC_KEY_LEN,
        signature@.len() == SIGNATURE_LEN,
    ensures
        ok == spec_sign_verifies(public_key@, message@, signature@),
{
    let pk: &[u8; 32] = public_key.as_slice().try_into().unwrap();
    let sig: &[u8; 64] = signature.as_slice().try_into().unwrap();
    dryoc::classic::crypto_sign::crypto_sign_verify_detached(sig, message.as_slice(), pk).is_ok()
}

/// Generate a fresh signing keypair.
pub fn fresh_signing_pair() -> (kp: SigningPair)
    ensures
        kp.wf(),
{
    let (public_key, secret_key) = sign_keypair_call();
    SigningPair { public_key, secret_key }
}

/// Sign `message` with a 64-byte secret key, returning the 64-byte
/// detached signature.
///
/// The signature is deterministic in the key and the exact bytes of the
/// message, and verifies under the key's public half whenever the secret
/// key is a well-formed generated one.
pub fn sign(secret_key: &Vec<u8>, message: &Vec<u8>) -> (sig: Vec<u8>)
    requires
        secret_key@.len() == SIGN_SECRET_KEY_LEN,
    ensures
        sig@.len() == SIGNATURE_LEN,
        sig@ == spec_sign(secret_key@, message@),
        spec_sign_keypair_wf(secret_key@) ==> spec_sign_verifies(
            spec_sign_public_of(secret_key@),
            message@,
            sig@,
        ),
{
    sign_detached_call(secret_key, message)
}

/// The outcome of a signature verification: a mismatch is a normal result
/// reported to the caller, never an error.
#[derive(Clone, Copy, Debug, PartialEq, Eq, Structural)]
pub enum SignatureCheck {
    Valid,
    Invalid,
}

/// Check a 64-byte detached signature over `message` under a 32-byte
/// public key.
pub fn verify(public_key: &Vec<u8>, message: &Vec<u8>, signature: &Vec<u8>) -> (r: SignatureCheck)
    requires
        public_key@.len() == SIGN_PUBLIC_KEY_LEN,
        signature@.len() == SIGNATURE_LEN,
    ensures
        r == SignatureCheck::Valid <==> spec_sign_verifies(public_key@, message@, signature@),
{
    if sign_verify_call(public_key, message, signature) {
        SignatureCheck::Valid
    } else {
        SignatureCheck::Invalid
    }
}

} // verus!
