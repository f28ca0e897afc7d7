//! Authenticated public-key encryption over the transport envelope.
//!
//! The box primitive lives in the `dryoc` crate and is trusted; this
//! module drives it. Roles are asymmetric and must not be swapped:
//! encryption takes the *receiver's public* and the *sender's secret* key,
//! decryption the *sender's public* and the *receiver's secret* key. Every
//! encryption draws a fresh random 24-byte nonce — reusing one under the
//! same keys would break the scheme — and decryption is all-or-nothing:
//! a tag mismatch yields an error and no plaintext at all.

use vstd::prelude::*;

use rand::RngCore;

use crate::envelope::{Envelope, MIN_ENVELOPE_LEN, NONCE_LEN, TAG_LEN};
use crate::errors::CryptoError;

verus! {

/// Byte length of an encryption public key.
pub const BOX_PUBLIC_KEY_LEN: usize = 32;

/// Byte length of an encryption secret key.
pub const BOX_SECRET_KEY_LEN: usize = 32;

/// The public key the primitive derives from an encryption secret key.
pub uninterp spec fn spec_box_public_of(secret_key: Seq<u8>) -> Seq<u8>;

/// Whether a 32-byte secret key is one the box keypair generator can
/// produce.
pub uninterp spec fn spec_box_keypair_wf(secret_key: Seq<u8>) -> bool;

/// The ciphertext the deterministic box primitive produces for the given
/// keys, nonce and plaintext.
pub uninterp spec fn spec_box_seal(
    receiver_public: Seq<u8>,
    sender_secret: Seq<u8>,
    nonce: Seq<u8>,
    plaintext: Seq<u8>,
) -> Seq<u8>;

/// What opening a ciphertext yields: the plaintext, or nothing when
/// authentication fails.
pub uninterp spec fn spec_box_open(
    sender_public: Seq<u8>,
    receiver_secret: Seq<u8>,
    nonce: Seq<u8>,
    ciphertext: Seq<u8>,
) -> Option<Seq<u8>>;

/// A freshly generated encryption keypair.
pub struct EncryptionPair {
    pub public_key: Vec<u8>,
    pub secret_key: Vec<u8>,
}

impl EncryptionPair {
    /// Both halves have their fixed lengths, the public half is derived
    /// from the secret half, and the pair came out of the keypair
    /// generator.
    pub open spec fn wf(self) -> bool {
        &&& self.public_key@.len() == BOX_PUBLIC_KEY_LEN
        &&& self.secret_key@.len() == BOX_SECRET_KEY_LEN
        &&& self.public_key@ == spec_box_public_of(self.secret_key@)
        &&& spec_box_keypair_wf(self.secret_key@)
    }
}

/// Relies on dryoc's `classic::crypto_box::crypto_box_keypair`: a fresh
/// random X25519 pair, the public half derived from the secret half.
#[verifier::external_body]
fn box_keypair_call() -> (kp: (Vec<u8>, Vec<u8>))
    ensures
        kp.0@.len() == BOX_PUBLIC_KEY_LEN,
        kp.1@.len() == BOX_SECRET_KEY_LEN,
        kp.0@ == spec_box_public_of(kp.1@),
        spec_box_keypair_wf(kp.1@),
{
    let (pk, sk) = dryoc::classic::crypto_box::crypto_box_keypair();
    (pk.to_vec(), sk.to_vec())
}

/// Relies on rand's `OsRng`: 24 bytes from the operating system's
/// cryptographically secure random source. Nothing is promised of their
/// value; every call may differ.
#[verifier::external_body]
fn random_nonce_call() -> (nonce: Vec<u8>)
    ensures
        nonce@.len() == NONCE_LEN,
{
    let mut nonce = [0u8; 24];
    rand::rngs::OsRng.fill_bytes(&mut nonce);
    nonce.to_vec()
}

/// Relies on dryoc's `classic::crypto_box::crypto_box_easy`: deterministic
/// authenticated encryption, one 16-byte tag longer than the plaintext. It
/// fails only when the receiver public key is a rejected low-order point —
/// never for a generated public key — and the matching keys open the
/// result back to the plaintext.
#[verifier::external_body]
fn box_seal_call(
    receiver_public: &Vec<u8>,
    sender_secret: &Vec<u8>,
    nonce: &Vec<u8>,
    plaintext: &Vec<u8>,
) -> (r: Option<Vec<u8>>)
    requires
        receiver_public@.len() == BOX_PUBLIC_KEY_LEN,
        sender_secret@.len() == BOX_SECRET_KEY_LEN,
        nonce@.len() == NONCE_LEN,
        plaintext@.len() + TAG_LEN <= usize::MAX,
    ensures
        r matches Some(ct) ==> ct@ == spec_box_seal(
            receiver_public@,
            sender_secret@,
            nonce@,
            plaintext@,
        ) && ct@.len() == plaintext@.len() + TAG_LEN,
        (exists|rsk: Seq<u8>|
            spec_box_keypair_wf(rsk) && receiver_public@ == #[trigger] spec_box_public_of(rsk))
            ==> r is Some,
        r matches Some(ct) ==> spec_box_keypair_wf(sender_secret@) ==> (forall|rsk: Seq<u8>|
            spec_box_keypair_wf(rsk) && receiver_public@ == #[trigger] spec_box_public_of(rsk)
                ==> spec_box_open(spec_box_public_of(sender_secret@), rsk, nonce@, ct@) == Some(
                plaintext@,
            )),
{
    let mut ct = vec![0u8; plaintext.len() + 16];
    let n: &[u8; 24] = nonce.as_slice().try_into().unwrap();
    let pk: &[u8; 32] = receiver_public.as_slice().try_into().unwrap();
    let sk: &[u8; 32] = sender_secret.as_slice().try_into().unwrap();
    match dryoc::classic::crypto_box::crypto_box_easy(&mut ct, plaintext.as_slice(), n, pk, sk) {
        Ok(()) => Some(ct),
        Err(_) => None,
    }
}

/// Relies on dryoc's `classic::crypto_box::crypto_box_open_easy`:
/// deterministic authenticated decryption. Success yields the plaintext,
/// 16 bytes shorter than the ciphertext; any failure — tag mismatch,
/// corrupted bytes, rejected key — yields nothing at all.
#[verifier::external_body]
fn box_open_call(
    sender_public: &Vec<u8>,
    receiver_secret: &Vec<u8>,
    nonce: &Vec<u8>,
    ciphertext: &Vec<u8>,
) -> (r: Option<Vec<u8>>)
    requires
        sender_public@.len() == BOX_PUBLIC_KEY_LEN,
        receiver_secret@.len() == BOX_SECRET_KEY_LEN,
        nonce@.len() == NONCE_LEN,
        ciphertext@.len() >= TAG_LEN,
    ensures
        r matches Some(p) ==> spec_box_open(sender_public@, receiver_secret@, nonce@, ciphertext@)
            == Some(p@) && p@.len() + TAG_LEN == ciphertext@.len(),
        r is None ==> spec_box_open(sender_public@, receiver_secret@, nonce@, ciphertext@) is None,
{
    let mut pt = vec![0u8; ciphertext.len() - 16];
    let n: &[u8; 24] = nonce.as_slice().try_into().unwrap();
    let pk: &[u8; 32] = sender_public.as_slice().try_into().unwrap();
    let sk: &[u8; 32] = receiver_secret.as_slice().try_into().unwrap();
    match dryoc::classic::crypto_box::crypto_box_open_easy(
        &mut pt,
        ciphertext.as_slice(),
        n,
        pk,
        sk,
    ) {
        Ok(()) => Some(pt),
        Err(_) => None,
    }
}

/// Generate a fresh encryption keypair.
pub fn fresh_encryption_pair() -> (kp: EncryptionPair)
    ensures
        kp.wf(),
{
    let (public_key, secret_key) = box_keypair_call();
    EncryptionPair { public_key, secret_key }
}

/// Encrypt `plaintext` for the receiver: draw a fresh random nonce, seal
/// the plaintext under the receiver's public and the sender's secret key,
/// and assemble the envelope.
///
/// The ciphertext is one tag longer than the plaintext, and whenever the
/// keys are generated ones, opening the envelope with the matching
/// opposite keys yields the plaintext again. Only a rejected (low-order)
/// receiver public key makes the primitive fail; a generated public key
/// never does.
pub fn encrypt(receiver_public: &Vec<u8>, sender_secret: &Vec<u8>, plaintext: &Vec<u8>) -> (r:
    Result<Envelope, CryptoError>)
    requires
        receiver_public@.len() == BOX_PUBLIC_KEY_LEN,
        sender_secret@.len() == BOX_SECRET_KEY_LEN,
        plaintext@.len() + MIN_ENVELOPE_LEN <= usize::MAX,
    ensures
        r matches Ok(e) ==> e.wf() && e.nonce@.len() == NONCE_LEN && e.ciphertext@
            == spec_box_seal(receiver_public@, sender_secret@, e.nonce@, plaintext@)
            && e.ciphertext@.len() == plaintext@.len() + TAG_LEN,
        r matches Ok(e) ==> spec_box_keypair_wf(sender_secret@) ==> (forall|rsk: Seq<u8>|
            spec_box_keypair_wf(rsk) && receiver_public@ == #[trigger] spec_box_public_of(rsk)
                ==> spec_box_open(spec_box_public_of(sender_secret@), rsk, e.nonce@, e.ciphertext@)
                == Some(plaintext@)),
        (exists|rsk: Seq<u8>|
            spec_box_keypair_wf(rsk) && receiver_public@ == #[trigger] spec_box_public_of(rsk))
            ==> r is Ok,
        r is Err ==> r == Err::<Envelope, CryptoError>(CryptoError::EncryptionFailed),
{
    let nonce = random_nonce_call();
    match box_seal_call(receiver_public, sender_secret, &nonce, plaintext) {
        Some(ciphertext) => Ok(Envelope { nonce, ciphertext }),
        None => Err(CryptoError::EncryptionFailed),
    }
}

/// What decrypting wire bytes must yield: too few bytes for a nonce and a
/// tag are malformed; otherwise the first 24 bytes are the nonce, the rest
/// the ciphertext, and opening either authenticates or fails closed.
pub open spec fn spec_decrypt(
    sender_public: Seq<u8>,
    receiver_secret: Seq<u8>,
    wire: Seq<u8>,
) -> Result<Seq<u8>, CryptoError> {
    if wire.len() < MIN_ENVELOPE_LEN {
        Err(CryptoError::EnvelopeTooShort)
    } else {
        match spec_box_open(
            sender_public,
            receiver_secret,
            wire.subrange(0, NONCE_LEN as int),
            wire.subrange(NONCE_LEN as int, wire.len() as int),
        ) {
            Some(p) => Ok(p),
            None => Err(CryptoError::DecryptionFailed),
        }
    }
}

/// Decrypt envelope wire bytes with the sender's public and the receiver's
/// secret key.
pub fn decrypt(sender_public: &Vec<u8>, receiver_secret: &Vec<u8>, envelope_bytes: &[u8]) -> (r:
    Result<Vec<u8>, CryptoError>)
    requires
        sender_public@.len() == BOX_PUBLIC_KEY_LEN,
        receiver_secret@.len() == BOX_SECRET_KEY_LEN,
    ensures
        r matches Ok(p) ==> spec_decrypt(sender_public@, receiver_secret@, envelope_bytes@)
            == Ok::<Seq<u8>, CryptoError>(p@) && p@.len() + MIN_ENVELOPE_LEN
            == envelope_bytes@.len(),
        r matches Err(e) ==> spec_decrypt(sender_public@, receiver_secret@, envelope_bytes@)
            == Err::<Seq<u8>, CryptoError>(e),
{
    match Envelope::from_wire(envelope_bytes) {
        Ok(env) => match box_open_call(sender_public, receiver_secret, &env.nonce, &env.ciphertext) {
            Some(p) => Ok(p),
            None => Err(CryptoError::DecryptionFailed),
        },
        Err(e) => Err(e),
    }
}

} // verus!
