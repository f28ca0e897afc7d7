//! The transport envelope: `nonce ‖ ciphertext`, hex-encoded on the wire.
//!
//! An authenticated ciphertext always carries a 16-byte tag, so a decoded
//! envelope is at least 40 bytes (24-byte nonce plus the tag of an empty
//! plaintext); anything shorter is malformed.

use vstd::prelude::*;

use crate::errors::CryptoError;
use crate::hexcodec::{hex_decode, hex_encode, spec_hex_decode, spec_hex_encode, spec_hex_ok};
use crate::hexcodec::lemma_hex_round_trip;

verus! {

/// Byte length of an encryption nonce.
pub const NONCE_LEN: usize = 24;

/// Byte length of the authentication tag the encryption primitive appends.
pub const TAG_LEN: usize = 16;

/// The least number of bytes a well-formed envelope can hold: a nonce and
/// the tag of an empty plaintext.
pub const MIN_ENVELOPE_LEN: usize = NONCE_LEN + TAG_LEN;

/// A nonce and the authenticated ciphertext it belongs to, carried as one
/// transportable unit.
pub struct Envelope {
    pub nonce: Vec<u8>,
    pub ciphertext: Vec<u8>,
}

/// Append all of `src` to `dst`.
fn append_bytes(dst: &mut Vec<u8>, src: &[u8])
    requires
        old(dst)@.len() + src@.len() <= usize::MAX,
    ensures
        final(dst)@ == old(dst)@ + src@,
{
    let n = src.len();
    for i in 0..n
        invariant
            n == src@.len(),
            dst@ == old(dst)@ + src@.subrange(0, i as int),
    {
        dst.push(src[i]);
        proof {
            assert(src@.subrange(0, i + 1) =~= src@.subrange(0, i as int) + seq![src@[i as int]]);
            assert(old(dst)@ + src@.subrange(0, i + 1) =~= (old(dst)@ + src@.subrange(0, i as int))
                + seq![src@[i as int]]);
        }
    }
    proof {
        assert(src@.subrange(0, n as int) =~= src@);
    }
}

impl Envelope {
    /// The nonce has its fixed length and the ciphertext is at least one
    /// authentication tag long.
    pub open spec fn wf(self) -> bool {
        &&& self.nonce@.len() == NONCE_LEN
        &&& self.ciphertext@.len() >= TAG_LEN
    }

    /// The envelope's wire bytes: nonce first, ciphertext after.
    pub open spec fn spec_wire(self) -> Seq<u8> {
        self.nonce@ + self.ciphertext@
    }

    /// Concatenate nonce and ciphertext into the wire byte form.
    pub fn to_wire(&self) -> (wire: Vec<u8>)
        requires
            self.nonce@.len() + self.ciphertext@.len() <= usize::MAX,
        ensures
            wire@ == self.spec_wire(),
    {
        let mut wire: Vec<u8> = Vec::new();
        append_bytes(&mut wire, self.nonce.as_slice());
        append_bytes(&mut wire, self.ciphertext.as_slice());
        proof {
            assert(Seq::<u8>::empty() + self.nonce@ =~= self.nonce@);
        }
        wire
    }

    /// Split wire bytes back into an envelope: the first 24 bytes are the
    /// nonce, the rest the ciphertext. Fewer than 40 bytes cannot hold a
    /// nonce and a tag and are rejected.
    pub fn from_wire(bytes: &[u8]) -> (r: Result<Envelope, CryptoError>)
        ensures
            bytes@.len() < MIN_ENVELOPE_LEN ==> r == Err::<Envelope, CryptoError>(
                CryptoError::EnvelopeTooShort,
            ),
            bytes@.len() >= MIN_ENVELOPE_LEN ==> (r matches Ok(e) && e.wf() && e.nonce@ == bytes@
                .subrange(0, NONCE_LEN as int) && e.ciphertext@ == bytes@.subrange(
                NONCE_LEN as int,
                bytes@.len() as int,
            )),
    {
        let n = bytes.len();
        if n < MIN_ENVELOPE_LEN {
            return Err(CryptoError::EnvelopeTooShort);
        }
        let mut nonce: Vec<u8> = Vec::new();
        let mut ciphertext: Vec<u8> = Vec::new();
        let mut i: usize = 0;
        while i < NONCE_LEN
            invariant
                i <= NONCE_LEN,
                n == bytes@.len(),
                n >= MIN_ENVELOPE_LEN,
                nonce@ == bytes@.subrange(0, i as int),
            decreases NONCE_LEN - i,
        {
            nonce.push(bytes[i]);
            proof {
                assert(bytes@.subrange(0, i + 1) =~= bytes@.subrange(0, i as int) + seq![
                    bytes@[i as int],
                ]);
            }
            i = i + 1;
        }
        let mut k: usize = NONCE_LEN;
        while k < n
            invariant
                NONCE_LEN <= k <= n,
                n == bytes@.len(),
                ciphertext@ == bytes@.subrange(NONCE_LEN as int, k as int),
            decreases n - k,
        {
            ciphertext.push(bytes[k]);
            proof {
                assert(bytes@.subrange(NONCE_LEN as int, k + 1) =~= bytes@.subrange(
                    NONCE_LEN as int,
                    k as int,
                ) + seq![bytes@[k as int]]);
            }
            k = k + 1;
        }
        Ok(Envelope { nonce, ciphertext })
    }

    /// The envelope's textual form: lowercase hex of the wire bytes.
    pub fn encode_hex(&self) -> (text: Vec<u8>)
        requires
            self.nonce@.len() + self.ciphertext@.len() <= usize::MAX / 2,
        ensures
            text@ == spec_hex_encode(self.spec_wire()),
            text@.len() == 2 * self.spec_wire().len(),
    {
        let wire = self.to_wire();
        hex_encode(&wire)
    }

    /// Decode the textual form: hex-decode, then split the wire bytes.
    pub fn decode_hex(text: &[u8]) -> (r: Result<Envelope, CryptoError>)
        ensures
            !spec_hex_ok(text@) ==> r == Err::<Envelope, CryptoError>(
                CryptoError::InvalidHexEncoding,
            ),
            spec_hex_ok(text@) && spec_hex_decode(text@).len() < MIN_ENVELOPE_LEN ==> r == Err::<
                Envelope,
                CryptoError,
            >(CryptoError::EnvelopeTooShort),
            spec_hex_ok(text@) && spec_hex_decode(text@).len() >= MIN_ENVELOPE_LEN ==> (r matches
                Ok(e) && e.wf() && e.nonce@ == spec_hex_decode(text@).subrange(0, NONCE_LEN as int)
                && e.ciphertext@ == spec_hex_decode(text@).subrange(
                NONCE_LEN as int,
                spec_hex_decode(text@).len() as int,
            )),
    {
        match hex_decode(text) {
            Ok(wire) => Envelope::from_wire(wire.as_slice()),
            Err(e) => Err(e),
        }
    }
}

/// A well-formed envelope survives its textual round trip: the hex text is
/// well-formed, decodes back to the wire bytes, and those split into the
/// same nonce and ciphertext again.
pub proof fn lemma_envelope_round_trip(e: Envelope)
    requires
        e.wf(),
    ensures
        spec_hex_ok(spec_hex_encode(e.spec_wire())),
        spec_hex_decode(spec_hex_encode(e.spec_wire())) == e.spec_wire(),
        e.spec_wire().len() >= MIN_ENVELOPE_LEN,
        e.spec_wire().subrange(0, NONCE_LEN as int) == e.nonce@,
        e.spec_wire().subrange(NONCE_LEN as int, e.spec_wire().len() as int) == e.ciphertext@,
{
    lemma_hex_round_trip(e.spec_wire());
    assert(e.spec_wire().subrange(0, NONCE_LEN as int) =~= e.nonce@);
    assert(e.spec_wire().subrange(NONCE_LEN as int, e.spec_wire().len() as int) =~= e.ciphertext@);
}

} // verus!
