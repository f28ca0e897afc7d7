//! Detached digital signatures and authenticated public-key encryption,
//! backed by hex-encoded key files.
//!
//! The crate is organised leaf-first:
//! - [`errors`] — the failure taxonomy shared by every operation.
//! - [`hexcodec`] — the lowercase-hex text encoding used for keys,
//!   signatures and envelopes, verified down to its byte arithmetic.
//! - [`keys`] — the key store: parsing and validating explicit key
//!   material, loading key files, and lazily generating fresh keypairs.
//! - [`envelope`] — the `nonce ‖ ciphertext` wire format and its hex
//!   textual form.
//! - [`signing`] — detached Ed25519-style signatures.
//! - [`sealing`] — authenticated public-key encryption (box) built on the
//!   envelope codec.
//!
//! All file and terminal I/O stays with the caller: the functions here map
//! plain bytes to plain bytes, and key generation returns write plans that
//! the caller persists.

pub mod envelope;
pub mod errors;
pub mod hexcodec;
pub mod keys;
pub mod sealing;
pub mod signing;
