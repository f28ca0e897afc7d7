//! The key store: validated key bytes from explicit material or key
//! files, with lazy generation of a whole keypair when a file is absent.
//!
//! The store itself never touches the filesystem. The caller reads a key
//! file (or passes explicit hex from the command line) and hands the raw
//! material in as a [`KeySource`]; when a fresh pair must be generated the
//! store answers with the key *and* the two file plans that have to be
//! persisted — both of them, before either key is used, so that no
//! partial pair is ever observable.

use vstd::prelude::*;

use crate::errors::CryptoError;
use crate::hexcodec::{
    hex_decode, hex_encode, lemma_hex_round_trip, lemma_trim_hex_identity, spec_hex_decode,
    spec_hex_encode, spec_hex_ok, spec_trim, trim_ascii,
};
use crate::sealing::{
    fresh_encryption_pair, spec_box_keypair_wf, spec_box_public_of, EncryptionPair,
    BOX_PUBLIC_KEY_LEN, BOX_SECRET_KEY_LEN,
};
use crate::signing::{
    fresh_signing_pair, spec_sign_keypair_wf, spec_sign_public_of, SigningPair,
    SIGN_PUBLIC_KEY_LEN, SIGN_SECRET_KEY_LEN,
};

verus! {

/// The four key roles the store can resolve.
#[derive(Clone, Copy, Debug, PartialEq, Eq, Structural)]
pub enum KeyRole {
    SignPublic,
    SignSecret,
    EncPublic,
    EncSecret,
}

impl KeyRole {
    /// The exact byte length a key of this role must have: 64 for the
    /// signing secret key, 32 for everything else.
    pub open spec fn spec_expected_len(self) -> nat {
        match self {
            KeyRole::SignSecret => SIGN_SECRET_KEY_LEN as nat,
            KeyRole::SignPublic => SIGN_PUBLIC_KEY_LEN as nat,
            KeyRole::EncPublic => BOX_PUBLIC_KEY_LEN as nat,
            KeyRole::EncSecret => BOX_SECRET_KEY_LEN as nat,
        }
    }

    /// The exact byte length a key of this role must have.
    pub fn expected_len(self) -> (n: usize)
        ensures
            n == self.spec_expected_len(),
    {
        match self {
            KeyRole::SignSecret => 64,
            _ => 32,
        }
    }

    /// The name of the file a key of this role is persisted under.
    pub open spec fn spec_file_name(self) -> Seq<char> {
        match self {
            KeyRole::SignPublic => "sign_public.key"@,
            KeyRole::SignSecret => "sign_secret.key"@,
            KeyRole::EncPublic => "enc_public.key"@,
            KeyRole::EncSecret => "enc_secret.key"@,
        }
    }

    /// The name of the file a key of this role is persisted under.
    pub fn file_name(self) -> (name: &'static str)
        ensures
            name@ == self.spec_file_name(),
    {
        match self {
            KeyRole::SignPublic => "sign_public.key",
            KeyRole::SignSecret => "sign_secret.key",
            KeyRole::EncPublic => "enc_public.key",
            KeyRole::EncSecret => "enc_secret.key",
        }
    }
}

/// Where the material for a key resolution comes from: hex text supplied
/// explicitly (e.g. on the command line), the contents of an existing key
/// file, or nothing at all — the backing file is absent.
pub enum KeySource {
    ExplicitHex(Vec<u8>),
    FileContents(Vec<u8>),
    Absent,
}

/// One file the store needs written: its role-derived name and its full
/// contents, the lowercase hex text of one key half.
pub struct KeyFilePlan {
    pub file_name: &'static str,
    pub contents: Vec<u8>,
}

/// How a key was resolved: loaded from supplied material, or freshly
/// generated — in which case both halves and both file plans come along,
/// and both files must be persisted before either key is used.
pub enum KeyResolution {
    Loaded(Vec<u8>),
    Generated {
        key: Vec<u8>,
        public_file: KeyFilePlan,
        secret_file: KeyFilePlan,
    },
}

/// A fresh copy of `src`.
fn copy_bytes(src: &Vec<u8>) -> (out: Vec<u8>)
    ensures
        out@ == src@,
{
    let mut out: Vec<u8> = Vec::new();
    let n = src.len();
    for i in 0..n
        invariant
            n == src@.len(),
            out@ == src@.subrange(0, i as int),
    {
        out.push(src[i]);
        proof {
            assert(src@.subrange(0, i + 1) =~= src@.subrange(0, i as int) + seq![src@[i as int]]);
        }
    }
    proof {
        assert(src@.subrange(0, n as int) =~= src@);
    }
    out
}

/// What parsing explicit hex key material must yield: text that is not
/// hex is rejected as such, a decode of the wrong length as a length
/// error, and anything else is the decoded key.
pub open spec fn spec_parse_key(text: Seq<u8>, expected_len: nat) -> Result<Seq<u8>, CryptoError> {
    if !spec_hex_ok(text) {
        Err(CryptoError::InvalidHexEncoding)
    } else if spec_hex_decode(text).len() != expected_len {
        Err(CryptoError::InvalidKeyLength)
    } else {
        Ok(spec_hex_decode(text))
    }
}

/// Parse key material supplied directly as hex text and require the exact
/// expected byte length.
pub fn parse_hex_key(hex_text: &[u8], expected_len: usize) -> (r: Result<Vec<u8>, CryptoError>)
    ensures
        r matches Ok(k) ==> spec_parse_key(hex_text@, expected_len as nat) == Ok::<
            Seq<u8>,
            CryptoError,
        >(k@) && k@.len() == expected_len,
        r matches Err(e) ==> spec_parse_key(hex_text@, expected_len as nat) == Err::<
            Seq<u8>,
            CryptoError,
        >(e),
{
    match hex_decode(hex_text) {
        Ok(key) => {
            if key.len() != expected_len {
                Err(CryptoError::InvalidKeyLength)
            } else {
                Ok(key)
            }
        },
        Err(e) => Err(e),
    }
}

/// What loading a key file's contents must yield: trim surrounding ASCII
/// whitespace, hex-decode, and require the exact expected byte length.
pub open spec fn spec_load_key(contents: Seq<u8>, expected_len: nat) -> Option<Seq<u8>> {
    let t = spec_trim(contents);
    if spec_hex_ok(t) && spec_hex_decode(t).len() == expected_len {
        Some(spec_hex_decode(t))
    } else {
        None
    }
}

/// Load key bytes from an existing key file's contents. A file that does
/// not hold valid hex of the expected length is corrupt.
pub fn load_key_bytes(contents: &[u8], expected_len: usize) -> (r: Result<Vec<u8>, CryptoError>)
    ensures
        r matches Ok(k) ==> spec_load_key(contents@, expected_len as nat) == Some(k@) && k@.len()
            == expected_len,
        r is Err ==> spec_load_key(contents@, expected_len as nat) is None && r == Err::<
            Vec<u8>,
            CryptoError,
        >(CryptoError::KeyFileCorrupt),
{
    let trimmed = trim_ascii(contents);
    match hex_decode(trimmed.as_slice()) {
        Ok(key) => {
            if key.len() != expected_len {
                Err(CryptoError::KeyFileCorrupt)
            } else {
                Ok(key)
            }
        },
        Err(_) => Err(CryptoError::KeyFileCorrupt),
    }
}

/// The byte length a signing key half must have: 64 for the secret half,
/// 32 for the public half.
pub open spec fn spec_signing_key_len(is_secret: bool) -> nat {
    if is_secret {
        SIGN_SECRET_KEY_LEN as nat
    } else {
        SIGN_PUBLIC_KEY_LEN as nat
    }
}

/// The plans for persisting a freshly generated pair are faithful: each
/// file carries the role's name and the lowercase hex of its half.
pub open spec fn spec_plans_match(
    public_role: KeyRole,
    secret_role: KeyRole,
    public_file: KeyFilePlan,
    secret_file: KeyFilePlan,
    public_key: Seq<u8>,
    secret_key: Seq<u8>,
) -> bool {
    &&& public_file.file_name@ == public_role.spec_file_name()
    &&& public_file.contents@ == spec_hex_encode(public_key)
    &&& secret_file.file_name@ == secret_role.spec_file_name()
    &&& secret_file.contents@ == spec_hex_encode(secret_key)
}

/// Resolve a signing key: parse explicit hex, load an existing file, or —
/// when the file is absent — generate a fresh signing pair, answer with
/// the requested half, and hand back both file plans for persistence.
pub fn load_or_generate_signing_key(is_secret: bool, source: KeySource) -> (r: Result<
    KeyResolution,
    CryptoError,
>)
    ensures
        source matches KeySource::ExplicitHex(h) ==> (match spec_parse_key(
            h@,
            spec_signing_key_len(is_secret),
        ) {
            Ok(k) => r matches Ok(res) && res matches KeyResolution::Loaded(v) && v@ == k,
            Err(e) => r == Err::<KeyResolution, CryptoError>(e),
        }),
        source matches KeySource::FileContents(c) ==> (match spec_load_key(
            c@,
            spec_signing_key_len(is_secret),
        ) {
            Some(k) => r matches Ok(res) && res matches KeyResolution::Loaded(v) && v@ == k,
            None => r == Err::<KeyResolution, CryptoError>(CryptoError::KeyFileCorrupt),
        }),
        source is Absent ==> (r matches Ok(res) && res matches KeyResolution::Generated {
            key,
            public_file,
            secret_file,
        } && (exists|sk: Seq<u8>|
            {
                &&& #[trigger] spec_sign_keypair_wf(sk)
                &&& sk.len() == SIGN_SECRET_KEY_LEN
                &&& spec_plans_match(
                    KeyRole::SignPublic,
                    KeyRole::SignSecret,
                    public_file,
                    secret_file,
                    spec_sign_public_of(sk),
                    sk,
                )
                &&& key@ == if is_secret {
                    sk
                } else {
                    spec_sign_public_of(sk)
                }
            })),
{
    match source {
        KeySource::ExplicitHex(h) => {
            let expected: usize = if is_secret {
                64
            } else {
                32
            };
            match parse_hex_key(h.as_slice(), expected) {
                Ok(k) => Ok(KeyResolution::Loaded(k)),
                Err(e) => Err(e),
            }
        },
        KeySource::FileContents(c) => {
            let expected: usize = if is_secret {
                64
            } else {
                32
            };
            match load_key_bytes(c.as_slice(), expected) {
                Ok(k) => Ok(KeyResolution::Loaded(k)),
                Err(e) => Err(e),
            }
        },
        KeySource::Absent => {
            let pair = fresh_signing_pair();
            let public_file = KeyFilePlan {
                file_name: KeyRole::SignPublic.file_name(),
                contents: hex_encode(&pair.public_key),
            };
            let secret_file = KeyFilePlan {
                file_name: KeyRole::SignSecret.file_name(),
                contents: hex_encode(&pair.secret_key),
            };
            let key = if is_secret {
                copy_bytes(&pair.secret_key)
            } else {
                copy_bytes(&pair.public_key)
            };
            Ok(KeyResolution::Generated { key, public_file, secret_file })
        },
    }
}

/// Resolve an encryption key: parse explicit hex, load an existing file,
/// or — when the file is absent — generate a fresh encryption pair,
/// answer with the requested half, and hand back both file plans.
pub fn load_or_generate_encryption_key(is_secret: bool, source: KeySource) -> (r: Result<
    KeyResolution,
    CryptoError,
>)
    ensures
        source matches KeySource::ExplicitHex(h) ==> (match spec_parse_key(
            h@,
            BOX_SECRET_KEY_LEN as nat,
        ) {
            Ok(k) => r matches Ok(res) && res matches KeyResolution::Loaded(v) && v@ == k,
            Err(e) => r == Err::<KeyResolution, CryptoError>(e),
        }),
        source matches KeySource::FileContents(c) ==> (match spec_load_key(
            c@,
            BOX_SECRET_KEY_LEN as nat,
        ) {
            Some(k) => r matches Ok(res) && res matches KeyResolution::Loaded(v) && v@ == k,
            None => r == Err::<KeyResolution, CryptoError>(CryptoError::KeyFileCorrupt),
        }),
        source is Absent ==> (r matches Ok(res) && res matches KeyResolution::Generated {
            key,
            public_file,
            secret_file,
        } && (exists|sk: Seq<u8>|
            {
                &&& #[trigger] spec_box_keypair_wf(sk)
                &&& sk.len() == BOX_SECRET_KEY_LEN
                &&& spec_plans_match(
                    KeyRole::EncPublic,
                    KeyRole::EncSecret,
                    public_file,
                    secret_file,
                    spec_box_public_of(sk),
                    sk,
                )
                &&& key@ == if is_secret {
                    sk
                } else {
                    spec_box_public_of(sk)
                }
            })),
{
    match source {
        KeySource::ExplicitHex(h) => {
            match parse_hex_key(h.as_slice(), 32) {
                Ok(k) => Ok(KeyResolution::Loaded(k)),
                Err(e) => Err(e),
            }
        },
        KeySource::FileContents(c) => {
            match load_key_bytes(c.as_slice(), 32) {
                Ok(k) => Ok(KeyResolution::Loaded(k)),
                Err(e) => Err(e),
            }
        },
        KeySource::Absent => {
            let pair = fresh_encryption_pair();
            let public_file = KeyFilePlan {
                file_name: KeyRole::EncPublic.file_name(),
                contents: hex_encode(&pair.public_key),
            };
            let secret_file = KeyFilePlan {
                file_name: KeyRole::EncSecret.file_name(),
                contents: hex_encode(&pair.secret_key),
            };
            let key = if is_secret {
                copy_bytes(&pair.secret_key)
            } else {
                copy_bytes(&pair.public_key)
            };
            Ok(KeyResolution::Generated { key, public_file, secret_file })
        },
    }
}

/// Everything the `generate` operation persists: both fresh pairs and the
/// four files to write, in the order signing public, signing secret,
/// encryption public, encryption secret.
pub struct GeneratedKeySet {
    pub signing: SigningPair,
    pub encryption: EncryptionPair,
    pub files: Vec<KeyFilePlan>,
}

/// Generate both keypairs and the four key file plans. All four files
/// must be persisted before any of the keys is used.
pub fn generate_keys() -> (r: GeneratedKeySet)
    ensures
        r.signing.wf(),
        r.encryption.wf(),
        r.files@.len() == 4,
        spec_plans_match(
            KeyRole::SignPublic,
            KeyRole::SignSecret,
            r.files@[0],
            r.files@[1],
            r.signing.public_key@,
            r.signing.secret_key@,
        ),
        spec_plans_match(
            KeyRole::EncPublic,
            KeyRole::EncSecret,
            r.files@[2],
            r.files@[3],
            r.encryption.public_key@,
            r.encryption.secret_key@,
        ),
{
    let signing = fresh_signing_pair();
    let encryption = fresh_encryption_pair();
    let mut files: Vec<KeyFilePlan> = Vec::new();
    files.push(
        KeyFilePlan {
            file_name: KeyRole::SignPublic.file_name(),
            contents: hex_encode(&signing.public_key),
        },
    );
    files.push(
        KeyFilePlan {
            file_name: KeyRole::SignSecret.file_name(),
            contents: hex_encode(&signing.secret_key),
        },
    );
    files.push(
        KeyFilePlan {
            file_name: KeyRole::EncPublic.file_name(),
            contents: hex_encode(&encryption.public_key),
        },
    );
    files.push(
        KeyFilePlan {
            file_name: KeyRole::EncSecret.file_name(),
            contents: hex_encode(&encryption.secret_key),
        },
    );
    GeneratedKeySet { signing, encryption, files }
}

/// A key written by a generation step loads back byte-identical: its hex
/// text needs no trimming, is well-formed, and decodes to the same bytes.
/// So resolving the same role a second time, now against the persisted
/// file, returns exactly the key the first call generated.
pub proof fn lemma_key_persistence_idempotent(key: Seq<u8>)
    ensures
        spec_load_key(spec_hex_encode(key), key.len()) == Some(key),
{
    lemma_hex_round_trip(key);
    lemma_trim_hex_identity(spec_hex_encode(key));
}

} // verus!
