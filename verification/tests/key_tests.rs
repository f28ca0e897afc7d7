use sodix::errors::CryptoError;
use sodix::hexcodec::hex_decode;
use sodix::keys::{
    generate_keys, load_key_bytes, load_or_generate_encryption_key, load_or_generate_signing_key,
    parse_hex_key, KeyResolution, KeyRole, KeySource,
};

#[test]
fn expected_lengths_per_role() {
    assert_eq!(KeyRole::SignPublic.expected_len(), 32);
    assert_eq!(KeyRole::SignSecret.expected_len(), 64);
    assert_eq!(KeyRole::EncPublic.expected_len(), 32);
    assert_eq!(KeyRole::EncSecret.expected_len(), 32);
}

#[test]
fn file_names_per_role() {
    assert_eq!(KeyRole::SignPublic.file_name(), "sign_public.key");
    assert_eq!(KeyRole::SignSecret.file_name(), "sign_secret.key");
    assert_eq!(KeyRole::EncPublic.file_name(), "enc_public.key");
    assert_eq!(KeyRole::EncSecret.file_name(), "enc_secret.key");
}

#[test]
fn parse_hex_key_accepts_any_64_byte_value() {
    // Structurally, any 64-byte value passes length validation; 0x11
    // repeated 64 times is such a value.
    let text: Vec<u8> = b"11".repeat(64);
    let key = parse_hex_key(&text, 64).unwrap();
    assert_eq!(key, vec![0x11u8; 64]);
}

#[test]
fn parse_hex_key_rejects_bad_hex() {
    assert_eq!(parse_hex_key(b"zz", 1), Err(CryptoError::InvalidHexEncoding));
}

#[test]
fn parse_hex_key_rejects_wrong_length() {
    // 31 bytes of hex where a 32-byte public key is expected.
    let text: Vec<u8> = b"ab".repeat(31);
    assert_eq!(parse_hex_key(&text, 32), Err(CryptoError::InvalidKeyLength));
}

#[test]
fn load_key_bytes_trims_trailing_newline() {
    let mut contents: Vec<u8> = b"ab".repeat(32);
    contents.push(b'\n');
    let key = load_key_bytes(&contents, 32).unwrap();
    assert_eq!(key, vec![0xabu8; 32]);
}

#[test]
fn load_key_bytes_rejects_bad_hex_as_corrupt() {
    assert_eq!(load_key_bytes(b"zz\n", 1), Err(CryptoError::KeyFileCorrupt));
}

#[test]
fn load_key_bytes_rejects_wrong_length_as_corrupt() {
    let contents: Vec<u8> = b"ab".repeat(31);
    assert_eq!(load_key_bytes(&contents, 32), Err(CryptoError::KeyFileCorrupt));
}

#[test]
fn signing_key_resolution_idempotent() {
    // First resolution against an absent file generates the pair; feeding
    // the persisted file contents back in loads byte-identical keys.
    let generated = load_or_generate_signing_key(true, KeySource::Absent).unwrap();
    match generated {
        KeyResolution::Generated { key, public_file, secret_file } => {
            assert_eq!(public_file.file_name, "sign_public.key");
            assert_eq!(secret_file.file_name, "sign_secret.key");
            let reloaded =
                load_or_generate_signing_key(true, KeySource::FileContents(secret_file.contents))
                    .unwrap();
            match reloaded {
                KeyResolution::Loaded(k) => assert_eq!(k, key),
                _ => panic!("second resolution must load, not generate"),
            }
            let public = load_or_generate_signing_key(
                false,
                KeySource::FileContents(public_file.contents),
            )
            .unwrap();
            match public {
                KeyResolution::Loaded(k) => assert_eq!(k.len(), 32),
                _ => panic!("second resolution must load, not generate"),
            }
        }
        _ => panic!("resolution against an absent file must generate"),
    }
}

#[test]
fn encryption_key_resolution_idempotent() {
    let generated = load_or_generate_encryption_key(false, KeySource::Absent).unwrap();
    match generated {
        KeyResolution::Generated { key, public_file, secret_file } => {
            assert_eq!(public_file.file_name, "enc_public.key");
            assert_eq!(secret_file.file_name, "enc_secret.key");
            let reloaded = load_or_generate_encryption_key(
                false,
                KeySource::FileContents(public_file.contents),
            )
            .unwrap();
            match reloaded {
                KeyResolution::Loaded(k) => assert_eq!(k, key),
                _ => panic!("second resolution must load, not generate"),
            }
            assert_eq!(load_key_bytes(&secret_file.contents, 32).unwrap().len(), 32);
        }
        _ => panic!("resolution against an absent file must generate"),
    }
}

#[test]
fn explicit_hex_resolves_without_generating() {
    let text: Vec<u8> = b"42".repeat(32);
    let r = load_or_generate_encryption_key(true, KeySource::ExplicitHex(text)).unwrap();
    match r {
        KeyResolution::Loaded(k) => assert_eq!(k, vec![0x42u8; 32]),
        _ => panic!("explicit key material must not trigger generation"),
    }
}

#[test]
fn generate_keys_produces_four_consistent_files() {
    let set = generate_keys();
    assert_eq!(set.files.len(), 4);
    assert_eq!(set.files[0].file_name, "sign_public.key");
    assert_eq!(set.files[1].file_name, "sign_secret.key");
    assert_eq!(set.files[2].file_name, "enc_public.key");
    assert_eq!(set.files[3].file_name, "enc_secret.key");
    assert_eq!(hex_decode(&set.files[0].contents).unwrap(), set.signing.public_key);
    assert_eq!(hex_decode(&set.files[1].contents).unwrap(), set.signing.secret_key);
    assert_eq!(hex_decode(&set.files[2].contents).unwrap(), set.encryption.public_key);
    assert_eq!(hex_decode(&set.files[3].contents).unwrap(), set.encryption.secret_key);
    assert_eq!(set.signing.public_key.len(), 32);
    assert_eq!(set.signing.secret_key.len(), 64);
    assert_eq!(set.encryption.public_key.len(), 32);
    assert_eq!(set.encryption.secret_key.len(), 32);
    // The signing secret key carries the public key in its last 32 bytes.
    assert_eq!(&set.signing.secret_key[32..], set.signing.public_key.as_slice());
}
