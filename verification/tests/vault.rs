use hope::crypto::{decrypt, derive_key, encrypt, CryptoError};
use hope::hex::{format_uuid, from_hex, hex_decodable_exec, to_hex, HexError};
use hope::vault::{open_entry, uuid, uuid_from, Vault, VaultEntry, VaultError};

#[test]
fn test_encrypt_decrypt_roundtrip() {
    let key = derive_key(b"test-password", b"test-salt-32-bytes-long!!!!!!!");
    let plaintext = b"my-secret-password-123";
    let (encrypted, nonce) = encrypt(plaintext, &key).unwrap();
    let decrypted = decrypt(&encrypted, &nonce, &key).unwrap();
    assert_eq!(plaintext.as_slice(), decrypted.as_slice());
}

#[test]
fn test_encrypt_wrong_key_fails() {
    let key1 = derive_key(b"password1", b"salt");
    let key2 = derive_key(b"password2", b"salt");
    let plaintext = b"secret";
    let (encrypted, nonce) = encrypt(plaintext, &key1).unwrap();
    assert!(decrypt(&encrypted, &nonce, &key2).is_err());
}

#[test]
fn test_hex_roundtrip() {
    let data = vec![0u8, 1, 2, 127, 128, 255];
    let hex = to_hex(&data);
    let decoded = from_hex(&hex).unwrap();
    assert_eq!(data, decoded);
}

#[test]
fn test_uuid_format() {
    let id = uuid().unwrap();
    assert_eq!(id.len(), 36);
    assert_eq!(id.chars().filter(|c| *c == '-').count(), 4);
}

#[test]
fn hex_text_values() {
    assert_eq!(to_hex(&[0x00, 0x0f, 0xa5, 0xff]), "000fa5ff");
    assert_eq!(from_hex("0FA5").unwrap(), vec![0x0f, 0xa5]);
    assert_eq!(from_hex("+f"), Err(HexError::InvalidDigit));
    assert_eq!(from_hex("+1"), Err(HexError::InvalidDigit));
    assert_eq!(from_hex("abc"), Err(HexError::OddLength));
    assert_eq!(from_hex("zz"), Err(HexError::InvalidDigit));
    assert_eq!(from_hex("-1"), Err(HexError::InvalidDigit));
    assert_eq!(from_hex("").unwrap(), Vec::<u8>::new());
    assert!(hex_decodable_exec("é1"));
    assert!(!hex_decodable_exec("1é1"));
    assert!(hex_decodable_exec("zzé"));
}

#[test]
fn uuid_sets_version_and_variant() {
    let id = format_uuid(&[0xffu8; 16]);
    assert_eq!(id, "ffffffff-ffff-4fff-bfff-ffffffffffff");
    let id = format_uuid(&[0u8; 16]);
    assert_eq!(id, "00000000-0000-4000-8000-000000000000");
}

#[test]
fn clock_fallback() {
    let b = hope::hex::clock_fallback_bytes(0x0102_0304_0506, 0x0a0b_0c0d);
    assert_eq!(b, vec![0x03, 0x04, 0x05, 0x06, 0x0d, 0x0c, 0x0b, 0x0a, 0, 0, 0, 0, 0, 0, 0, 0]);
}

#[test]
fn decrypt_rejects_short_nonce() {
    let key = [7u8; 32];
    assert_eq!(decrypt(b"xxxxxxxxxxxxxxxxxxxx", &[0u8; 11], &key), Err(CryptoError::InvalidNonceLength));
    assert_eq!(decrypt(b"xxxxxxxxxxxxxxxxxxxx", &[0u8; 12], &key), Err(CryptoError::DecryptionFailed));
}

fn entry(id: &str, label: &str) -> VaultEntry {
    VaultEntry {
        id: id.into(),
        label: label.into(),
        username: String::new(),
        encrypted_password: String::new(),
        nonce: String::new(),
        url: None,
        notes: None,
        created_at: "0".into(),
        updated_at: "0".into(),
    }
}

#[test]
fn vault_add_find_remove() {
    let mut v = Vault::default();
    assert_eq!(v.version, 1);
    assert!(v.find("mail").is_none());
    v.add(entry("1", "mail"));
    v.add(entry("2", "bank"));
    v.add(entry("3", "mail"));
    assert_eq!(v.find("mail").unwrap().id, "1");
    assert_eq!(v.find("bank").unwrap().id, "2");
    assert!(v.remove("1"));
    assert!(!v.remove("1"));
    assert_eq!(v.find("mail").unwrap().id, "3");
    assert_eq!(v.entries.len(), 2);
    assert_eq!(v.remove_label("nothing"), Err(VaultError::NotFound("nothing".into())));
    assert_eq!(v.remove_label("bank"), Ok(()));
    assert_eq!(v.entries.len(), 1);
}

#[test]
fn vault_listing() {
    let mut v = Vault::default();
    assert_eq!(v.listing(), vec!["Vault is empty."]);
    let mut e = entry("1", "mail");
    e.username = "me".into();
    e.url = Some("https://mail".into());
    v.add(e);
    v.add(entry("2", "bank"));
    assert_eq!(v.listing(), vec!["Vault entries:", "  mail — me (https://mail)", "  bank —  (no url)"]);
}

#[test]
fn vault_secret_roundtrip() {
    let mut v = Vault::default();
    let salt = v.ensure_salt().unwrap();
    assert_eq!(salt.len(), 32);
    assert_eq!(v.salt, to_hex(&salt));
    assert_eq!(v.ensure_salt().unwrap(), salt);
    v.add_secret(&salt, "mail", "hunter2 é", "master").unwrap();
    let e = v.find("mail").unwrap();
    assert_eq!(e.username, "");
    assert_eq!(e.id.len(), 36);
    let salt_again = v.salt_bytes().unwrap();
    assert_eq!(open_entry(e, &salt_again, "master").unwrap(), "hunter2 é");
    assert!(open_entry(e, &salt_again, "wrong").is_err());
}

#[test]
fn vault_error_messages() {
    assert_eq!(VaultError::NotFound("mail".into()).message(), "Entry 'mail' not found");
    assert_eq!(VaultError::Crypto(CryptoError::DecryptionFailed).message(), "Decryption failed — wrong master password?");
    assert_eq!(VaultError::Hex(HexError::OddLength).message(), "Invalid hex string length");
    assert_eq!(VaultError::NotUtf8.message(), "Decrypted password is not valid UTF-8");
}

#[test]
fn uuid_sources() {
    let mut b: Vec<u8> = (0u8..20).collect();
    assert_eq!(uuid_from(Ok(b.clone()), Some((1, 2))).unwrap(), "00010203-0405-4607-8809-0a0b0c0d0e0f");
    b.truncate(16);
    assert_eq!(uuid_from(Ok(b), None).unwrap(), "00010203-0405-4607-8809-0a0b0c0d0e0f");
    assert_eq!(
        uuid_from(Err(CryptoError::RandomFailed), Some((0x0102_0304_0506, 0x0a0b_0c0d))).unwrap(),
        "03040506-0d0c-4b0a-8000-000000000000"
    );
    assert_eq!(uuid_from(Err(CryptoError::RandomFailed), None), Err(VaultError::ClockBeforeEpoch));
}

#[test]
fn hex_decoding_is_even_hex_text() {
    let v = from_hex("0AfF9c").unwrap();
    assert_eq!(v, vec![0x0a, 0xff, 0x9c]);
    assert_eq!(to_hex(&v), "0AfF9c".to_lowercase());
    assert_eq!(from_hex("0g"), Err(HexError::InvalidDigit));
    assert_eq!(from_hex(" 1"), Err(HexError::InvalidDigit));
    assert_eq!(from_hex("abc"), Err(HexError::OddLength));
}
