use formvault::crypto::{decrypt, encrypt, encrypt_with, format_key, generate_keypair, parse_key};
use formvault::codec::{decode_entries, encode_entries, format_u64, hex_decode, hex_encode};
use formvault::data::FormData;
use formvault::FormVaultError;

fn sample_data() -> FormData {
    let mut data = FormData::new();
    data.insert("email".to_string(), "dana@example.org".to_string());
    data.insert("name".to_string(), "Dana".to_string());
    data.insert("note".to_string(), "héllo \"quoted\" \\ text".to_string());
    data
}

fn entries_of(data: &FormData) -> Vec<(String, String)> {
    data.entries().clone()
}

#[test]
fn encrypt_then_decrypt_reproduces_data() {
    let (public_key, private_key) = generate_keypair();
    let data = sample_data();
    let (encrypted_data, encrypted_key) =
        encrypt(&data, &public_key).expect("encryption should succeed");
    let recovered = match decrypt(&encrypted_data, &encrypted_key, &private_key) {
        Ok(d) => d,
        Err(_) => panic!("decryption should succeed"),
    };
    assert_eq!(entries_of(&recovered), entries_of(&data));
}

#[test]
fn encrypt_with_fixed_keys_roundtrips() {
    let public_key = format_key(0x1122334455667788);
    let private_key = format_key(0x1122334455667788u64.wrapping_neg());
    let data = sample_data();
    let (ed, ek) = encrypt_with(&data, &public_key, 42, 7).expect("encryption should succeed");
    let recovered = match decrypt(&ed, &ek, &private_key) {
        Ok(d) => d,
        Err(_) => panic!("decryption should succeed"),
    };
    assert_eq!(entries_of(&recovered), entries_of(&data));
}

#[test]
fn decrypt_with_wrong_key_fails() {
    let (public_key, _) = generate_keypair();
    let wrong_private = format_key(1);
    let data = sample_data();
    let (ed, ek) = encrypt_with(&data, &public_key, 42, 7).expect("encryption should succeed");
    assert!(decrypt(&ed, &ek, &wrong_private).is_err());
}

#[test]
fn encrypt_rejects_malformed_public_key() {
    let data = sample_data();
    for bad in ["", "zz", "0123", "not a key at all", "0123456789abcdeg"] {
        match encrypt(&data, bad) {
            Err(FormVaultError::EncryptionError(_)) => {},
            _ => panic!("malformed key must be refused"),
        }
    }
}

#[test]
fn decrypt_rejects_malformed_inputs() {
    let (public_key, private_key) = generate_keypair();
    let data = sample_data();
    let (ed, ek) = encrypt(&data, &public_key).expect("encryption should succeed");
    // Bad private key.
    assert!(matches!(
        decrypt(&ed, &ek, "short"),
        Err(FormVaultError::DecryptionError(_))
    ));
    // Data that is not hexadecimal.
    assert!(matches!(
        decrypt("zz", &ek, &private_key),
        Err(FormVaultError::DecryptionError(_))
    ));
    // A tampered envelope fails authentication.
    let mut tampered: Vec<char> = ed.chars().collect();
    let last = tampered.len() - 1;
    tampered[last] = if tampered[last] == '0' { '1' } else { '0' };
    let tampered: String = tampered.into_iter().collect();
    assert!(matches!(
        decrypt(&tampered, &ek, &private_key),
        Err(FormVaultError::DecryptionError(_))
    ));
}

#[test]
fn key_text_roundtrips() {
    for k in [0u64, 1, 0xdeadbeef, u64::MAX] {
        let text = format_key(k);
        assert_eq!(text.len(), 16);
        assert_eq!(parse_key(&text), Some(k));
    }
    assert_eq!(parse_key("0123456789abcde"), None);
    assert_eq!(parse_key("0123456789ABCDEF"), Some(parse_key("0123456789abcdef").unwrap()));
}

#[test]
fn hex_roundtrips_and_rejects() {
    let bytes = vec![0u8, 1, 0x7f, 0x80, 0xff];
    let hex = hex_encode(&bytes);
    assert_eq!(hex, b"00017f80ff".to_vec());
    assert_eq!(hex_decode(&hex), Some(bytes));
    assert_eq!(hex_decode(b"abc"), None);
    assert_eq!(hex_decode(b"zz"), None);
    assert_eq!(hex_decode(b"AB"), Some(vec![0xab]));
}

#[test]
fn entry_serialization_roundtrips() {
    let entries = vec![
        ("".to_string(), "".to_string()),
        ("key".to_string(), "value".to_string()),
        ("unicode ✓".to_string(), "çöntent".to_string()),
    ];
    let bytes = encode_entries(&entries);
    assert_eq!(decode_entries(&bytes), Some(entries));
    // A truncated serialization is refused.
    assert_eq!(decode_entries(&bytes[..bytes.len() - 1]), None);
    assert_eq!(decode_entries(&[1, 2, 3]), None);
    // The empty serialization is the empty list.
    assert_eq!(decode_entries(&[]), Some(vec![]));
}

#[test]
fn decimal_formatting() {
    assert_eq!(format_u64(0), "0");
    assert_eq!(format_u64(7), "7");
    assert_eq!(format_u64(1234567890), "1234567890");
    assert_eq!(format_u64(u64::MAX), "18446744073709551615");
}
