use sha2::{Digest, Sha256};
use tss_manager::digest::{digest, to_hex, HASH_BYTES, ROOM_ID_CHARS};

#[test]
fn digest_of_hello_is_its_sha256_in_hex() {
    let id = digest(b"hello");
    assert_eq!(id, "2cf24dba5fb0a30e26e83b2ac5b9e29e1b161e5c1fa7425e73043362938b9824");
}

#[test]
fn digest_of_the_empty_message() {
    let id = digest(b"");
    assert_eq!(id, "e3b0c44298fc1c149afbf4c8996fb92427ae41e4649b934ca495991b7852b855");
}

#[test]
fn digest_is_not_the_message_itself() {
    let message = b"2cf24dba5fb0a30e26e83b2ac5b9e29e1b161e5c1fa7425e73043362938b9824";
    let id = digest(message);
    assert_ne!(id.as_bytes(), &message[..]);
    assert_eq!(id.len(), ROOM_ID_CHARS);
}

#[test]
fn digest_agrees_with_the_hash_of_the_message() {
    let message = b"threshold signatures";
    let hash = Sha256::digest(message);
    assert_eq!(hash.len(), HASH_BYTES);
    assert_eq!(digest(message), to_hex(&hash));
}

#[test]
fn equal_messages_have_equal_digests() {
    let first = vec![1u8, 2, 3, 4, 5];
    let second = vec![1u8, 2, 3, 4, 5];
    assert_eq!(digest(&first), digest(&second));
    assert_eq!(digest(&first), digest(&first));
}

#[test]
fn different_messages_have_different_digests() {
    assert_ne!(digest(b"hello"), digest(b"hello "));
    assert_ne!(digest(b"hello"), digest(b"Hello"));
    assert_ne!(digest(b""), digest(&[0u8]));
}

#[test]
fn digest_has_sixty_four_lower_case_hex_digits() {
    for message in [&b""[..], &b"a"[..], &b"hello"[..], &[0xffu8; 200][..]] {
        let id = digest(message);
        assert_eq!(id.len(), 64);
        assert!(id.chars().all(|c| matches!(c, '0'..='9' | 'a'..='f')));
    }
}

#[test]
fn hex_writes_the_high_nibble_first() {
    assert_eq!(to_hex(&[0x00, 0x0f, 0xa5, 0xff]), "000fa5ff");
    assert_eq!(to_hex(&[0x10]), "10");
    assert_eq!(to_hex(&[0x01]), "01");
}

#[test]
fn hex_of_nothing_is_empty() {
    assert_eq!(to_hex(&[]), "");
}

#[test]
fn hex_covers_every_byte_value() {
    let all: Vec<u8> = (0..=255u8).collect();
    let text = to_hex(&all);
    assert_eq!(text.len(), 512);
    for (i, byte) in all.iter().enumerate() {
        assert_eq!(&text[2 * i..2 * i + 2], format!("{:02x}", byte));
    }
}

#[test]
fn hex_forms_differ_when_the_bytes_differ() {
    assert_ne!(to_hex(&[0x12, 0x34]), to_hex(&[0x12, 0x35]));
    assert_ne!(to_hex(&[0x01, 0x00]), to_hex(&[0x00, 0x10]));
    assert_ne!(to_hex(&[0x00]), to_hex(&[0x00, 0x00]));
}
