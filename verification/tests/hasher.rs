use sha2::Digest;

use membership_core::pword::encrypt_password;
use membership_core::pword::parse_uuid;
use membership_core::pword::salt;
use membership_core::pword::validate_password;

#[test]
fn password_roundtrip_verifies() {
    let s = salt();
    let hash = encrypt_password("hunter2", &s);
    assert!(validate_password("hunter2", &s, &hash));
}

#[test]
fn different_password_fails_verification() {
    let s = salt();
    let hash = encrypt_password("hunter2", &s);
    assert!(!validate_password("hunter3", &s, &hash));
    assert!(!validate_password("", &s, &hash));
}

#[test]
fn different_salt_fails_verification() {
    let s1 = salt();
    let s2 = salt();
    assert_ne!(s1, s2);
    let hash = encrypt_password("hunter2", &s1);
    assert!(!validate_password("hunter2", &s2, &hash));
}

#[test]
fn derive_matches_two_stage_digest() {
    let password = "correct horse";
    let s = "123e4567-e89b-12d3-a456-426614174000";
    let stage1 = format!("{}{}", password, s);
    let d1 = md5::compute(stage1.as_bytes());
    let stage2 = format!("{:?}{}{}", d1, password, s);
    let d2 = sha2::Sha512::new().chain_update(stage2.as_bytes()).finalize();
    let expected = format!("{:x}", d2);
    assert_eq!(encrypt_password(password, s), expected);
    assert_eq!(expected.len(), 128);
    assert!(expected.chars().all(|c| c.is_ascii_digit() || ('a'..='f').contains(&c)));
}

#[test]
fn salt_is_canonical_uuid_shape() {
    let s = salt();
    let chars: Vec<char> = s.chars().collect();
    assert_eq!(chars.len(), 36);
    for (i, c) in chars.iter().enumerate() {
        if i == 8 || i == 13 || i == 18 || i == 23 {
            assert_eq!(*c, '-');
        } else {
            assert!(c.is_ascii_hexdigit());
        }
    }
    assert_eq!(chars[14], '4');
    assert!(matches!(chars[19], '8' | '9' | 'a' | 'b'));
}

#[test]
fn parse_uuid_decodes_hex_pairs() {
    let bytes = parse_uuid("00112233-4455-6677-8899-aabbccddeeff");
    assert_eq!(
        bytes,
        vec![
            0x00, 0x11, 0x22, 0x33, 0x44, 0x55, 0x66, 0x77, 0x88, 0x99, 0xaa, 0xbb, 0xcc, 0xdd,
            0xee, 0xff
        ]
    );
    let bytes = parse_uuid("FFEEDDCC-BBAA-9988-7766-554433221100");
    assert_eq!(bytes[0], 0xff);
    assert_eq!(bytes[15], 0x00);
}
