use membership_core::auth::verify_jwt;
use membership_core::claims::Claims;
use membership_core::jwt::create_jwt;
use membership_core::jwt::parse_token;
use membership_core::jwt::sign_claims;

const KEY: &str = "test-signing-key";

fn assert_auth_failure(e: membership_core::error::Error) {
    assert_eq!(e.code, 1001);
    assert_eq!(e.status, 401);
    assert_eq!(e.message, "Authentication failure");
}

#[test]
fn issued_token_verifies_before_expiry() {
    let t = create_jwt(String::from("user-1"), 60, KEY, 1000);
    let claims = parse_token(&t.token, KEY, 1000).unwrap();
    assert_eq!(claims.iat, 1000);
    assert_eq!(claims.exp, 1060);
    assert_eq!(claims.id, "user-1");
    assert_eq!(claims.jid.len(), 36);
    assert_eq!(claims._id.len(), 32);
    assert!(claims._id.chars().all(|c| c.is_ascii_alphanumeric()));
    assert!(parse_token(&t.token, KEY, 1059).is_ok());
}

#[test]
fn issued_token_fails_at_and_after_expiry() {
    let t = create_jwt(String::from("user-1"), 60, KEY, 1000);
    assert_auth_failure(parse_token(&t.token, KEY, 1060).unwrap_err());
    assert_auth_failure(parse_token(&t.token, KEY, 1061).unwrap_err());
    assert_auth_failure(parse_token(&t.token, KEY, u64::MAX).unwrap_err());
}

#[test]
fn zero_ttl_token_never_verifies() {
    let t = create_jwt(String::from("user-1"), 0, KEY, 1000);
    assert!(parse_token(&t.token, KEY, 999).is_ok());
    assert_auth_failure(parse_token(&t.token, KEY, 1000).unwrap_err());
}

#[test]
fn wrong_key_fails() {
    let t = create_jwt(String::from("user-1"), 60, KEY, 1000);
    assert_auth_failure(parse_token(&t.token, "other-key", 1000).unwrap_err());
}

#[test]
fn malformed_tokens_fail() {
    for v in ["", "abc", "a.b", "a.b.c.d", "..", "a..c", "!!.!!.!!"] {
        assert_auth_failure(parse_token(v, KEY, 0).unwrap_err());
    }
}

#[test]
fn claims_with_awkward_subject_round_trip() {
    let claims = Claims {
        iat: 5,
        exp: 50,
        jid: String::from("123e4567-e89b-12d3-a456-426614174000"),
        id: String::from("we\"ird\\id\twith\u{0001}controls"),
        _id: String::from("ABCDEFGHIJKLMNOPQRSTUVWXYZabcdef"),
    };
    let t = sign_claims(&claims, KEY);
    let back = parse_token(&t.token, KEY, 10).unwrap();
    assert_eq!(back.iat, claims.iat);
    assert_eq!(back.exp, claims.exp);
    assert_eq!(back.jid, claims.jid);
    assert_eq!(back.id, claims.id);
    assert_eq!(back._id, claims._id);
}

#[test]
fn signature_matches_hmac_of_signing_input() {
    let t = create_jwt(String::from("user-1"), 60, KEY, 1000);
    let parts: Vec<&str> = t.token.split('.').collect();
    assert_eq!(parts.len(), 3);
    let signing_input = format!("{}.{}", parts[0], parts[1]);
    let expected = jsonwebtoken::crypto::sign(
        signing_input.as_bytes(),
        &jsonwebtoken::EncodingKey::from_secret(KEY.as_bytes()),
        jsonwebtoken::Algorithm::HS512,
    )
    .unwrap();
    assert_eq!(parts[2], expected);
}

#[test]
fn any_single_bit_mutation_is_rejected() {
    let t = create_jwt(String::from("user-1"), 60, KEY, 1000);
    let bytes = t.token.as_bytes();
    for pos in 0..bytes.len() {
        for bit in 0..7 {
            let mut mutated = bytes.to_vec();
            mutated[pos] ^= 1u8 << bit;
            if mutated[pos] == bytes[pos] || mutated[pos] >= 0x80 {
                continue;
            }
            let mutated = String::from_utf8(mutated).unwrap();
            if mutated == t.token {
                continue;
            }
            let r = parse_token(&mutated, KEY, 1000);
            assert!(r.is_err(), "accepted mutation at {} bit {}", pos, bit);
            assert_auth_failure(r.unwrap_err());
        }
    }
}

fn b64url(data: &[u8]) -> String {
    base64::Engine::encode(&base64::engine::general_purpose::URL_SAFE_NO_PAD, data)
}

fn forge(header_json: &str, payload_json: &str) -> String {
    let signing_input = format!("{}.{}", b64url(header_json.as_bytes()), b64url(payload_json.as_bytes()));
    let sig = jsonwebtoken::crypto::sign(
        signing_input.as_bytes(),
        &jsonwebtoken::EncodingKey::from_secret(KEY.as_bytes()),
        jsonwebtoken::Algorithm::HS512,
    )
    .unwrap();
    format!("{}.{}", signing_input, sig)
}

#[test]
fn well_signed_but_malformed_payload_is_rejected() {
    let header = "{\"alg\":\"HS512\",\"typ\":\"JWT\"}";
    // Correctly signed, but not this service's claims layout.
    for payload in [
        "not json at all",
        "{}",
        "{\"exp\":1,\"iat\":1,\"jid\":\"a\",\"id\":\"b\",\"_id\":\"c\"}",
        "{\"iat\":1,\"exp\":1,\"jid\":\"a\",\"id\":\"b\",\"_id\":\"c\",\"x\":1}",
        "{\"iat\":99999999999999999999,\"exp\":1,\"jid\":\"a\",\"id\":\"b\",\"_id\":\"c\"}",
        "{\"iat\":-1,\"exp\":1,\"jid\":\"a\",\"id\":\"b\",\"_id\":\"c\"}",
    ] {
        let token = forge(header, payload);
        assert_auth_failure(parse_token(&token, KEY, 0).unwrap_err());
    }
    // The canonical layout, correctly signed, passes.
    let good = forge(header, "{\"iat\":1,\"exp\":9,\"jid\":\"a\",\"id\":\"b\",\"_id\":\"c\"}");
    let claims = parse_token(&good, KEY, 5).unwrap();
    assert_eq!(claims.iat, 1);
    assert_eq!(claims.exp, 9);
    assert_eq!(claims.jid, "a");
}

#[test]
fn wrong_header_is_rejected_even_when_signed() {
    let payload = "{\"iat\":1,\"exp\":9,\"jid\":\"a\",\"id\":\"b\",\"_id\":\"c\"}";
    for header in [
        "{\"typ\":\"JWT\",\"alg\":\"HS512\"}",
        "{\"alg\":\"HS256\",\"typ\":\"JWT\"}",
        "{\"alg\":\"none\"}",
    ] {
        let token = forge(header, payload);
        assert_auth_failure(parse_token(&token, KEY, 0).unwrap_err());
    }
}

#[test]
fn gate_accepts_bearer_token() {
    let t = create_jwt(String::from("user-1"), 60, KEY, 1000);
    let header = format!("Bearer {}", t.token);
    let claims = verify_jwt(Some(&header), KEY, 1000).unwrap();
    assert_eq!(claims.id, "user-1");
}

#[test]
fn gate_rejects_missing_header() {
    assert_auth_failure(verify_jwt(None, KEY, 0).unwrap_err());
}

#[test]
fn gate_rejects_short_header() {
    assert_auth_failure(verify_jwt(Some("short"), KEY, 0).unwrap_err());
    assert_auth_failure(verify_jwt(Some(""), KEY, 0).unwrap_err());
    assert_auth_failure(verify_jwt(Some("Bearer"), KEY, 0).unwrap_err());
}

#[test]
fn gate_rejects_wrong_scheme() {
    assert_auth_failure(verify_jwt(Some("Basic abcdefgh"), KEY, 0).unwrap_err());
    assert_auth_failure(verify_jwt(Some("bearer abcdefgh"), KEY, 0).unwrap_err());
}

#[test]
fn gate_rejects_expired_token() {
    let t = create_jwt(String::from("user-1"), 60, KEY, 1000);
    let header = format!("Bearer {}", t.token);
    assert_auth_failure(verify_jwt(Some(&header), KEY, 1060).unwrap_err());
}
