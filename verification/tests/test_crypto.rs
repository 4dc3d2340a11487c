use authust::config::SecurityConfig;
use authust::crypto::{decode_jwt, generate_hash, generate_jwt, sign_in};
use authust::entities::{Claims, InputRawUser};
use authust::errors::SignError;
use authust::store::AccessModel;
use authust::usecases::create_new_user;
use hmac::{KeyInit, Mac};

fn test_config() -> SecurityConfig {
    SecurityConfig {
        secret_key: String::from("unit-test-signing-secret"),
        expired_jwt_days: 1,
    }
}

#[test]
fn test_generate_hash() {
    let hash = generate_hash("test_password").unwrap();
    // Deterministic under the fixed salt: hashing again gives the same text.
    let again = generate_hash("test_password").unwrap();
    assert_eq!(hash, again);
    // The encoded hash really is an argon2 hash of this password.
    let matches = argon2::verify_encoded(&hash, "test_password".as_bytes()).unwrap();
    assert!(matches);
    let mismatch = argon2::verify_encoded(&hash, "other_password".as_bytes()).unwrap();
    assert!(!mismatch);
}

#[test]
fn test_generate_hash_differs_per_password() {
    let h1 = generate_hash("alpha").unwrap();
    let h2 = generate_hash("beta").unwrap();
    assert_ne!(h1, h2);
}

#[test]
fn test_claims_expiry_text() {
    // One day after the epoch, rendered by chrono as RFC 3339.
    let claims = Claims::new(7, 0, 1, vec![]);
    assert_eq!(claims.expired_at, "1970-01-02T00:00:00+00:00");
    assert_eq!(claims.user_id, 7);
}

#[test]
fn test_token_round_trip() {
    let config = test_config();
    let now: i64 = 1_700_000_000;
    let groups = vec![String::from("ADMIN"), String::from("READ")];
    let token = generate_jwt(&config, 42, groups.clone(), now).unwrap();
    let claims = decode_jwt(&config, &token, now).unwrap();
    assert_eq!(claims.user_id, 42);
    assert_eq!(claims.permissions, groups);
    // The embedded expiry is one day after issuance.
    assert_eq!(claims.expired_at, "2023-11-15T22:13:20+00:00");
}

#[test]
fn test_token_round_trip_empty_permissions() {
    let config = test_config();
    let token = generate_jwt(&config, -3, vec![], 1000).unwrap();
    let claims = decode_jwt(&config, &token, 1000).unwrap();
    assert_eq!(claims.user_id, -3);
    assert!(claims.permissions.is_empty());
}

#[test]
fn test_decode_wrong_key_denied() {
    let config = test_config();
    let other = SecurityConfig {
        secret_key: String::from("a-different-secret"),
        expired_jwt_days: 1,
    };
    let now: i64 = 1_700_000_000;
    let token = generate_jwt(&config, 1, vec![String::from("P")], now).unwrap();
    let r = decode_jwt(&other, &token, now);
    assert!(matches!(r, Err(SignError::VerificationError)));
}

#[test]
fn test_decode_expired_denied() {
    let config = test_config();
    let now: i64 = 1_700_000_000;
    let token = generate_jwt(&config, 1, vec![], now).unwrap();
    // One day plus one second later the token has expired.
    let later = now + 86_400 + 1;
    let r = decode_jwt(&config, &token, later);
    assert!(matches!(r, Err(SignError::VerificationError)));
    // At the last second before expiry it still verifies.
    let almost = now + 86_400 - 1;
    assert!(decode_jwt(&config, &token, almost).is_ok());
}

#[test]
fn test_decode_tampered_denied() {
    let config = test_config();
    let now: i64 = 1_700_000_000;
    let token = generate_jwt(&config, 1, vec![String::from("P")], now).unwrap();
    let mut bytes: Vec<u8> = token.into_bytes();
    // Flip one hex digit of the claims part.
    let dot = bytes.iter().position(|&b| b == b'.').unwrap();
    bytes[dot + 1] = if bytes[dot + 1] == b'0' { b'1' } else { b'0' };
    let tampered = String::from_utf8(bytes).unwrap();
    let r = decode_jwt(&config, &tampered, now);
    assert!(matches!(r, Err(SignError::VerificationError)));
}

#[test]
fn test_decode_garbage_denied() {
    let config = test_config();
    assert!(matches!(
        decode_jwt(&config, "", 0),
        Err(SignError::VerificationError)
    ));
    assert!(matches!(
        decode_jwt(&config, "abc", 0),
        Err(SignError::VerificationError)
    ));
    assert!(matches!(
        decode_jwt(&config, "a.b.c", 0),
        Err(SignError::VerificationError)
    ));
    assert!(matches!(
        decode_jwt(&config, "not ascii: \u{00e9}", 0),
        Err(SignError::VerificationError)
    ));
}

#[test]
fn test_token_signature_matches_independent_hmac() {
    let config = test_config();
    let now: i64 = 1_700_000_000;
    let token = generate_jwt(&config, 5, vec![String::from("X")], now).unwrap();
    let parts: Vec<&str> = token.split('.').collect();
    assert_eq!(parts.len(), 3);
    let signing_input = format!("{}.{}", parts[0], parts[1]);
    let mut mac = <hmac::Hmac<sha2::Sha256> as KeyInit>::new_from_slice(
        config.secret_key.as_bytes(),
    )
    .unwrap();
    Mac::update(&mut mac, signing_input.as_bytes());
    let tag = Mac::finalize(mac).into_bytes();
    let expected: String = tag.iter().map(|b| format!("{:02x}", b)).collect();
    assert_eq!(parts[2], expected);
}

fn unhex(s: &str) -> Vec<u8> {
    let b = s.as_bytes();
    assert!(b.len() % 2 == 0);
    let mut out = Vec::new();
    let mut i = 0;
    while i < b.len() {
        let hi = (b[i] as char).to_digit(16).unwrap();
        let lo = (b[i + 1] as char).to_digit(16).unwrap();
        out.push((hi * 16 + lo) as u8);
        i += 2;
    }
    out
}

#[test]
fn test_token_claims_are_json() {
    let config = test_config();
    let now: i64 = 1_700_000_000;
    let token = generate_jwt(&config, 9, vec![String::from("A"), String::from("B")], now).unwrap();
    let parts: Vec<&str> = token.split('.').collect();
    let header = unhex(parts[0]);
    let value: serde_json::Value = serde_json::from_slice(&header).unwrap();
    assert_eq!(value.get("alg").unwrap().as_str().unwrap(), "HS256");
    assert_eq!(value.get("typ").unwrap().as_str().unwrap(), "JWT");
    let claims = unhex(parts[1]);
    let value: serde_json::Value = serde_json::from_slice(&claims).unwrap();
    assert_eq!(value.get("user_id").unwrap().as_i64().unwrap(), 9);
    assert_eq!(
        value.get("expired_at").unwrap().as_str().unwrap(),
        "2023-11-15T22:13:20+00:00"
    );
    let perms = value.get("permissions").unwrap().as_array().unwrap();
    assert_eq!(perms.len(), 2);
    assert_eq!(perms[0].as_str().unwrap(), "A");
    assert_eq!(perms[1].as_str().unwrap(), "B");
}

#[test]
fn test_generate_jwt_refuses_unencodable_name() {
    let config = test_config();
    let r = generate_jwt(&config, 1, vec![String::from("has\"quote")], 1000);
    assert!(matches!(r, Err(SignError::FatalError)));
    let r = generate_jwt(&config, 1, vec![String::from("caf\u{00e9}")], 1000);
    assert!(matches!(r, Err(SignError::FatalError)));
}

#[test]
fn test_sign_in_and_decode() {
    let config = test_config();
    let mut model = AccessModel::new();
    let user = create_new_user(
        &mut model,
        InputRawUser {
            username: String::from("alice"),
            password: String::from("wonder"),
        },
        100,
    )
    .unwrap();
    let now: i64 = 1_700_000_000;
    let signed = sign_in(
        &model,
        &config,
        String::from("alice"),
        String::from("wonder"),
        now,
    )
    .unwrap();
    assert_eq!(signed.user_id, user.user_id);
    let claims = decode_jwt(&config, &signed.jwt_token, now).unwrap();
    assert_eq!(claims.user_id, user.user_id);
    // No memberships yet, so no permission tokens in the snapshot.
    assert!(claims.permissions.is_empty());
}

#[test]
fn test_sign_in_forbidden() {
    let config = test_config();
    let mut model = AccessModel::new();
    create_new_user(
        &mut model,
        InputRawUser {
            username: String::from("alice"),
            password: String::from("wonder"),
        },
        100,
    )
    .unwrap();
    // A username nobody carries...
    let missing = sign_in(
        &model,
        &config,
        String::from("bob"),
        String::from("wonder"),
        200,
    );
    // ...and an existing username with the wrong password...
    let wrong = sign_in(
        &model,
        &config,
        String::from("alice"),
        String::from("blunder"),
        200,
    );
    // ...are refused with the same single signal.
    assert!(matches!(missing, Err(SignError::VerificationError)));
    assert!(matches!(wrong, Err(SignError::VerificationError)));
}

#[test]
fn test_sign_in_after_remove_denied() {
    let config = test_config();
    let mut model = AccessModel::new();
    let user = create_new_user(
        &mut model,
        InputRawUser {
            username: String::from("alice"),
            password: String::from("wonder"),
        },
        100,
    )
    .unwrap();
    authust::usecases::remove_user_by_id(&mut model, user.user_id, 150).unwrap();
    let r = sign_in(
        &model,
        &config,
        String::from("alice"),
        String::from("wonder"),
        200,
    );
    assert!(matches!(r, Err(SignError::VerificationError)));
}
