//! Tests of the two token schemes: the byte codecs, the signed-claims wire
//! format, and audience parsing.
use auth_core::claims::{decode_and_validate, mac64, parse_audience, AudienceKind};
use auth_core::codec::{hex_encode, read_dec, render_u64};
use auth_core::errors::TokenError;
use auth_core::session_token::{rng_from_u64_seed, SessionToken, SESSION_TOKEN_BYTES};

fn key(bytes: &[u8]) -> Vec<u8> {
    bytes.to_vec()
}

#[test]
fn render_u64_gives_decimal_digits() {
    assert_eq!(render_u64(0), b"0".to_vec());
    assert_eq!(render_u64(9), b"9".to_vec());
    assert_eq!(render_u64(10), b"10".to_vec());
    assert_eq!(render_u64(12345), b"12345".to_vec());
    assert_eq!(render_u64(u64::MAX), b"18446744073709551615".to_vec());
}

#[test]
fn read_dec_parses_colon_terminated_numbers() {
    assert_eq!(read_dec(&b"123:".to_vec(), 0), Some((123, 4)));
    assert_eq!(read_dec(&b"0:rest".to_vec(), 0), Some((0, 2)));
    assert_eq!(read_dec(&b"12".to_vec(), 0), None);
    assert_eq!(read_dec(&b":".to_vec(), 0), None);
    assert_eq!(read_dec(&b"12a:".to_vec(), 0), None);
    // one past u64::MAX overflows
    assert_eq!(read_dec(&b"18446744073709551616:".to_vec(), 0), None);
}

#[test]
fn hex_encode_is_two_lowercase_digits_per_byte() {
    assert_eq!(hex_encode(&vec![]), Vec::<u8>::new());
    assert_eq!(hex_encode(&vec![0x00, 0xff, 0x1a]), b"00ff1a".to_vec());
}

#[test]
fn session_token_storage_value_is_hex() {
    let t = SessionToken { raw: vec![0x00, 0xab, 0xff] };
    assert_eq!(t.into_database_value(), "00abff");
}

#[test]
fn generated_session_tokens_do_not_collide() {
    let mut rng = rng_from_u64_seed(7);
    let mut seen: Vec<Vec<u8>> = Vec::new();
    for _ in 0..100 {
        let t = SessionToken::generate_new(&mut rng);
        assert_eq!(t.raw.len(), SESSION_TOKEN_BYTES);
        assert!(!seen.contains(&t.raw), "two generated tokens collided");
        seen.push(t.raw);
    }
}

#[test]
fn mac64_is_deterministic_and_keyed() {
    let k1 = key(b"secret");
    let k2 = key(b"other secret");
    let msg = b"the message".to_vec();
    assert_eq!(mac64(&k1, &msg), mac64(&k1, &msg));
    assert_ne!(mac64(&k1, &msg), mac64(&k2, &msg));
    assert_ne!(mac64(&k1, &msg), mac64(&k1, &b"the messagf".to_vec()));
}

#[test]
fn parse_audience_accepts_both_kinds() {
    assert_eq!(parse_audience("user:42"), Ok((AudienceKind::User, 42)));
    assert_eq!(parse_audience("organization:7"), Ok((AudienceKind::Organization, 7)));
    assert_eq!(parse_audience("user:0"), Ok((AudienceKind::User, 0)));
    assert_eq!(parse_audience("user:2147483647"), Ok((AudienceKind::User, i32::MAX)));
}

#[test]
fn parse_audience_rejects_other_shapes() {
    assert_eq!(parse_audience("user:"), Err(TokenError::Malformed));
    assert_eq!(parse_audience("user:12x"), Err(TokenError::Malformed));
    assert_eq!(parse_audience("pet:1"), Err(TokenError::Malformed));
    assert_eq!(parse_audience("42"), Err(TokenError::Malformed));
    assert_eq!(parse_audience(""), Err(TokenError::Malformed));
    // one past i32::MAX
    assert_eq!(parse_audience("user:2147483648"), Err(TokenError::Malformed));
}

#[test]
fn tampered_token_fails_the_signature_check() {
    let k = key(b"signing key");
    let svc = auth_core::service::AuthService::new(
        auth_core::store::Repository::new(),
        rng_from_u64_seed(1),
        k.clone(),
    );
    let token = svc.gen_short_lived_token_for_user(42, 1_000);
    // flip one digit of the trailing tag (the byte before the final colon)
    let mut bytes = token.clone().into_bytes();
    let n = bytes.len();
    let target = n - 2;
    bytes[target] = if bytes[target] == b'1' { b'2' } else { b'1' };
    let tampered = String::from_utf8(bytes).unwrap();
    assert!(matches!(
        decode_and_validate(&k, &tampered, 1_005),
        Err(TokenError::SignatureInvalid)
    ));
}

#[test]
fn truncated_token_is_malformed() {
    let k = key(b"signing key");
    let svc = auth_core::service::AuthService::new(
        auth_core::store::Repository::new(),
        rng_from_u64_seed(1),
        k.clone(),
    );
    let token = svc.gen_short_lived_token_for_user(1, 50);
    let truncated = &token[..token.len() - 1];
    assert!(matches!(decode_and_validate(&k, truncated, 55), Err(TokenError::Malformed)));
    assert!(matches!(decode_and_validate(&k, "", 55), Err(TokenError::Malformed)));
    assert!(matches!(decode_and_validate(&k, "not a token", 55), Err(TokenError::Malformed)));
}

#[test]
fn token_under_another_key_fails_the_signature_check() {
    let k1 = key(b"first key");
    let k2 = key(b"second key");
    let svc = auth_core::service::AuthService::new(
        auth_core::store::Repository::new(),
        rng_from_u64_seed(1),
        k1.clone(),
    );
    let token = svc.gen_short_lived_token_for_user(3, 100);
    assert!(matches!(
        decode_and_validate(&k2, &token, 105),
        Err(TokenError::SignatureInvalid)
    ));
    assert!(decode_and_validate(&k1, &token, 105).is_ok());
}

#[test]
fn claims_round_trip_before_and_after_expiry() {
    let k = key(b"round trip key");
    let svc = auth_core::service::AuthService::new(
        auth_core::store::Repository::new(),
        rng_from_u64_seed(9),
        k.clone(),
    );
    let now = 10_000;
    let token = svc.gen_short_lived_token_for_user(42, now);
    // checked before expiry: the original audience and purpose come back
    let c = decode_and_validate(&k, &token, now + 19).unwrap();
    assert_eq!(c.aud, "user:42");
    assert_eq!(c.sub, "user short lived token");
    assert_eq!(c.iss, "rastercar API");
    assert_eq!(c.iat, now);
    assert_eq!(c.exp, now + 20);
    assert_eq!(parse_audience(&c.aud), Ok((AudienceKind::User, 42)));
    // checked at the expiry instant: expired
    assert!(matches!(decode_and_validate(&k, &token, now + 20), Err(TokenError::Expired)));
}
