use cron_reminders::clock::unix_time;
use cron_reminders::errors::AuthError;
use cron_reminders::token::{TokenAuthority, TOKEN_VALIDITY_SECS};

fn authority() -> TokenAuthority {
    TokenAuthority::new(b"a signing secret".to_vec()).unwrap()
}

fn signed_with(secret: &[u8], sub: i64, exp: u64) -> String {
    let mut claims = serde_json::Map::new();
    claims.insert("sub".to_string(), serde_json::Value::from(sub));
    claims.insert("exp".to_string(), serde_json::Value::from(exp));
    jsonwebtoken::encode(
        &jsonwebtoken::Header::default(),
        &claims,
        &jsonwebtoken::EncodingKey::from_secret(secret),
    )
    .unwrap()
}

#[test]
fn an_empty_secret_is_refused() {
    assert!(TokenAuthority::new(Vec::new()).is_none());
    assert!(TokenAuthority::new(vec![0]).is_some());
}

#[test]
fn the_validity_window_is_a_day() {
    assert_eq!(TOKEN_VALIDITY_SECS, 24 * 60 * 60);
}

#[test]
fn an_issued_token_verifies_until_it_expires() {
    let authority = authority();
    let token = authority.issue_at(7, 1_000);
    assert_eq!(authority.verify_at(&token, 0), Ok(7));
    assert_eq!(authority.verify_at(&token, 1_000), Ok(7));
    assert_eq!(authority.verify_at(&token, 1_000 + 86_399), Ok(7));
    assert_eq!(authority.verify_at(&token, 1_000 + 86_400), Err(AuthError::Expired));
    assert_eq!(authority.verify_at(&token, 1_000 + 86_401), Err(AuthError::Expired));
    assert_eq!(authority.verify_at(&token, u64::MAX), Err(AuthError::Expired));
}

#[test]
fn a_token_is_not_its_claims_in_the_clear() {
    let authority = authority();
    let token = authority.issue_at(7, 1_000);
    assert_eq!(token.matches('.').count(), 2);
    assert_ne!(token, "7");
    assert_eq!(token, signed_with(b"a signing secret", 7, 87_400));
}

#[test]
fn issuing_is_a_function_of_user_time_and_secret() {
    let authority = authority();
    assert_eq!(authority.issue_at(7, 1_000), authority.issue_at(7, 1_000));
    assert_ne!(authority.issue_at(7, 1_000), authority.issue_at(8, 1_000));
    assert_ne!(authority.issue_at(7, 1_000), authority.issue_at(7, 1_001));
    let other = TokenAuthority::new(b"another secret".to_vec()).unwrap();
    assert_ne!(authority.issue_at(7, 1_000), other.issue_at(7, 1_000));
}

#[test]
fn every_user_id_survives_the_round_trip() {
    let authority = authority();
    for user_id in [i32::MIN, -1, 0, 1, 42, i32::MAX] {
        let token = authority.issue_at(user_id, 5);
        assert_eq!(authority.verify_at(&token, 5), Ok(user_id));
    }
}

#[test]
fn the_latest_issue_time_still_gives_a_token() {
    let authority = authority();
    let token = authority.issue_at(1, u64::MAX - TOKEN_VALIDITY_SECS);
    assert_eq!(authority.verify_at(&token, u64::MAX - 1), Ok(1));
    assert_eq!(authority.verify_at(&token, u64::MAX), Err(AuthError::Expired));
}

#[test]
fn a_flipped_signature_character_is_invalid() {
    let authority = authority();
    let token = authority.issue_at(7, 1_000);
    let start = token.rfind('.').unwrap() + 1;
    assert!(start < token.len());
    for at in start..token.len() {
        let mut bytes = token.clone().into_bytes();
        bytes[at] = if bytes[at] == b'A' { b'B' } else { b'A' };
        let forged = String::from_utf8(bytes).unwrap();
        assert_ne!(forged, token);
        assert_eq!(authority.verify_at(&forged, 1_000), Err(AuthError::Invalid));
        assert_eq!(authority.verify_at(&forged, 1_000_000), Err(AuthError::Invalid));
    }
}

#[test]
fn a_cut_or_grown_signature_is_invalid() {
    let authority = authority();
    let token = authority.issue_at(7, 1_000);
    let start = token.rfind('.').unwrap() + 1;
    assert_eq!(authority.verify_at(&token[..start], 1_000), Err(AuthError::Invalid));
    assert_eq!(authority.verify_at(&token[..token.len() - 1], 1_000), Err(AuthError::Invalid));
    let grown = format!("{}A", token);
    assert_eq!(authority.verify_at(&grown, 1_000), Err(AuthError::Invalid));
    let dotted = format!("{}.A", token);
    assert_eq!(authority.verify_at(&dotted, 1_000), Err(AuthError::Invalid));
}

#[test]
fn a_token_under_another_secret_is_invalid() {
    let authority = authority();
    let other = TokenAuthority::new(b"another secret".to_vec()).unwrap();
    let token = other.issue_at(7, 1_000);
    assert_eq!(authority.verify_at(&token, 1_000), Err(AuthError::Invalid));
    assert_eq!(other.verify_at(&token, 1_000), Ok(7));
}

#[test]
fn a_malformed_token_is_invalid() {
    let authority = authority();
    for text in ["", "a.jwt.token", "not a token", "..", "a.b"] {
        assert_eq!(authority.verify_at(text, 0), Err(AuthError::Invalid));
    }
}

#[test]
fn a_subject_that_is_no_user_id_is_invalid() {
    let authority = authority();
    let too_large = signed_with(b"a signing secret", i32::MAX as i64 + 1, 2_000);
    assert_eq!(authority.verify_at(&too_large, 1_000), Err(AuthError::Invalid));
    assert_eq!(authority.verify_at(&too_large, 3_000), Err(AuthError::Invalid));
    let too_small = signed_with(b"a signing secret", i32::MIN as i64 - 1, 2_000);
    assert_eq!(authority.verify_at(&too_small, 1_000), Err(AuthError::Invalid));
    let largest = signed_with(b"a signing secret", i32::MAX as i64, 2_000);
    assert_eq!(authority.verify_at(&largest, 1_000), Ok(i32::MAX));
}

#[test]
fn a_token_without_a_claim_is_invalid() {
    let authority = authority();
    let mut claims = serde_json::Map::new();
    claims.insert("exp".to_string(), serde_json::Value::from(2_000u64));
    let token = jsonwebtoken::encode(
        &jsonwebtoken::Header::default(),
        &claims,
        &jsonwebtoken::EncodingKey::from_secret(b"a signing secret"),
    )
    .unwrap();
    assert_eq!(authority.verify_at(&token, 1_000), Err(AuthError::Invalid));
}

#[test]
fn a_token_that_expired_long_ago_still_decodes_as_expired() {
    let authority = authority();
    let old = signed_with(b"a signing secret", 3, 10);
    assert_eq!(authority.verify_at(&old, 9), Ok(3));
    assert_eq!(authority.verify_at(&old, 10), Err(AuthError::Expired));
    assert_eq!(authority.verify_at(&old, 11), Err(AuthError::Expired));
}

#[test]
fn the_clock_reads_a_time_of_this_century() {
    let now = unix_time();
    assert!(now > 1_600_000_000);
    assert!(now <= i64::MAX as u64);
}

#[test]
fn a_token_issued_now_verifies_now() {
    let authority = authority();
    let before = unix_time();
    let token = authority.issue(11);
    let after = unix_time();
    assert_eq!(authority.verify(&token), Ok(11));
    assert_eq!(authority.verify_at(&token, before + TOKEN_VALIDITY_SECS - 1), Ok(11));
    assert_eq!(authority.verify_at(&token, after + TOKEN_VALIDITY_SECS), Err(AuthError::Expired));
}

#[test]
fn decoded_claims_are_accepted_before_their_expiry() {
    let accept = cron_reminders::token::accept_claims;
    assert_eq!(accept(None, 0), Err(AuthError::Invalid));
    assert_eq!(accept(Some((7, 100)), 0), Ok(7));
    assert_eq!(accept(Some((7, 100)), 99), Ok(7));
    assert_eq!(accept(Some((7, 100)), 100), Err(AuthError::Expired));
    assert_eq!(accept(Some((7, 100)), 101), Err(AuthError::Expired));
    assert_eq!(accept(Some((7, 0)), 0), Err(AuthError::Expired));
    assert_eq!(accept(Some((-7, 100)), 5), Ok(-7));
    assert_eq!(accept(Some((i32::MAX as i64, u64::MAX)), u64::MAX - 1), Ok(i32::MAX));
    assert_eq!(accept(Some((i32::MAX as i64 + 1, 100)), 5), Err(AuthError::Invalid));
    assert_eq!(accept(Some((i32::MIN as i64 - 1, 100)), 5), Err(AuthError::Invalid));
    assert_eq!(accept(Some((i64::MAX, 100)), 500), Err(AuthError::Invalid));
}
