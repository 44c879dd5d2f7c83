//! The token authority: issues signed session tokens and verifies them.
//!
//! A token carries two claims, the subject (a user id) and the expiry (a Unix
//! time). It is signed with HMAC-SHA256 under a secret that the authority is
//! built with. Signing and decoding are the work of the `jsonwebtoken` crate;
//! what is decided here is which claims go in, and which decoded claims are
//! accepted at a given time.
use vstd::prelude::*;
use crate::clock::unix_time;
use crate::errors::AuthError;

verus! {

/// How long a token stays valid after it was issued, in seconds.
pub const TOKEN_VALIDITY_SECS: u64 = 86400;

/// The token that `jsonwebtoken::encode` makes of the claims `sub` and `exp`
/// under the default header and the HMAC key `secret`.
pub uninterp spec fn signed_token(sub: i32, exp: u64, secret: Seq<u8>) -> Seq<char>;

/// The claims `(sub, exp)` that `jsonwebtoken::decode` reads from `token`
/// under the HMAC key `secret`, when the expiry is not held against any
/// clock; `None` where it rejects the token or a claim is no integer.
pub uninterp spec fn token_claims(token: Seq<char>, secret: Seq<u8>) -> Option<(i64, u64)>;

/// Where the signature of `token` starts: just after its last `.`.
pub open spec fn signature_start(token: Seq<char>) -> int
    decreases token.len(),
{
    if token.len() == 0 {
        0
    } else if token.last() == '.' {
        token.len() as int
    } else {
        signature_start(token.drop_last())
    }
}

/// `forged` is `token` with another signature: the two agree on everything
/// before the signature of `token` and differ after it.
pub open spec fn signature_tampered(token: Seq<char>, forged: Seq<char>) -> bool {
    &&& forged != token
    &&& forged.len() >= signature_start(token)
    &&& forged.subrange(0, signature_start(token)) == token.subrange(0, signature_start(token))
}

/// The error type of the `jsonwebtoken` crate.
#[verifier::external_type_specification]
#[verifier::external_body]
pub struct ExTokenError(jsonwebtoken::errors::Error);

/// Signs the two claims with `jsonwebtoken::encode`, under `Header::default()`
/// and `EncodingKey::from_secret(secret)`.
///
/// Trusted:
/// * the call succeeds: with an HMAC key and the default header, which names
///   HS256, `encode` has no failing branch, and two integers always
///   serialize;
/// * the token is a function of the claims and the secret, named
///   [`signed_token`];
/// * `decode` under the same secret reads the same two claims from it;
/// * `decode` rejects every string that differs from it only after the last
///   `.`: it signs the part before again and compares the two signatures
///   byte for byte.
#[verifier::external_body]
fn encode_claims(sub: i32, exp: u64, secret: &[u8]) -> (r: Result<String, jsonwebtoken::errors::Error>)
    requires
        secret@.len() > 0,
    ensures
        r is Ok,
        r matches Ok(token) ==> token@ == signed_token(sub, exp, secret@),
        r matches Ok(token) ==> token_claims(token@, secret@) == Some((sub as i64, exp)),
        r matches Ok(token) ==> forall|forged: Seq<char>|
            signature_tampered(token@, forged) ==> (#[trigger] token_claims(forged, secret@))
                is None,
{
    let mut claims = serde_json::Map::new();
    claims.insert("sub".to_string(), serde_json::Value::from(sub));
    claims.insert("exp".to_string(), serde_json::Value::from(exp));
    let key = jsonwebtoken::EncodingKey::from_secret(secret);
    jsonwebtoken::encode(&jsonwebtoken::Header::default(), &claims, &key)
}

/// Decodes `token` with `jsonwebtoken::decode`, under
/// `DecodingKey::from_secret(secret)` and a validation that accepts HS256 and
/// leaves the expiry unchecked, and hands out the integers found under `sub`
/// and `exp`.
///
/// Trusted: the result is a function of the token and the secret, named
/// [`token_claims`].
#[verifier::external_body]
fn decode_claims(token: &str, secret: &[u8]) -> (claims: Option<(i64, u64)>)
    requires
        secret@.len() > 0,
    ensures
        claims == token_claims(token@, secret@),
{
    let mut validation = jsonwebtoken::Validation::new(jsonwebtoken::Algorithm::HS256);
    validation.validate_exp = false;
    let key = jsonwebtoken::DecodingKey::from_secret(secret);
    let data = jsonwebtoken::decode::<serde_json::Value>(token, &key, &validation).ok()?;
    Some((data.claims.get("sub")?.as_i64()?, data.claims.get("exp")?.as_u64()?))
}

/// What the authority answers to a token with the decoded `claims` at the
/// time `now`.
///
/// A token that does not decode, or whose subject is no user id, is
/// `Invalid`. A token is valid while `now` is before its expiry, and
/// `Expired` from the expiry on.
pub open spec fn verification(claims: Option<(i64, u64)>, now: u64) -> Result<i32, AuthError> {
    match claims {
        None => Err(AuthError::Invalid),
        Some((sub, exp)) => if sub < i32::MIN || sub > i32::MAX {
            Err(AuthError::Invalid)
        } else if now >= exp {
            Err(AuthError::Expired)
        } else {
            Ok(sub as i32)
        },
    }
}

/// The answer to a token with the decoded `claims` at the time `now`.
pub fn accept_claims(claims: Option<(i64, u64)>, now: u64) -> (r: Result<i32, AuthError>)
    ensures
        r == verification(claims, now),
{
    match claims {
        None => Err(AuthError::Invalid),
        Some((sub, exp)) => {
            if sub < i32::MIN as i64 || sub > i32::MAX as i64 {
                Err(AuthError::Invalid)
            } else if now >= exp {
                Err(AuthError::Expired)
            } else {
                Ok(sub as i32)
            }
        },
    }
}

/// Whether `token` is the token that an authority with the secret `secret`
/// issues for `user_id` at the time `at`: the signed token of that subject
/// with the expiry [`TOKEN_VALIDITY_SECS`] later, which decodes to these
/// claims, and which no change after its last `.` leaves decodable.
pub open spec fn issued(token: Seq<char>, secret: Seq<u8>, user_id: i32, at: u64) -> bool {
    &&& token == signed_token(user_id, (at + TOKEN_VALIDITY_SECS) as u64, secret)
    &&& token_claims(token, secret) == Some((user_id as i64, (at + TOKEN_VALIDITY_SECS) as u64))
    &&& forall|forged: Seq<char>|
        signature_tampered(token, forged) ==> (#[trigger] token_claims(forged, secret)) is None
}

/// Issues and verifies session tokens under one signing secret.
pub struct TokenAuthority {
    secret: Vec<u8>,
}

impl TokenAuthority {
    /// The signing secret.
    pub closed spec fn secret(&self) -> Seq<u8> {
        self.secret@
    }

    #[verifier::type_invariant]
    spec fn has_secret(&self) -> bool {
        self.secret@.len() > 0
    }

    /// An authority that signs with `secret`. An empty secret is no secret:
    /// it is refused.
    pub fn new(secret: Vec<u8>) -> (r: Option<TokenAuthority>)
        ensures
            r is Some <==> secret@.len() > 0,
            r matches Some(authority) ==> authority.secret() == secret@,
    {
        if secret.len() == 0 {
            None
        } else {
            Some(TokenAuthority { secret })
        }
    }

    /// The token for `user_id`, issued at `now`: it expires
    /// [`TOKEN_VALIDITY_SECS`] later.
    pub fn issue_at(&self, user_id: i32, now: u64) -> (token: String)
        requires
            now + TOKEN_VALIDITY_SECS <= u64::MAX,
        ensures
            issued(token@, self.secret(), user_id, now),
    {
        proof {
            use_type_invariant(self);
        }
        let expiry: u64 = now + TOKEN_VALIDITY_SECS;
        match encode_claims(user_id, expiry, self.secret.as_slice()) {
            Ok(token) => token,
            Err(_) => unreached(),
        }
    }

    /// The user that `token` stands for at the time `now`.
    pub fn verify_at(&self, token: &str, now: u64) -> (r: Result<i32, AuthError>)
        ensures
            r == verification(token_claims(token@, self.secret()), now),
    {
        proof {
            use_type_invariant(self);
        }
        accept_claims(decode_claims(token, self.secret.as_slice()), now)
    }

    /// The token for `user_id`, issued now.
    pub fn issue(&self, user_id: i32) -> (token: String)
        ensures
            exists|now: u64| now <= i64::MAX && #[trigger] issued(token@, self.secret(), user_id, now),
    {
        let now: u64 = unix_time();
        self.issue_at(user_id, now)
    }

    /// The user that `token` stands for now.
    pub fn verify(&self, token: &str) -> (r: Result<i32, AuthError>)
        ensures
            exists|now: u64| r == #[trigger] verification(token_claims(token@, self.secret()), now),
    {
        let now: u64 = unix_time();
        self.verify_at(token, now)
    }
}

} // verus!
