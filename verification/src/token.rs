//! Bearer tokens: signed claims that name a user and an expiry. Signing and
//! signature checking are the `jsonwebtoken` crate's; the claims, their
//! lifetime and the reading of decoded fields are proved here.

use crate::errors::{internal_error, ApiError, ErrorKind};
use vstd::prelude::*;

verus! {

/// `jsonwebtoken::errors::Error`, carried from the call that failed to the
/// function that reads its text; nothing is known of what it holds.
#[verifier::external_type_specification]
#[verifier::external_body]
pub struct ExTokenError(jsonwebtoken::errors::Error);

/// What a token asserts: the user it was issued to and the second, counted
/// from the epoch, at which it expires.
#[derive(Clone, Copy, Debug, PartialEq, Eq, Structural)]
pub struct JwtClaims {
    pub user_id: i32,
    pub exp: usize,
}

/// How long a token is valid: seven days, in seconds.
pub const TOKEN_LIFETIME_SECONDS: i64 = 604_800;

/// The token that `jsonwebtoken` makes of a JSON object with two integer
/// claims, signed with HMAC-SHA256 under a secret; `None` where it makes
/// none.
pub uninterp spec fn hs256_token(
    first_name: Seq<char>,
    first: i64,
    second_name: Seq<char>,
    second: u64,
    secret: Seq<char>,
) -> Option<Seq<char>>;

/// The token of a user's claims: the user id under `user_id` and the expiry
/// under `exp`.
pub open spec fn token_of(claims: JwtClaims, secret: Seq<char>) -> Option<Seq<char>> {
    hs256_token("user_id"@, claims.user_id as i64, "exp"@, claims.exp as u64, secret)
}

/// Calls `jsonwebtoken::encode` with the default header (HS256), a JSON
/// object of the two claims and the secret's bytes as the key. Assumed, as
/// the crate's source has it: a token always comes out, since neither the
/// header nor an object of two integers can fail to be written and HMAC
/// signing cannot fail; and which token depends on the claims and the secret
/// alone.
#[verifier::external_body]
fn sign_two_claims(first_name: &str, first: i64, second_name: &str, second: u64, secret: &str) -> (res: Result<
    String,
    jsonwebtoken::errors::Error,
>)
    ensures
        res is Ok,
        res matches Ok(token) ==> hs256_token(first_name@, first, second_name@, second, secret@) == Some(token@),
{
    let mut object = serde_json::Map::new();
    object.insert(first_name.to_owned(), serde_json::Value::from(first));
    object.insert(second_name.to_owned(), serde_json::Value::from(second));
    let key = jsonwebtoken::EncodingKey::from_secret(secret.as_bytes());
    jsonwebtoken::encode(&jsonwebtoken::Header::default(), &object, &key)
}

/// The two named claims that `jsonwebtoken::decode` reads from a token under
/// a secret, each where it is there and an integer of its type. The clock
/// decides only whether a token is still accepted, never what is read from
/// it, so this depends on the token, the secret and the names alone.
pub uninterp spec fn hs256_claims(
    token: Seq<char>,
    secret: Seq<char>,
    first_name: Seq<char>,
    second_name: Seq<char>,
) -> Option<(Option<i64>, Option<u64>)>;

/// The claims that a token carries under a secret: its user id and its
/// expiry, where the token can be read and both are there and within range.
pub open spec fn token_claims(token: Seq<char>, secret: Seq<char>) -> Option<JwtClaims> {
    match hs256_claims(token, secret, "user_id"@, "exp"@) {
        Some((user_id, exp)) => claims_of_fields(user_id, exp),
        None => None,
    }
}

/// Calls `jsonwebtoken::decode` with the default validation (HS256, expiry
/// checked against the clock) and hands out the two named claims, each where
/// it is there and an integer of its type. Whether the call succeeds depends
/// on the time of the call, so nothing is claimed of that. Assumed: what a
/// successful call hands out is read from the token's signed payload, and so
/// is the same whenever the call is made; and where the token is the one
/// that was signed over two claims of these names, which differ, under this
/// secret, what is read are those two claims.
#[verifier::external_body]
fn read_two_claims(token: &str, secret: &str, first_name: &str, second_name: &str) -> (res: Result<
    (Option<i64>, Option<u64>),
    jsonwebtoken::errors::Error,
>)
    ensures
        res matches Ok(fields) ==> hs256_claims(token@, secret@, first_name@, second_name@) == Some(fields),
        res matches Ok(fields) ==> forall|first: i64, second: u64|
            first_name@ != second_name@ && #[trigger] hs256_token(
                first_name@,
                first,
                second_name@,
                second,
                secret@,
            ) == Some(token@) ==> fields == (Some(first), Some(second)),
{
    let key = jsonwebtoken::DecodingKey::from_secret(secret.as_bytes());
    let validation = jsonwebtoken::Validation::default();
    let claims = jsonwebtoken::decode::<serde_json::Value>(token, &key, &validation)?.claims;
    Ok((
        claims.get(first_name).and_then(serde_json::Value::as_i64),
        claims.get(second_name).and_then(serde_json::Value::as_u64),
    ))
}

/// The text of a token error, as its `Display` gives it.
#[verifier::external_body]
fn token_error_text(error: &jsonwebtoken::errors::Error) -> (text: String) {
    error.to_string()
}

/// What the clock can read: a second that is not before the epoch and whose
/// day is one that `chrono` can count.
pub open spec fn is_clock_reading(seconds: i64) -> bool {
    0 <= seconds < 2_147_483_648 * 86_400
}

/// Whether a `usize` can write the expiry of a token issued at any moment
/// that the clock can read, as one of 64 bits can.
pub open spec fn expiry_always_fits() -> bool {
    2_147_483_648 * 86_400 + TOKEN_LIFETIME_SECONDS <= usize::MAX
}

/// Reads the clock with `chrono::Utc::now` and gives the seconds since the
/// epoch. Which second that is depends on the time of the call. Assumed, as
/// the crate's source has it: `now` takes the time that has passed since the
/// epoch, whose seconds fit an `i64`, and panics where the clock is before
/// the epoch; and it makes its value with `DateTime::from_timestamp`, which
/// takes no second whose day is beyond `i32::MAX`.
#[verifier::external_body]
fn unix_now() -> (seconds: i64)
    ensures
        is_clock_reading(seconds),
{
    chrono::Utc::now().timestamp()
}

/// The second at which a token issued at `now` expires.
pub open spec fn expiry_of(now: int) -> int {
    now + TOKEN_LIFETIME_SECONDS
}

/// The claims of a token issued to a user at `now`, where its expiry is a
/// timestamp that is not negative and can be written as a `usize`.
pub open spec fn claims_at(user_id: i32, now: int) -> Option<JwtClaims> {
    if 0 <= expiry_of(now) <= i64::MAX && expiry_of(now) <= usize::MAX {
        Some(JwtClaims { user_id, exp: expiry_of(now) as usize })
    } else {
        None
    }
}

/// The claims that two decoded fields stand for: both must be present, the
/// user id within `i32` and the expiry within `usize`.
pub open spec fn claims_of_fields(user_id: Option<i64>, exp: Option<u64>) -> Option<JwtClaims> {
    match (user_id, exp) {
        (Some(id), Some(e)) => if i32::MIN <= id <= i32::MAX && e <= usize::MAX {
            Some(JwtClaims { user_id: id as i32, exp: e as usize })
        } else {
            None
        },
        _ => None,
    }
}

/// The claims for a token issued to `user_id` at `now`: it expires seven days
/// later. `None` where that second is negative, or too large for a timestamp
/// or for a `usize`.
pub fn claims_for(user_id: i32, now: i64) -> (claims: Option<JwtClaims>)
    ensures
        claims == claims_at(user_id, now as int),
{
    match now.checked_add(TOKEN_LIFETIME_SECONDS) {
        Some(expiry) => match usize::try_from(expiry) {
            Ok(exp) => Some(JwtClaims { user_id, exp }),
            Err(_) => None,
        },
        None => None,
    }
}

/// Reads decoded fields as claims.
pub fn claims_from_fields(user_id: Option<i64>, exp: Option<u64>) -> (claims: Option<JwtClaims>)
    ensures
        claims == claims_of_fields(user_id, exp),
{
    match (user_id, exp) {
        (Some(id), Some(e)) => match (i32::try_from(id), usize::try_from(e)) {
            (Ok(user_id), Ok(exp)) => Some(JwtClaims { user_id, exp }),
            _ => None,
        },
        _ => None,
    }
}

/// The token that is issued to a user at `now`: that of the claims of that
/// moment, where they can be written and signed.
pub open spec fn issued_at(user_id: i32, now: int, secret: Seq<char>) -> Option<Seq<char>> {
    match claims_at(user_id, now) {
        Some(claims) => token_of(claims, secret),
        None => None,
    }
}

/// What issuing comes to where `expected` is the token to issue: that token,
/// or an `InternalError` where there is none.
pub open spec fn is_issue_of(res: Result<String, ApiError>, expected: Option<Seq<char>>) -> bool {
    match expected {
        Some(token) => res matches Ok(issued) && issued@ == token,
        None => res matches Err(e) && e.kind == ErrorKind::InternalError,
    }
}

/// Signs claims under the server secret: the token of the claims comes out.
pub fn sign(claims: &JwtClaims, secret: &str) -> (res: Result<String, ApiError>)
    ensures
        res is Ok,
        is_issue_of(res, token_of(*claims, secret@)),
{
    match sign_two_claims("user_id", claims.user_id as i64, "exp", claims.exp as u64, secret) {
        Ok(token) => Ok(token),
        Err(error) => Err(internal_error(token_error_text(&error))),
    }
}

/// Issues a token to a user at a given time: the signed claims of
/// [`claims_at`]. It fails, as `InternalError`, exactly where the expiry
/// cannot be written.
pub fn issue_token_at(user_id: i32, now: i64, secret: &str) -> (res: Result<String, ApiError>)
    ensures
        res is Ok <==> claims_at(user_id, now as int) is Some,
        is_issue_of(res, issued_at(user_id, now as int, secret@)),
{
    match claims_for(user_id, now) {
        Some(claims) => sign(&claims, secret),
        None => Err(ApiError::new(ErrorKind::InternalError, "Token expiry is out of range")),
    }
}

/// Issues a token to a user now: the outcome is that of issuing at some
/// moment, the one that the clock gave. It succeeds wherever a `usize` is
/// wide enough for the expiry of every such moment.
pub fn issue_token(user_id: i32, secret: &str) -> (res: Result<String, ApiError>)
    ensures
        expiry_always_fits() ==> res is Ok,
        exists|now: i64| is_clock_reading(now) && is_issue_of(res, #[trigger] issued_at(user_id, now as int, secret@)),
{
    let now = unix_now();
    let res = issue_token_at(user_id, now, secret);
    assert(is_clock_reading(now) && is_issue_of(res, issued_at(user_id, now as int, secret@)));
    res
}

/// Checks a token's signature and expiry and reads its claims. `None` where
/// the token is malformed, badly signed or expired, or where its claims are
/// not a user id and an expiry. The claims that come out are those that the
/// token carries, and for a token that was issued here they are the claims
/// it was issued for; whether they come out at all is for the clock to
/// decide.
pub fn decode_token(token: &str, secret: &str) -> (claims: Option<JwtClaims>)
    ensures
        claims is Some ==> claims == token_claims(token@, secret@),
        claims is Some ==> forall|issued: JwtClaims|
            #[trigger] token_of(issued, secret@) == Some(token@) ==> claims == Some(issued),
{
    proof {
        reveal_strlit("user_id");
        reveal_strlit("exp");
        assert("user_id"@ != "exp"@) by {
            assert("user_id"@.len() != "exp"@.len());
        }
    }
    match read_two_claims(token, secret, "user_id", "exp") {
        Ok((user_id, exp)) => {
            let claims = claims_from_fields(user_id, exp);
            assert forall|issued: JwtClaims| #[trigger]
                token_of(issued, secret@) == Some(token@) implies claims == Some(issued) by {
                assert(hs256_token("user_id"@, issued.user_id as i64, "exp"@, issued.exp as u64, secret@)
                    == Some(token@));
            }
            claims
        },
        Err(_) => None,
    }
}

} // verus!
