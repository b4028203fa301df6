//! Who a request comes from: tokens that are given out at login and come back with each
//! request.

use crate::decimal::Overflow;
use crate::text::strip_prefix;
use crate::web::error::AppError;
use serde_json::value::RawValue;
use std::collections::HashMap;
use vstd::prelude::*;

verus! {

/// How long a token is good for, in seconds: seven days.
pub const TOKEN_TTL_SECS: u64 = 604800;

/// What a token says.
#[derive(Clone, Copy, Debug, PartialEq, Eq, Structural)]
pub struct Claims {
    /// The user.
    pub sub: i32,
    /// Until when the token is good, in seconds since 1970.
    pub exp: u64,
}

/// The user that a request comes from.
#[derive(Clone, Copy, Debug, PartialEq, Eq, Structural)]
pub struct UserId(pub i32);

/// A token could not be made, or is not to be trusted.
#[derive(Clone, Copy, Debug, PartialEq, Eq, Structural)]
pub struct TokenError;

/// The error of the `jsonwebtoken` crate.
#[verifier::external_type_specification]
#[verifier::external_body]
pub struct ExJwtError(jsonwebtoken::errors::Error);

/// The token that `jsonwebtoken` makes of two claims.
pub uninterp spec fn encoded_token(sub: i32, exp: u64, secret: Seq<char>) -> Seq<char>;

/// The two claims in a token that `jsonwebtoken` can read and that is signed with the
/// secret, each if it is a whole number; nothing of any other token.
pub uninterp spec fn decoded_token(token: Seq<char>, secret: Seq<char>) -> Option<
    (Option<i64>, Option<u64>),
>;

/// Calls `jsonwebtoken::encode` with the default header (HS256) and the claims `sub` and
/// `exp`. The claim: it succeeds, the token depends on the claims and the secret alone, and
/// under the same secret it can be read and holds the claims.
#[verifier::external_body]
fn outside_encode(sub: i32, exp: u64, secret: &str) -> (r: Result<
    String,
    jsonwebtoken::errors::Error,
>)
    ensures
        r is Ok,
        r->Ok_0@ == encoded_token(sub, exp, secret@),
        decoded_token(r->Ok_0@, secret@) == Some((Some(sub as i64), Some(exp))),
{
    let mut claims = serde_json::Map::new();
    claims.insert("sub".to_owned(), serde_json::Value::from(sub));
    claims.insert("exp".to_owned(), serde_json::Value::from(exp));
    let key = jsonwebtoken::EncodingKey::from_secret(secret.as_bytes());
    jsonwebtoken::encode(&jsonwebtoken::Header::default(), &claims, &key)
}

/// Whether a token is good for ever: no time is later than the largest `exp`.
pub open spec fn good_for_ever(read: (Option<i64>, Option<u64>)) -> bool {
    read.1 == Some(u64::MAX)
}

/// Calls `jsonwebtoken::decode` with the default validation: HS256, and a claim `exp` that
/// is not over. Of the other claims only `sub` is looked at. The claim: what it reads depends
/// on the token and the secret alone, it reads no token that is malformed or signed otherwise,
/// and it accepts a token that it can read and whose `exp` no time is later than. Whether it
/// accepts another token that it can read depends on the time too, and is left unsaid.
#[verifier::external_body]
fn outside_decode(token: &str, secret: &str) -> (r: Result<
    (Option<i64>, Option<u64>),
    jsonwebtoken::errors::Error,
>)
    ensures
        r matches Ok(claims) ==> decoded_token(token@, secret@) == Some(claims),
        decoded_token(token@, secret@) matches Some(read) ==> good_for_ever(read) ==> r is Ok,
{
    let key = jsonwebtoken::DecodingKey::from_secret(secret.as_bytes());
    let validation = jsonwebtoken::Validation::default();
    let data: jsonwebtoken::TokenData<HashMap<String, Box<RawValue>>> =
        jsonwebtoken::decode(token, &key, &validation)?;
    let claims = data.claims;
    let sub = claims.get("sub").and_then(|v| serde_json::from_str::<i64>(v.get()).ok());
    let exp = claims.get("exp").and_then(|v| serde_json::from_str::<u64>(v.get()).ok());
    Ok((sub, exp))
}

/// A token for a user, from now on.
pub fn sign(user_id: i32, secret: &str, now_secs: u64) -> (r: Result<String, Overflow>)
    ensures
        match r {
            Ok(token) => {
                &&& now_secs + TOKEN_TTL_SECS <= u64::MAX
                &&& token@ == encoded_token(user_id, (now_secs + TOKEN_TTL_SECS) as u64, secret@)
                &&& decoded_token(token@, secret@) == Some(
                    (Some(user_id as i64), Some((now_secs + TOKEN_TTL_SECS) as u64)),
                )
            },
            Err(_) => now_secs + TOKEN_TTL_SECS > u64::MAX,
        },
{
    let exp = match now_secs.checked_add(TOKEN_TTL_SECS) {
        Some(exp) => exp,
        None => {
            return Err(Overflow);
        },
    };
    match outside_encode(user_id, exp, secret) {
        Ok(token) => Ok(token),
        Err(_) => Err(Overflow),
    }
}

/// The claims that two numbers make: both have to be there, and the user's in range.
pub open spec fn claims_of(read: (Option<i64>, Option<u64>)) -> Option<Claims> {
    match read {
        (Some(sub), Some(exp)) => if i32::MIN <= sub <= i32::MAX {
            Some(Claims { sub: sub as i32, exp })
        } else {
            None
        },
        _ => None,
    }
}

/// The claims that two numbers make.
pub fn read_claims(sub: Option<i64>, exp: Option<u64>) -> (r: Option<Claims>)
    ensures
        r == claims_of((sub, exp)),
{
    match (sub, exp) {
        (Some(sub), Some(exp)) => if -2147483648 <= sub && sub <= 2147483647 {
            Some(Claims { sub: sub as i32, exp })
        } else {
            None
        },
        _ => None,
    }
}

/// The claims of a token by what came of reading it: what was read, if both claims are there
/// and the user's is in range, or a refusal.
pub fn claims_from(outcome: Result<(Option<i64>, Option<u64>), jsonwebtoken::errors::Error>) -> (r:
    Result<Claims, TokenError>)
    ensures
        r == match outcome {
            Ok(read) => match claims_of(read) {
                Some(claims) => Ok::<Claims, TokenError>(claims),
                None => Err(TokenError),
            },
            Err(_) => Err(TokenError),
        },
{
    match outcome {
        Ok((sub, exp)) => match read_claims(sub, exp) {
            Some(claims) => Ok(claims),
            None => Err(TokenError),
        },
        Err(_) => Err(TokenError),
    }
}

/// The claims of a token, if it is signed with the secret and still good. One that is good
/// for ever is always accepted.
pub fn verify(token: &str, secret: &str) -> (r: Result<Claims, TokenError>)
    ensures
        r matches Ok(claims) ==> decoded_token(token@, secret@) is Some && claims_of(
            decoded_token(token@, secret@)->0,
        ) == Some(claims),
        decoded_token(token@, secret@) matches Some(read) ==> good_for_ever(read) ==> (r is Ok
            <==> claims_of(read) is Some),
{
    claims_from(outside_decode(token, secret))
}

/// The token in an authorization header, if it has the form of one.
pub fn bearer_token<'a>(header: Option<&'a str>) -> (r: Result<&'a str, AppError>)
    ensures
        match r {
            Ok(token) => header is Some && header->0@ == "Bearer "@ + token@,
            Err(e) => e == AppError::Unauthorized && (header is None || !(exists|rest: Seq<char>|
                header->0@ == "Bearer "@ + rest)),
        },
{
    match header {
        None => Err(AppError::Unauthorized),
        Some(text) => match strip_prefix(text, "Bearer ") {
            Some(token) => Ok(token),
            None => Err(AppError::Unauthorized),
        },
    }
}

/// The user that the claims of a token name. A token that is not to be trusted names
/// nobody.
pub fn user_of(claims: Result<Claims, TokenError>) -> (r: Result<UserId, AppError>)
    ensures
        r == match claims {
            Ok(c) => Ok::<UserId, AppError>(UserId(c.sub)),
            Err(_) => Err(AppError::Unauthorized),
        },
{
    match claims {
        Ok(c) => Ok(UserId(c.sub)),
        Err(_) => Err(AppError::Unauthorized),
    }
}

/// The user that a request comes from, by its authorization header. Without a header of
/// the right form, or with a token that is not signed with the secret, it is refused. A
/// token that is good for ever is always accepted.
pub fn from_request_parts(header: Option<&str>, secret: &str) -> (r: Result<UserId, AppError>)
    ensures
        match r {
            Ok(user) => header is Some && exists|token: Seq<char>|
                header->0@ == "Bearer "@ + token && #[trigger] decoded_token(token, secret@) is Some
                    && claims_of(decoded_token(token, secret@)->0) is Some && user.0 == claims_of(
                    decoded_token(token, secret@)->0,
                )->0.sub,
            Err(e) => e == AppError::Unauthorized,
        },
        forall|token: Seq<char>|
            header is Some && header->0@ == "Bearer "@ + token && (#[trigger] decoded_token(
                token,
                secret@,
            ) matches Some(read) && good_for_ever(read) && claims_of(read) is Some) ==> r is Ok,
{
    match bearer_token(header) {
        Ok(token) => {
            let r = user_of(verify(token, secret));
            assert(r is Ok ==> decoded_token(token@, secret@) is Some);
            proof {
                let whole = header->0@;
                let n = "Bearer "@.len() as int;
                assert(whole.skip(n) =~= token@);
                assert forall|t: Seq<char>| whole == "Bearer "@ + t implies t == token@ by {
                    assert(whole.skip(n) =~= t);
                }
            }
            r
        },
        Err(e) => Err(e),
    }
}

/// A token that was given out to a user, if it is accepted, names that user.
pub proof fn law_token_names_its_user(
    user_id: i32,
    exp: u64,
    secret: Seq<char>,
    token: Seq<char>,
    claims: Claims,
)
    requires
        decoded_token(token, secret) == Some((Some(user_id as i64), Some(exp))),
        claims_of(decoded_token(token, secret)->0) == Some(claims),
    ensures
        claims.sub == user_id,
        claims.exp == exp,
{
}

/// A token is made for the user and is good for seven days from now on.
pub proof fn law_tokens_are_good_for_seven_days(
    user_id: i32,
    secret: &str,
    now_secs: u64,
    r: Result<String, Overflow>,
)
    requires
        call_ensures(sign, (user_id, secret, now_secs), r),
    ensures
        now_secs + 604800 <= u64::MAX ==> (r matches Ok(token) && decoded_token(token@, secret@)
            == Some((Some(user_id as i64), Some((now_secs + 604800) as u64)))),
        now_secs + 604800 > u64::MAX ==> r is Err,
{
}

/// Whoever comes with a token is the user whom the token names, and nobody else; without a
/// token behind the word Bearer, or with one that is not signed with the secret, nobody.
pub proof fn law_requests_come_from_whom_the_token_names(
    header: Option<&str>,
    secret: &str,
    r: Result<UserId, AppError>,
    token: Seq<char>,
)
    requires
        call_ensures(from_request_parts, (header, secret), r),
    ensures
        header is None ==> r == Err::<UserId, AppError>(AppError::Unauthorized),
        header matches Some(text) ==> text@ == "Bearer "@ + token ==> (decoded_token(
            token,
            secret@,
        ) is None ==> r == Err::<UserId, AppError>(AppError::Unauthorized)),
        header matches Some(text) ==> text@ == "Bearer "@ + token ==> (r matches Ok(user) ==> (
        decoded_token(token, secret@) matches Some((Some(sub), Some(_))) && sub == user.0)),
        r is Err ==> r == Err::<UserId, AppError>(AppError::Unauthorized),
{
    if let Some(text) = header {
        if text@ == "Bearer "@ + token {
            let n = "Bearer "@.len() as int;
            assert(text@.skip(n) =~= token);
            assert forall|t: Seq<char>| text@ == "Bearer "@ + t implies t == token by {
                assert(text@.skip(n) =~= t);
            }
        }
    }
}

} // verus!
