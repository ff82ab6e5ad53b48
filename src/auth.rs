//! Authorisation of API requests by the claims of a bearer token.
use vstd::prelude::*;
use base64::Engine;
use crate::errors::MyError;
use crate::text::{pieces, split_str};

verus! {

/// The OAuth client id that tokens must be issued for.
pub const CLIENT_ID: &'static str = "898187078436-49mhvq2bai7te9vjobma6sei8s68iaj9.apps.googleusercontent.com";

/// The user a request was authorised for.
#[derive(Debug)]
pub struct AuthedUser {
    pub email: String,
}

/// The claims of a token that authorisation reads.
#[derive(Debug)]
pub struct Claims {
    pub email: String,
    pub aud: String,
    pub iss: String,
}

/// The bytes that base64 text `s` without padding decodes to.
pub uninterp spec fn base64_decoded(s: Seq<char>) -> Option<Seq<u8>>;

/// Relies on base64's `STANDARD_NO_PAD` engine and `Engine::decode`: the
/// bytes that `s` encodes in the standard alphabet without padding, or
/// nothing when `s` is not such an encoding.
#[verifier::external_body]
fn decode_base64(s: &str) -> (r: Option<Vec<u8>>)
    ensures
        r matches Some(b) ==> base64_decoded(s@) == Some(b@),
        r is None ==> base64_decoded(s@) is None,
{
    base64::engine::general_purpose::STANDARD_NO_PAD.decode(s).ok()
}

/// The text after `Bearer ` in an `Authorization` header.
pub open spec fn bearer_of(header: Seq<char>) -> Option<Seq<char>> {
    if "Bearer "@.len() <= header.len() && header.subrange(0, "Bearer "@.len() as int) == "Bearer "@ {
        Some(header.subrange("Bearer "@.len() as int, header.len() as int))
    } else {
        None
    }
}

/// The token of an `Authorization: Bearer <token>` header.
pub fn bearer_token(header: &str) -> (r: Option<String>)
    ensures
        r matches Some(t) ==> bearer_of(header@) == Some(t@),
        r is None ==> bearer_of(header@) is None,
{
    let n = header.unicode_len();
    let k = "Bearer ".unicode_len();
    if k > n {
        return None;
    }
    if String::from_str(header.substring_char(0, k)) == String::from_str("Bearer ") {
        Some(String::from_str(header.substring_char(k, n)))
    } else {
        None
    }
}

/// The payload of a token of three dot-separated parts, decoded.
pub open spec fn payload_of(token: Seq<char>) -> Option<Seq<u8>> {
    let p = pieces(token, "."@);
    if p.len() < 3 {
        None
    } else {
        base64_decoded(p[1])
    }
}

/// The decoded middle part of a JSON web token. The signature is not
/// checked.
pub fn token_payload(token: &str) -> (r: Result<Vec<u8>, MyError>)
    ensures
        r matches Ok(b) ==> payload_of(token@) == Some(b@),
        r is Err <==> payload_of(token@) is None,
        r matches Err(e) ==> e is Failed,
{
    let parts = split_str(token, ".");
    let ghost pv = parts@.map_values(|p: String| p@);
    if parts.len() < 3 {
        return Err(MyError::Failed(String::from_str("Invalid token")));
    }
    assert(pv[1] == parts@[1]@);
    match decode_base64(parts[1].as_str()) {
        Some(b) => Ok(b),
        None => Err(MyError::Failed(String::from_str("Invalid base64 in token"))),
    }
}

/// `users` lists `email`.
pub open spec fn listed(users: Seq<String>, email: Seq<char>) -> bool {
    exists|i: int| 0 <= i < users.len() && (#[trigger] users[i])@ == email
}

/// Admits the claims of a token when it was issued for this application and
/// its email is among the authorised users.
pub fn authorize(claims: &Claims, authorized_users: &Vec<String>) -> (r: Result<AuthedUser, MyError>)
    ensures
        r is Ok <==> claims.aud@ == CLIENT_ID@ && listed(authorized_users@, claims.email@),
        r matches Ok(u) ==> u.email@ == claims.email@,
        r matches Err(e) ==> e is NotAuthorized,
{
    if claims.aud != String::from_str(CLIENT_ID) {
        return Err(MyError::NotAuthorized);
    }
    let mut i: usize = 0;
    while i < authorized_users.len()
        invariant
            i <= authorized_users.len(),
            forall|m: int| 0 <= m < i ==> (#[trigger] authorized_users@[m])@ != claims.email@,
            claims.aud@ == CLIENT_ID@,
        decreases authorized_users.len() - i,
    {
        if authorized_users[i] == claims.email {
            assert(authorized_users@[i as int]@ == claims.email@);
            return Ok(AuthedUser { email: claims.email.clone() });
        }
        i += 1;
    }
    Err(MyError::NotAuthorized)
}

} // verus!
