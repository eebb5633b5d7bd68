//! The requests sent to the heating service: their addresses, bodies and the
//! authorization header, and reading the login reply.
use vstd::prelude::*;
use crate::json::{json_quoted, json_string_of, member_text, json_member_text};

verus! {

#[verifier::external_type_specification]
#[verifier::external_body]
pub struct ExHeaderValue(http::HeaderValue);

#[verifier::external_type_specification]
#[verifier::external_body]
pub struct ExInvalidHeaderValue(http::header::InvalidHeaderValue);

/// The root of the service's API.
pub const API_ENDPOINT: &'static str = "https://beekeeper.hivehome.com/1.0/";

/// Whether a character may stand in an HTTP header value: tab, or any character
/// but the other control characters below 32 and DEL.
pub open spec fn header_char_ok(c: char) -> bool {
    c == '\t' || (c as u32 >= 32 && c as u32 != 127)
}

pub open spec fn header_text_ok(s: Seq<char>) -> bool {
    forall|i: int| 0 <= i < s.len() ==> header_char_ok(#[trigger] s[i])
}

/// A token that cannot be sent in the `Authorization` header.
#[derive(Clone, Copy, Debug, PartialEq, Eq, Structural)]
pub enum RequestError {
    InvalidToken,
}

/// Relies on http::HeaderValue::from_str: it accepts text exactly when every
/// byte is a tab, or at least 32 and not 127. Every byte of a character beyond
/// ASCII is at least 128.
#[verifier::external_body]
fn header_value(s: &str) -> (r: Result<http::HeaderValue, http::header::InvalidHeaderValue>)
    ensures
        r is Ok <==> header_text_ok(s@),
{
    http::HeaderValue::from_str(s)
}

/// The value of the `Authorization` header for a token.
pub fn authorization_value(token: &str) -> (r: Result<http::HeaderValue, RequestError>)
    ensures
        r is Ok <==> header_text_ok(token@),
        r matches Err(e) ==> e == RequestError::InvalidToken,
{
    match header_value(token) {
        Ok(v) => Ok(v),
        Err(_) => Err(RequestError::InvalidToken),
    }
}

pub open spec fn login_url_text() -> Seq<char> {
    API_ENDPOINT@ + "global/login"@
}

pub open spec fn products_url_text() -> Seq<char> {
    API_ENDPOINT@ + "products?after="@
}

pub open spec fn logout_url_text() -> Seq<char> {
    API_ENDPOINT@ + "auth/logout"@
}

pub open spec fn target_url_text(id: Seq<char>) -> Seq<char> {
    API_ENDPOINT@ + "nodes/heating/"@ + id
}

pub open spec fn login_body_text(username: Seq<char>, password: Seq<char>) -> Seq<char> {
    "{\"username\":"@ + json_string_of(username) + ",\"password\":"@ + json_string_of(password)
        + ",\"devices\":true,\"products\":true,\"actions\":true,\"homes\":true}"@
}

pub open spec fn target_body_text(number: Seq<char>) -> Seq<char> {
    "{\"target\":"@ + number + "}"@
}

/// Where to log in.
pub fn login_url() -> (r: String)
    ensures
        r@ == login_url_text(),
{
    String::from_str(API_ENDPOINT).concat("global/login")
}

/// Where to list the account's devices.
pub fn products_url() -> (r: String)
    ensures
        r@ == products_url_text(),
{
    String::from_str(API_ENDPOINT).concat("products?after=")
}

/// Where to log out.
pub fn logout_url() -> (r: String)
    ensures
        r@ == logout_url_text(),
{
    String::from_str(API_ENDPOINT).concat("auth/logout")
}

/// Where to send a heating device its new target.
pub fn target_url(device_id: &str) -> (r: String)
    ensures
        r@ == target_url_text(device_id@),
{
    String::from_str(API_ENDPOINT).concat("nodes/heating/").concat(device_id)
}

/// The login request's body, asking for devices, products, actions and homes.
pub fn login_body(username: &str, password: &str) -> (r: String)
    ensures
        r@ == login_body_text(username@, password@),
{
    let u = json_quoted(username);
    let p = json_quoted(password);
    String::from_str("{\"username\":").concat(u.as_str()).concat(",\"password\":").concat(
        p.as_str(),
    ).concat(",\"devices\":true,\"products\":true,\"actions\":true,\"homes\":true}")
}

/// The body that sets a target, given as JSON number text: `21.5` gives
/// `{"target":21.5}`.
pub fn target_body(number: &str) -> (r: String)
    ensures
        r@ == target_body_text(number@),
{
    String::from_str("{\"target\":").concat(number).concat("}")
}

/// The token of a login reply: its top-level `token` string. Where the reply
/// is not JSON or has no `token` string, the error holds the raw reply.
pub fn token_from_reply(reply: &str) -> (r: Result<String, String>)
    ensures
        r is Ok <==> json_member_text(reply@, "token"@) is Some,
        r matches Ok(t) ==> json_member_text(reply@, "token"@) == Some(t@),
        r matches Err(raw) ==> raw@ == reply@,
{
    match member_text(reply, "token") {
        Some(t) => Ok(t),
        None => Err(String::from_str(reply)),
    }
}

} // verus!
