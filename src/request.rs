use vstd::prelude::*;
use vstd::string::*;

use crate::db_store::{Store, StoreView};
use crate::types::{clone_opt, opt_view, Meta};

verus! {

/// The user that the management API authenticates: there is one operator.
pub const API_UID: i32 = 0;

/// Header names and values as text.
pub open spec fn pairs_view(headers: Seq<(String, String)>) -> Seq<(Seq<char>, Seq<char>)> {
    headers.map_values(|p: (String, String)| (p.0@, p.1@))
}

/// The JSON text of an object that maps each header name to its value.
pub uninterp spec fn headers_json(headers: Seq<(Seq<char>, Seq<char>)>) -> Seq<char>;

/// Relies on serde_json: the pairs go, in order, into a `serde_json::Map`
/// of string values (a later pair of the same name replaces an earlier one),
/// and `serde_json::to_string` writes that map. The text depends on the pairs
/// alone. `to_string` fails only where a `Serialize` impl fails or a map key
/// is not a string, and neither holds of a map from strings to strings, so
/// the result is always `Some`.
#[verifier::external_body]
fn headers_json_text(headers: &Vec<(String, String)>) -> (r: Option<String>)
    ensures
        r is Some,
        r matches Some(s) ==> s@ == headers_json(pairs_view(headers@)),
{
    let mut map = serde_json::Map::new();
    for (name, value) in headers.iter() {
        map.insert(name.clone(), serde_json::Value::String(value.clone()));
    }
    serde_json::to_string(&map).ok()
}

/// The request headers serialised as one JSON object.
pub fn convert_header_to_string(headers: &Vec<(String, String)>) -> (r: Option<String>)
    ensures
        r matches Some(s) && s@ == headers_json(pairs_view(headers@)),
{
    headers_json_text(headers)
}

/// The metadata recorded for a request from `address` with `headers`.
pub fn request_meta(address: &Option<String>, headers: &Vec<(String, String)>) -> (r: Meta)
    ensures
        opt_view(r.address) == opt_view(*address),
        r.header matches Some(h) && h@ == headers_json(pairs_view(headers@)),
{
    Meta { address: clone_opt(address), header: convert_header_to_string(headers) }
}

/// Whether `token` is a key of the operator.
pub fn authorize_token(store: &Store, token: &str) -> (r: bool)
    ensures
        r == store@.key_matches(API_UID, token@),
{
    store.check_api_key(API_UID, token)
}

/// Why the management API turned a request away.
#[derive(Debug, Clone, Copy, PartialEq, Eq, Structural)]
pub enum RejectionKind {
    NotFound,
    Unauthorized,
    InvalidParameter,
    MethodNotAllowed,
    Other,
}

/// The status that answers each kind of rejection.
pub open spec fn rejection_status(kind: RejectionKind) -> u16 {
    match kind {
        RejectionKind::NotFound => 404,
        RejectionKind::Unauthorized => 401,
        RejectionKind::InvalidParameter => 400,
        RejectionKind::MethodNotAllowed => 405,
        RejectionKind::Other => 500,
    }
}

/// The body that answers each kind of rejection.
pub open spec fn rejection_text(kind: RejectionKind) -> &'static str {
    match kind {
        RejectionKind::NotFound => "NOT_FOUND",
        RejectionKind::Unauthorized => "UNAUTHORIZED",
        RejectionKind::InvalidParameter => "BAD_REQUEST",
        RejectionKind::MethodNotAllowed => "METHOD_NOT_ALLOWED",
        RejectionKind::Other => "INTERNAL_SERVER_ERROR",
    }
}

/// The status and body that answer a rejected request.
pub fn rejection_reply(kind: RejectionKind) -> (r: (u16, String))
    ensures
        r.0 == rejection_status(kind),
        r.1@ == rejection_text(kind)@,
{
    match kind {
        RejectionKind::NotFound => (404, String::from_str("NOT_FOUND")),
        RejectionKind::Unauthorized => (401, String::from_str("UNAUTHORIZED")),
        RejectionKind::InvalidParameter => (400, String::from_str("BAD_REQUEST")),
        RejectionKind::MethodNotAllowed => (405, String::from_str("METHOD_NOT_ALLOWED")),
        RejectionKind::Other => (500, String::from_str("INTERNAL_SERVER_ERROR")),
    }
}

} // verus!
