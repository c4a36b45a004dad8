//! Plain-value models of requests and responses.
//!
//! The intercept engine hands each decrypted request to the handler chain as
//! a method, a URI, a header list and the buffered body bytes; terminal
//! responses carry a status code and a plain-text body.

use vstd::prelude::*;

verus! {

use vstd::string::*;
use crate::strutil::{index_of_first, find_first};

/// One in-flight request as the handler chain sees it.
pub struct RequestModel {
    pub method: String,
    pub uri: String,
    pub headers: Vec<(String, String)>,
    pub body: Vec<u8>,
}

/// A terminal response serialized back to the client.
pub struct ResponseModel {
    pub status: u16,
    pub body: String,
}

/// The query part of a URI: everything after the first `?`.
pub open spec fn uri_query(u: Seq<char>) -> Option<Seq<char>> {
    match index_of_first(u, '?') {
        Some(i) => Some(u.subrange(i + 1, u.len() as int)),
        None => None,
    }
}

/// Extract the query part of `uri`, if it has one.
pub fn query_of_uri(uri: &String) -> (r: Option<String>)
    ensures
        match r {
            Some(q) => uri_query(uri@) == Some(q@),
            None => uri_query(uri@) is None,
        },
{
    let s = uri.as_str();
    match find_first(s, '?') {
        Some(i) => {
            proof {
                crate::strutil::lemma_index_of_first_props(s@, '?');
            }
            let len = s.unicode_len();
            let q = s.substring_char(i + 1, len);
            Some(String::from_str(q))
        }
        None => None,
    }
}

/// A client error about a request that could not be parsed.
pub fn handle_parse_error(err: String) -> (r: ResponseModel)
    ensures
        r.status == 400,
        r.body == err,
{
    ResponseModel { status: 400, body: err }
}

/// A server error about a failed control-plane interaction.
pub fn handle_api_error(err: String) -> (r: ResponseModel)
    ensures
        r.status == 500,
        r.body == err,
{
    ResponseModel { status: 500, body: err }
}

} // verus!
