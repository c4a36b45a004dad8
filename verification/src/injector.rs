//! Credential injection: rewriting an admitted request.
//!
//! The resolved secret bundle is applied to the outgoing request according
//! to the policy's method: a basic-auth or bearer `authorization` header, a
//! custom header from the bundle's first entry, or a query-string pair
//! appended to the URI.  Header names are kept as given — lookups in the
//! request model compare names case-insensitively, and the wire layer
//! normalizes on conversion.

use vstd::prelude::*;

verus! {

use vstd::string::*;
use crate::kv::{Pairs, kv_lookup, kv_get, headers_set, headers_remove, header_set};
use crate::strutil::{lower_code, eq_ascii_ci};
use crate::request::{RequestModel, uri_query};
use crate::proxy_policy::{ProxyPolicy, ProxyPolicyMethod};

/// A character acceptable in a header value: horizontal tab or anything at
/// code 32 and above except delete.  This is the set hyper's header values
/// admit, with every multi-byte character passing.
pub open spec fn valid_header_value_char(c: char) -> bool {
    c == '\t' || (c as int >= 32 && c as int != 127)
}

/// A text acceptable as a header value.
pub open spec fn valid_header_value(s: Seq<char>) -> bool {
    forall|i: int| 0 <= i < s.len() ==> valid_header_value_char(s[i])
}

/// A character acceptable in a header name, up to ASCII case: the token
/// characters hyper's header names admit.
pub open spec fn valid_header_name_char(c: char) -> bool {
    let d = lower_code(c);
    d == 33 || d == 35 || d == 36 || d == 37 || d == 38 || d == 39 || d == 42 || d == 43 || d == 45
        || d == 46 || (48 <= d && d <= 57) || d == 94 || d == 95 || d == 96 || (97 <= d && d
        <= 122) || d == 124 || d == 126
}

/// A nonempty text acceptable as a header name.
pub open spec fn valid_header_name(s: Seq<char>) -> bool {
    s.len() > 0 && (forall|i: int| 0 <= i < s.len() ==> valid_header_name_char(s[i]))
}

/// Check a header value candidate.
pub fn check_header_value(v: &str) -> (r: bool)
    ensures
        r == valid_header_value(v@),
{
    let len = v.unicode_len();
    let mut i: usize = 0;
    while i < len
        invariant
            len == v@.len(),
            i <= len,
            forall|j: int| 0 <= j < i ==> valid_header_value_char(v@[j]),
        decreases len - i,
    {
        let c = v.get_char(i);
        let code = c as u32;
        if !(c == '\t' || (code >= 32 && code != 127)) {
            return false;
        }
        i += 1;
    }
    true
}

/// Check a header name candidate.
pub fn check_header_name(n: &str) -> (r: bool)
    ensures
        r == valid_header_name(n@),
{
    let len = n.unicode_len();
    if len == 0 {
        return false;
    }
    let mut i: usize = 0;
    while i < len
        invariant
            len == n@.len(),
            i <= len,
            forall|j: int| 0 <= j < i ==> valid_header_name_char(n@[j]),
        decreases len - i,
    {
        let c = n.get_char(i);
        let d = crate::strutil::lower_u32(c);
        let ok = d == 33 || d == 35 || d == 36 || d == 37 || d == 38 || d == 39 || d == 42 || d
            == 43 || d == 45 || d == 46 || (48 <= d && d <= 57) || d == 94 || d == 95 || d == 96
            || (97 <= d && d <= 122) || d == 124 || d == 126;
        if !ok {
            return false;
        }
        i += 1;
    }
    true
}

/// The basic-auth header value for a user and a password.
pub uninterp spec fn basic_credentials(user: Seq<char>, pass: Seq<char>) -> Seq<char>;

/// Relies on headers' Authorization::basic and its credentials encoding:
/// the value is `Basic ` followed by the standard base64 of `user:pass`, a
/// function of the two texts alone, and always a valid header value.
#[verifier::external_body]
fn basic_auth_value(user: &String, pass: &String) -> (r: String)
    ensures
        r@ == basic_credentials(user@, pass@),
{
    let auth = headers::Authorization::basic(user.as_str(), pass.as_str());
    let value = headers::authorization::Credentials::encode(&auth.0);
    String::from(value.to_str().unwrap())
}

/// Whether a text parses as a URI.
pub uninterp spec fn uri_ok(u: Seq<char>) -> bool;

/// Relies on hyper's Uri parsing (FromStr): whether a text is accepted is a
/// function of the text alone.
#[verifier::external_body]
fn parse_uri_ok(u: &String) -> (r: bool)
    ensures
        r == uri_ok(u@),
{
    u.as_str().parse::<hyper::Uri>().is_ok()
}

/// What would be changed on the request: a header set to a value, or the
/// URI replaced.
pub enum SpecInjection {
    Header(Seq<char>, Seq<char>),
    Uri(Seq<char>),
}

/// The URI with `key=value` appended to its query, preserving what is there.
pub open spec fn uri_with_query(uri: Seq<char>, key: Seq<char>, value: Seq<char>) -> Seq<char> {
    match uri_query(uri) {
        None => uri + "?"@ + key + "="@ + value,
        Some(q) => if q.len() == 0 {
            uri + key + "="@ + value
        } else {
            uri + "&"@ + key + "="@ + value
        },
    }
}

/// The change a method and a secret bundle demand on a request with the
/// given URI, or the error when the bundle does not fit the method.
pub open spec fn spec_injection(
    method: ProxyPolicyMethod,
    data: Pairs,
    uri: Seq<char>,
) -> Result<SpecInjection, Seq<char>> {
    match method {
        ProxyPolicyMethod::BasicAuth => match kv_lookup(data, "username"@) {
            None => Err("username required"@),
            Some(user) => match kv_lookup(data, "password"@) {
                None => Err("password required"@),
                Some(pass) => Ok(
                    SpecInjection::Header("authorization"@, basic_credentials(user, pass)),
                ),
            },
        },
        ProxyPolicyMethod::BearerToken => match kv_lookup(data, "token"@) {
            None => Err("token required"@),
            Some(token) => if valid_header_value(token) {
                Ok(SpecInjection::Header("authorization"@, "Bearer "@ + token))
            } else {
                Err("invalid bearer token"@)
            },
        },
        ProxyPolicyMethod::CustomHeader => if data.len() == 0 {
            Err("secret is empty"@)
        } else if !valid_header_name(data[0].0) {
            Err("invalid header name"@)
        } else if !valid_header_value(data[0].1) {
            Err("invalid header value"@)
        } else {
            Ok(SpecInjection::Header(data[0].0, data[0].1))
        },
        ProxyPolicyMethod::Query => if data.len() == 0 {
            Err("secret is empty"@)
        } else if uri_ok(uri_with_query(uri, data[0].0, data[0].1)) {
            Ok(SpecInjection::Uri(uri_with_query(uri, data[0].0, data[0].1)))
        } else {
            Err("invalid uri"@)
        },
    }
}

/// The injection contract shared by all methods: on success exactly the
/// demanded change is applied, on failure the request is untouched; the
/// method and the body never change.
pub open spec fn inject_post(
    method: ProxyPolicyMethod,
    data: Pairs,
    pre: RequestModel,
    post: RequestModel,
    r: Result<(), String>,
) -> bool {
    &&& (match spec_injection(method, data, pre.uri@) {
        Ok(SpecInjection::Header(n, v)) => r is Ok && post.headers.deep_view() == headers_set(
            pre.headers.deep_view(),
            n,
            v,
        ) && post.uri@ == pre.uri@,
        Ok(SpecInjection::Uri(u)) => r is Ok && post.uri@ == u && post.headers.deep_view()
            == pre.headers.deep_view(),
        Err(e) => (r matches Err(e2) && e2@ == e) && post.headers.deep_view()
            == pre.headers.deep_view() && post.uri@ == pre.uri@,
    })
    &&& post.body == pre.body
    &&& post.method == pre.method
}

/// Applies `Authorization: Basic base64(username:password)`.
pub struct BasicAuthInjector;

impl BasicAuthInjector {
    /// Inject basic-auth credentials from the bundle's `username` and
    /// `password` keys.
    pub fn inject(&self, data: &Vec<(String, String)>, request: &mut RequestModel) -> (r: Result<
        (),
        String,
    >)
        ensures
            inject_post(
                ProxyPolicyMethod::BasicAuth,
                data.deep_view(),
                *old(request),
                *final(request),
                r,
            ),
    {
        let user = match kv_get(data, "username") {
            Some(u) => u,
            None => {
                return Err(String::from_str("username required"));
            }
        };
        let pass = match kv_get(data, "password") {
            Some(p) => p,
            None => {
                return Err(String::from_str("password required"));
            }
        };
        let value = basic_auth_value(&user, &pass);
        header_set(&mut request.headers, String::from_str("authorization"), value);
        Ok(())
    }
}

/// Applies `Authorization: Bearer <token>`.
pub struct BearerTokenInjector;

impl BearerTokenInjector {
    /// Inject a bearer token from the bundle's `token` key.
    pub fn inject(&self, data: &Vec<(String, String)>, request: &mut RequestModel) -> (r: Result<
        (),
        String,
    >)
        ensures
            inject_post(
                ProxyPolicyMethod::BearerToken,
                data.deep_view(),
                *old(request),
                *final(request),
                r,
            ),
    {
        let token = match kv_get(data, "token") {
            Some(t) => t,
            None => {
                return Err(String::from_str("token required"));
            }
        };
        if !check_header_value(token.as_str()) {
            return Err(String::from_str("invalid bearer token"));
        }
        let value = String::from_str("Bearer ").concat(token.as_str());
        header_set(&mut request.headers, String::from_str("authorization"), value);
        Ok(())
    }
}

/// Applies the bundle's first entry as a header.
pub struct CustomHeaderInjector;

impl CustomHeaderInjector {
    /// Inject the first entry of the bundle as `<key>: <value>`.
    pub fn inject(&self, data: &Vec<(String, String)>, request: &mut RequestModel) -> (r: Result<
        (),
        String,
    >)
        ensures
            inject_post(
                ProxyPolicyMethod::CustomHeader,
                data.deep_view(),
                *old(request),
                *final(request),
                r,
            ),
    {
        if data.len() == 0 {
            return Err(String::from_str("secret is empty"));
        }
        assert(data.deep_view()[0] == (data@[0].0@, data@[0].1@));
        let key = data[0].0.clone();
        let value = data[0].1.clone();
        if !check_header_name(key.as_str()) {
            return Err(String::from_str("invalid header name"));
        }
        if !check_header_value(value.as_str()) {
            return Err(String::from_str("invalid header value"));
        }
        header_set(&mut request.headers, key, value);
        Ok(())
    }
}

/// Appends the bundle's first entry to the URI query.
pub struct QueryInjector;

impl QueryInjector {
    /// Append the first entry of the bundle as `key=value` to the query,
    /// preserving any existing query and not deduplicating.
    pub fn inject(&self, data: &Vec<(String, String)>, request: &mut RequestModel) -> (r: Result<
        (),
        String,
    >)
        ensures
            inject_post(
                ProxyPolicyMethod::Query,
                data.deep_view(),
                *old(request),
                *final(request),
                r,
            ),
    {
        if data.len() == 0 {
            return Err(String::from_str("secret is empty"));
        }
        assert(data.deep_view()[0] == (data@[0].0@, data@[0].1@));
        let key = data[0].0.clone();
        let value = data[0].1.clone();
        let base = request.uri.clone();
        let new_uri = match crate::request::query_of_uri(&base) {
            None => base.concat("?").concat(key.as_str()).concat("=").concat(value.as_str()),
            Some(q) => {
                if q.as_str().unicode_len() == 0 {
                    base.concat(key.as_str()).concat("=").concat(value.as_str())
                } else {
                    base.concat("&").concat(key.as_str()).concat("=").concat(value.as_str())
                }
            }
        };
        assert(new_uri@ =~= uri_with_query(old(request).uri@, data.deep_view()[0].0,
            data.deep_view()[0].1));
        if !parse_uri_ok(&new_uri) {
            return Err(String::from_str("invalid uri"));
        }
        request.uri = new_uri;
        Ok(())
    }
}

/// Apply the policy's injection method to the request with the resolved
/// bundle.  The bundle's pairs stand in the secret's key order.
pub fn inject(request: &mut RequestModel, policy: &ProxyPolicy, data: &Vec<(String, String)>) -> (r:
    Result<(), String>)
    ensures
        inject_post(
            policy.spec.auth.method,
            data.deep_view(),
            *old(request),
            *final(request),
            r,
        ),
{
    match policy.spec.auth.method {
        ProxyPolicyMethod::BasicAuth => BasicAuthInjector.inject(data, request),
        ProxyPolicyMethod::BearerToken => BearerTokenInjector.inject(data, request),
        ProxyPolicyMethod::CustomHeader => CustomHeaderInjector.inject(data, request),
        ProxyPolicyMethod::Query => QueryInjector.inject(data, request),
    }
}

proof fn lemma_remove_push_same(h: Pairs, n: Seq<char>, n2: Seq<char>, v: Seq<char>)
    requires
        eq_ascii_ci(n2, n),
    ensures
        headers_remove(h.push((n2, v)), n) == headers_remove(h, n),
{
    assert(h.push((n2, v)).drop_last() =~= h);
}

proof fn lemma_remove_idempotent(h: Pairs, n: Seq<char>)
    ensures
        headers_remove(headers_remove(h, n), n) == headers_remove(h, n),
    decreases h.len(),
{
    if h.len() > 0 {
        lemma_remove_idempotent(h.drop_last(), n);
        if !eq_ascii_ci(h.last().0, n) {
            let rest = headers_remove(h.drop_last(), n);
            assert(rest.push(h.last()).drop_last() =~= rest);
        }
    }
}

/// Setting a header twice to the same value equals setting it once.
pub proof fn lemma_header_set_idempotent(h: Pairs, n: Seq<char>, v: Seq<char>)
    ensures
        headers_set(headers_set(h, n, v), n, v) == headers_set(h, n, v),
{
    assert(eq_ascii_ci(n, n));
    lemma_remove_push_same(headers_remove(h, n), n, n, v);
    lemma_remove_idempotent(h, n);
}

/// Injection idempotence for BasicAuth and BearerToken: the demanded change
/// does not depend on the URI, and applying the same header twice leaves
/// the same headers as applying it once.
pub proof fn lemma_injection_idempotent(
    method: ProxyPolicyMethod,
    data: Pairs,
    uri1: Seq<char>,
    uri2: Seq<char>,
    h: Pairs,
)
    requires
        method is BasicAuth || method is BearerToken,
    ensures
        spec_injection(method, data, uri1) == spec_injection(method, data, uri2),
        spec_injection(method, data, uri1) matches Ok(SpecInjection::Header(n, v))
            ==> headers_set(headers_set(h, n, v), n, v) == headers_set(h, n, v),
{
    match spec_injection(method, data, uri1) {
        Ok(SpecInjection::Header(n, v)) => {
            lemma_header_set_idempotent(h, n, v);
        }
        _ => (),
    }
}

/// Body round-trip: whatever the method, the bundle and the outcome,
/// injection leaves the request body byte-identical; together with the
/// handler chain handing a forwarded request back untouched, the bytes sent
/// upstream are the bytes received.
pub proof fn lemma_body_round_trip(
    method: ProxyPolicyMethod,
    data: Pairs,
    pre: RequestModel,
    post: RequestModel,
    r: Result<(), String>,
)
    requires
        inject_post(method, data, pre, post, r),
    ensures
        post.body == pre.body,
{
}

/// A bundle without the required `username` key makes basic-auth injection
/// fail, with the request untouched.
pub proof fn lemma_missing_key_errors(data: Pairs, uri: Seq<char>)
    requires
        kv_lookup(data, "username"@) is None,
    ensures
        spec_injection(ProxyPolicyMethod::BasicAuth, data, uri) == Err::<SpecInjection, Seq<char>>(
            "username required"@,
        ),
{
}

/// Query injection preserves the prior query: for a URI with a nonempty
/// query `q`, the new URI is the old one with `&key=value` appended.
pub proof fn lemma_query_injection_preserves_query(
    uri: Seq<char>,
    data: Pairs,
    q: Seq<char>,
)
    requires
        uri_query(uri) == Some(q),
        q.len() > 0,
        data.len() > 0,
        uri_ok(uri_with_query(uri, data[0].0, data[0].1)),
    ensures
        spec_injection(ProxyPolicyMethod::Query, data, uri) == Ok::<SpecInjection, Seq<char>>(
            SpecInjection::Uri(uri + "&"@ + data[0].0 + "="@ + data[0].1),
        ),
{
}

} // verus!
