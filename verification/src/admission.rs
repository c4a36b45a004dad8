//! The admission pipeline.
//!
//! For each intercepted request the policy handler buffers the body, decodes
//! the query string and the body per content type, materializes one JSON
//! input document (with the peer's workload metadata when the identity table
//! resolves it), evaluates every policy in listed order, and either forwards
//! the untouched request — together with the credential-injection plan of
//! the first policy that has a secret source configured — or answers with a
//! terminal response: `400` for bodies that do not parse, `403` naming the
//! first denying policy, `500` for evaluator or configuration failures.

use vstd::prelude::*;

verus! {

use vstd::string::*;
use crate::kv::{Pairs, header_lookup, kv_dedup, header_get, dedup_pairs};
use crate::strutil::{has_prefix, str_eq, str_has_prefix};
use crate::json_text::{json_object, json_string, append_json_object, append_json_string};
use crate::pod_meta::{PodMeta, PodMetaView, IdentityTable, spec_find, find};
use crate::proxy_policy::{ProxyPolicy, ProxyPolicyMethod, spec_eval_policy, eval_policy};
use crate::provider::{Provider, SpecProvider, provider_view, spec_provider, provider};
use crate::request::{RequestModel, ResponseModel, uri_query, query_of_uri, handle_parse_error,
    handle_api_error};

/// Pairs decoded from an `application/x-www-form-urlencoded` byte string, in
/// order of appearance.
pub uninterp spec fn form_pairs_of(bytes: Seq<u8>) -> Seq<(Seq<char>, Seq<char>)>;

/// Relies on url's form_urlencoded::parse: decoding a form-encoded byte
/// string — splitting at `&` and `=`, replacing `+`, percent-decoding — is a
/// function of the bytes alone.
#[verifier::external_body]
pub fn parse_form(bytes: &Vec<u8>) -> (r: Vec<(String, String)>)
    ensures
        r.deep_view() == form_pairs_of(bytes@),
{
    url::form_urlencoded::parse(bytes.as_slice()).into_owned().collect()
}

/// Outcome of decoding bytes as UTF-8 text: the text, or the error text
/// shown to the client.
pub uninterp spec fn utf8_decode_of(bytes: Seq<u8>) -> Result<Seq<char>, Seq<char>>;

/// Relies on std's String::from_utf8: whether the bytes decode, the decoded
/// text, and the rendering of the failure are functions of the bytes alone.
#[verifier::external_body]
fn utf8_string(bytes: &Vec<u8>) -> (r: Result<String, String>)
    ensures
        match (r, utf8_decode_of(bytes@)) {
            (Ok(s), Ok(t)) => s@ == t,
            (Err(e), Err(t)) => e@ == t,
            _ => false,
        },
{
    match String::from_utf8(bytes.clone()) {
        Ok(s) => Ok(s),
        Err(e) => Err(e.to_string()),
    }
}

/// The parser's message for a text that is not valid JSON; `None` when the
/// text parses.
pub uninterp spec fn json_err_of(text: Seq<char>) -> Option<Seq<char>>;

/// Relies on regorus::Value::from_json_str: whether a text parses as JSON,
/// and the message when it does not, are functions of the text alone.
#[verifier::external_body]
fn json_check(text: &String) -> (r: Option<String>)
    ensures
        match (r, json_err_of(text@)) {
            (Some(e), Some(t)) => e@ == t,
            (None, None) => true,
            _ => false,
        },
{
    match regorus::Value::from_json_str(text.as_str()) {
        Ok(_) => None,
        Err(e) => Some(e.to_string()),
    }
}

/// Outcome of decoding a JSON body: its text, or the message for the client.
pub open spec fn spec_parse_json(bytes: Seq<u8>) -> Result<Seq<char>, Seq<char>> {
    match utf8_decode_of(bytes) {
        Err(e) => Err(e),
        Ok(text) => match json_err_of(text) {
            Some(e) => Err(e),
            None => Ok(text),
        },
    }
}

/// Decode a JSON body: UTF-8 decoding, then a parse check.
pub fn parse_json(bytes: &Vec<u8>) -> (r: Result<String, String>)
    ensures
        match (r, spec_parse_json(bytes@)) {
            (Ok(s), Ok(t)) => s@ == t,
            (Err(e), Err(t)) => e@ == t,
            _ => false,
        },
{
    let text = match utf8_string(bytes) {
        Ok(s) => s,
        Err(e) => {
            return Err(e);
        }
    };
    match json_check(&text) {
        Some(e) => Err(e),
        None => Ok(text),
    }
}

/// The query pairs of a URI: the part after `?` decoded as a form, nothing
/// when there is no query.
pub open spec fn spec_query_pairs(uri: Seq<char>) -> Pairs {
    match uri_query(uri) {
        Some(q) => form_pairs_of(vstd::utf8::encode_utf8(q)),
        None => Seq::empty(),
    }
}

/// Decode the query string of `uri` into pairs.
pub fn parse_query(uri: &String) -> (r: Vec<(String, String)>)
    ensures
        r.deep_view() == spec_query_pairs(uri@),
{
    match query_of_uri(uri) {
        Some(q) => {
            let bytes = q.as_str().as_bytes_vec();
            parse_form(&bytes)
        }
        None => {
            let r: Vec<(String, String)> = Vec::new();
            assert(r.deep_view() =~= Seq::<(Seq<char>, Seq<char>)>::empty());
            r
        }
    }
}

/// The evaluator-visible body of a request.
pub enum BodyInput {
    Empty,
    Form(Vec<(String, String)>),
    Json(String),
}

/// Mathematical shape of a `BodyInput`.
pub enum BodyV {
    Empty,
    Form(Pairs),
    Json(Seq<char>),
}

/// View of a body input.
pub open spec fn body_view(b: BodyInput) -> BodyV {
    match b {
        BodyInput::Empty => BodyV::Empty,
        BodyInput::Form(pairs) => BodyV::Form(pairs.deep_view()),
        BodyInput::Json(text) => BodyV::Json(text@),
    }
}

/// How the body is read, by content type: a form is decoded as pairs, JSON
/// must parse, anything else (or no content type) is an empty mapping.
pub open spec fn spec_body_input(headers: Pairs, body: Seq<u8>) -> Result<BodyV, Seq<char>> {
    match header_lookup(headers, "content-type"@) {
        Some(t) => if has_prefix(t, "application/x-www-form-urlencoded"@) {
            Ok(BodyV::Form(form_pairs_of(body)))
        } else if has_prefix(t, "application/json"@) {
            match spec_parse_json(body) {
                Ok(text) => Ok(BodyV::Json(text)),
                Err(e) => Err(e),
            }
        } else {
            Ok(BodyV::Empty)
        },
        None => Ok(BodyV::Empty),
    }
}

/// Decode the request body per its content type.
pub fn body_input(headers: &Vec<(String, String)>, body: &Vec<u8>) -> (r: Result<
    BodyInput,
    String,
>)
    ensures
        match (r, spec_body_input(headers.deep_view(), body@)) {
            (Ok(b), Ok(v)) => body_view(b) == v,
            (Err(e), Err(t)) => e@ == t,
            _ => false,
        },
{
    match header_get(headers, "content-type") {
        Some(t) => {
            if str_has_prefix(t.as_str(), "application/x-www-form-urlencoded") {
                Ok(BodyInput::Form(parse_form(body)))
            } else if str_has_prefix(t.as_str(), "application/json") {
                match parse_json(body) {
                    Ok(text) => Ok(BodyInput::Json(text)),
                    Err(e) => Err(e),
                }
            } else {
                Ok(BodyInput::Empty)
            }
        }
        None => Ok(BodyInput::Empty),
    }
}

/// The metadata fragment of the input document.
pub open spec fn meta_doc(m: PodMetaView) -> Seq<char> {
    "{\"annotations\":"@ + json_object(m.annotations) + ",\"labels\":"@ + json_object(m.labels)
        + ",\"name\":"@ + json_string(m.name) + ",\"namespace\":"@ + json_string(m.namespace)
        + "}"@
}

impl PodMeta {
    /// Render this metadata as the evaluator's `meta` input fragment.
    pub fn as_input(&self) -> (r: String)
        ensures
            r@ == meta_doc(self@),
    {
        let mut out = String::new();
        out.append("{\"annotations\":");
        append_json_object(&mut out, &self.annotations);
        out.append(",\"labels\":");
        append_json_object(&mut out, &self.labels);
        out.append(",\"name\":");
        append_json_string(&mut out, self.name.as_str());
        out.append(",\"namespace\":");
        append_json_string(&mut out, self.namespace.as_str());
        out.append("}");
        assert(out@ =~= meta_doc(self@));
        out
    }
}

/// The body fragment of the input document.
pub open spec fn body_doc(b: BodyV) -> Seq<char> {
    match b {
        BodyV::Empty => "{}"@,
        BodyV::Form(pairs) => json_object(kv_dedup(pairs)),
        BodyV::Json(text) => text,
    }
}

/// The whole input document handed to the evaluator: the decoded body, the
/// peer's metadata when resolved, and the deduplicated query mapping.
pub open spec fn input_doc(query: Pairs, body: BodyV, meta: Option<PodMetaView>) -> Seq<char> {
    match meta {
        Some(m) => "{\"body\":"@ + body_doc(body) + ",\"meta\":"@ + meta_doc(m) + ",\"query\":"@
            + json_object(kv_dedup(query)) + "}"@,
        None => "{\"body\":"@ + body_doc(body) + ",\"query\":"@ + json_object(kv_dedup(query))
            + "}"@,
    }
}

/// View of an optional metadata value.
pub open spec fn meta_view_opt(m: Option<PodMeta>) -> Option<PodMetaView> {
    match m {
        Some(x) => Some(x@),
        None => None,
    }
}

/// Materialize the input document.
pub fn build_input(query: &Vec<(String, String)>, body: &BodyInput, meta: &Option<PodMeta>) -> (r:
    String)
    ensures
        r@ == input_doc(query.deep_view(), body_view(*body), meta_view_opt(*meta)),
{
    let mut out = String::new();
    out.append("{\"body\":");
    match body {
        BodyInput::Empty => out.append("{}"),
        BodyInput::Form(pairs) => {
            let d = dedup_pairs(pairs);
            append_json_object(&mut out, &d);
        }
        BodyInput::Json(text) => out.append(text.as_str()),
    }
    match meta {
        Some(m) => {
            out.append(",\"meta\":");
            let frag = m.as_input();
            out.append(frag.as_str());
        }
        None => (),
    }
    out.append(",\"query\":");
    let dq = dedup_pairs(query);
    append_json_object(&mut out, &dq);
    out.append("}");
    assert(out@ =~= input_doc(query.deep_view(), body_view(*body), meta_view_opt(*meta)));
    out
}

/// The credential work still to do for an admitted request.
pub struct InjectionPlan {
    pub policy_name: String,
    pub method: ProxyPolicyMethod,
    pub provider: Provider,
}

/// What the policy handler hands back: the request to forward together with
/// the injection plan, or a terminal response.
pub enum HandlerResult {
    Request(RequestModel, Option<InjectionPlan>),
    Response(ResponseModel),
}

/// Mathematical shape of an injection plan.
pub struct SpecPlan {
    pub policy_name: Seq<char>,
    pub method: ProxyPolicyMethod,
    pub provider: SpecProvider,
}

/// Mathematical shape of a handler outcome.
pub enum SpecOutcome {
    Forward(Option<SpecPlan>),
    Respond(u16, Seq<char>),
}

/// View of an injection plan.
pub open spec fn plan_view(p: InjectionPlan) -> SpecPlan {
    SpecPlan { policy_name: p.policy_name@, method: p.method, provider: provider_view(p.provider) }
}

/// View of an optional injection plan.
pub open spec fn plan_view_opt(p: Option<InjectionPlan>) -> Option<SpecPlan> {
    match p {
        Some(x) => Some(plan_view(x)),
        None => None,
    }
}

/// View of a handler outcome.
pub open spec fn handler_result_view(r: HandlerResult) -> SpecOutcome {
    match r {
        HandlerResult::Request(_, plan) => SpecOutcome::Forward(plan_view_opt(plan)),
        HandlerResult::Response(resp) => SpecOutcome::Respond(resp.status, resp.body@),
    }
}

/// Verdict of the ordered policy walk.
pub enum SpecVerdict {
    AllPass,
    Deny(Seq<char>),
    Fail(Seq<char>, Seq<char>),
}

/// Walk the policies in listed order against `doc`; the first denying or
/// failing policy decides.
pub open spec fn spec_policies_verdict(policies: Seq<ProxyPolicy>, doc: Seq<char>) -> SpecVerdict
    decreases policies.len(),
{
    if policies.len() == 0 {
        SpecVerdict::AllPass
    } else {
        match spec_eval_policy(policies[0].spec.rules@, doc) {
            Err(e) => SpecVerdict::Fail(policies[0].name@, e),
            Ok(b) => if !b {
                SpecVerdict::Deny(policies[0].name@)
            } else {
                spec_policies_verdict(policies.drop_first(), doc)
            },
        }
    }
}

/// A policy takes part in injection when it declares any secret source.
pub open spec fn spec_configured(p: ProxyPolicy) -> bool {
    p.spec.auth.secret.reference is Some || p.spec.auth.secret.raw is Some
}

/// The injection plan of an admitted request: the first policy with a secret
/// source configured supplies it; none configured means no injection; a
/// malformed source is a configuration error.
pub open spec fn spec_plan(policies: Seq<ProxyPolicy>) -> Result<Option<SpecPlan>, Seq<char>>
    decreases policies.len(),
{
    if policies.len() == 0 {
        Ok(None)
    } else if spec_configured(policies[0]) {
        match spec_provider(policies[0].spec.auth) {
            Ok(p) => Ok(
                Some(
                    SpecPlan {
                        policy_name: policies[0].name@,
                        method: policies[0].spec.auth.method,
                        provider: p,
                    },
                ),
            ),
            Err(e) => Err(e),
        }
    } else {
        spec_plan(policies.drop_first())
    }
}

/// The input document a request is judged against.
pub open spec fn admission_doc(t: IdentityTable, peer: Seq<char>, req: RequestModel) -> Seq<char> {
    let body = match spec_body_input(req.headers.deep_view(), req.body@) {
        Ok(b) => b,
        Err(_) => BodyV::Empty,
    };
    input_doc(spec_query_pairs(req.uri@), body, spec_find(t, peer))
}

/// The whole admission decision for one request.
pub open spec fn spec_admission(
    t: IdentityTable,
    peer: Seq<char>,
    policies: Seq<ProxyPolicy>,
    req: RequestModel,
) -> SpecOutcome {
    if req.method@ == "CONNECT"@ {
        SpecOutcome::Forward(None)
    } else {
        match spec_body_input(req.headers.deep_view(), req.body@) {
            Err(e) => SpecOutcome::Respond(400, e),
            Ok(_) => {
                let doc = admission_doc(t, peer, req);
                match spec_policies_verdict(policies, doc) {
                    SpecVerdict::Deny(name) => SpecOutcome::Respond(
                        403,
                        "deny to pass policy: "@ + name,
                    ),
                    SpecVerdict::Fail(name, e) => SpecOutcome::Respond(
                        500,
                        "failed to eval policy: "@ + name + ", err: "@ + e,
                    ),
                    SpecVerdict::AllPass => match spec_plan(policies) {
                        Ok(p) => SpecOutcome::Forward(p),
                        Err(e) => SpecOutcome::Respond(500, e),
                    },
                }
            }
        }
    }
}

proof fn lemma_verdict_skip(policies: Seq<ProxyPolicy>, doc: Seq<char>, i: int)
    requires
        0 <= i <= policies.len(),
        forall|j: int|
            0 <= j < i ==> spec_eval_policy(policies[j].spec.rules@, doc) == Ok::<bool, Seq<char>>(
                true,
            ),
    ensures
        spec_policies_verdict(policies, doc) == spec_policies_verdict(policies.skip(i), doc),
    decreases i,
{
    if i == 0 {
        assert(policies.skip(0) =~= policies);
    } else {
        let rest = policies.drop_first();
        assert(policies.skip(i) =~= rest.skip(i - 1));
        assert(spec_eval_policy(policies[0].spec.rules@, doc) == Ok::<bool, Seq<char>>(true));
        assert forall|j: int| 0 <= j < i - 1 implies spec_eval_policy(rest[j].spec.rules@, doc)
            == Ok::<bool, Seq<char>>(true) by {
            assert(rest[j] == policies[j + 1]);
        }
        lemma_verdict_skip(rest, doc, i - 1);
    }
}

proof fn lemma_plan_skip(policies: Seq<ProxyPolicy>, i: int)
    requires
        0 <= i <= policies.len(),
        forall|j: int| 0 <= j < i ==> !spec_configured(policies[j]),
    ensures
        spec_plan(policies) == spec_plan(policies.skip(i)),
    decreases i,
{
    if i == 0 {
        assert(policies.skip(0) =~= policies);
    } else {
        let rest = policies.drop_first();
        assert(policies.skip(i) =~= rest.skip(i - 1));
        assert forall|j: int| 0 <= j < i - 1 implies !spec_configured(rest[j]) by {
            assert(rest[j] == policies[j + 1]);
        }
        lemma_plan_skip(rest, i - 1);
    }
}

/// The policy handler: the admission pipeline as one handler of the chain.
#[derive(Clone, Copy, Default)]
pub struct PolicyHandler;

impl PolicyHandler {
    /// Decide one request.  The outcome is exactly `spec_admission` of the
    /// table contents, the peer address, the listed policies and the
    /// request; a forwarded request is handed back untouched.
    pub fn handle_request(
        &self,
        table: &IdentityTable,
        peer_ip: &String,
        policies: &Vec<ProxyPolicy>,
        req: RequestModel,
    ) -> (r: HandlerResult)
        ensures
            handler_result_view(r) == spec_admission(*table, peer_ip@, policies@, req),
            r matches HandlerResult::Request(q, _) ==> q == req,
    {
        if str_eq(req.method.as_str(), "CONNECT") {
            return HandlerResult::Request(req, None);
        }
        let body = match body_input(&req.headers, &req.body) {
            Ok(b) => b,
            Err(e) => {
                return HandlerResult::Response(handle_parse_error(e));
            }
        };
        let query = parse_query(&req.uri);
        let meta = find(table, peer_ip);
        let doc = build_input(&query, &body, &meta);
        assert(doc@ == admission_doc(*table, peer_ip@, req));
        let ghost ps = policies@;
        let mut i: usize = 0;
        while i < policies.len()
            invariant
                ps == policies@,
                i <= ps.len(),
                req.method@ != "CONNECT"@,
                spec_body_input(req.headers.deep_view(), req.body@) is Ok,
                doc@ == admission_doc(*table, peer_ip@, req),
                forall|j: int|
                    0 <= j < i ==> spec_eval_policy(ps[j].spec.rules@, doc@) == Ok::<
                        bool,
                        Seq<char>,
                    >(true),
            decreases ps.len() - i,
        {
            let outcome = eval_policy(&policies[i], &doc);
            proof {
                lemma_verdict_skip(ps, doc@, i as int);
                assert(ps.skip(i as int)[0] == ps[i as int]);
                assert(ps.skip(i as int).drop_first() =~= ps.skip(i + 1));
            }
            match outcome {
                Ok(b) => {
                    if !b {
                        let body = String::from_str("deny to pass policy: ").concat(
                            policies[i].name.as_str(),
                        );
                        assert(body@ =~= "deny to pass policy: "@ + ps[i as int].name@);
                        return HandlerResult::Response(
                            ResponseModel { status: 403, body },
                        );
                    }
                }
                Err(e) => {
                    let body = String::from_str("failed to eval policy: ").concat(
                        policies[i].name.as_str(),
                    ).concat(", err: ").concat(e.as_str());
                    assert(body@ =~= "failed to eval policy: "@ + ps[i as int].name@ + ", err: "@
                        + e@);
                    return HandlerResult::Response(ResponseModel { status: 500, body });
                }
            }
            i += 1;
        }
        proof {
            lemma_verdict_skip(ps, doc@, ps.len() as int);
            assert(ps.skip(ps.len() as int) =~= Seq::<ProxyPolicy>::empty());
        }
        let mut k: usize = 0;
        while k < policies.len()
            invariant
                ps == policies@,
                k <= ps.len(),
                spec_policies_verdict(ps, doc@) == SpecVerdict::AllPass,
                spec_admission(*table, peer_ip@, ps, req) == (match spec_plan(ps) {
                    Ok(p) => SpecOutcome::Forward(p),
                    Err(e) => SpecOutcome::Respond(500, e),
                }),
                forall|j: int| 0 <= j < k ==> !spec_configured(ps[j]),
            decreases ps.len() - k,
        {
            let configured = policies[k].spec.auth.secret.reference.is_some()
                || policies[k].spec.auth.secret.raw.is_some();
            proof {
                lemma_plan_skip(ps, k as int);
                assert(ps.skip(k as int)[0] == ps[k as int]);
                assert(ps.skip(k as int).drop_first() =~= ps.skip(k + 1));
            }
            if configured {
                match provider(&policies[k].spec.auth) {
                    Ok(p) => {
                        let plan = InjectionPlan {
                            policy_name: policies[k].name.clone(),
                            method: policies[k].spec.auth.method,
                            provider: p,
                        };
                        return HandlerResult::Request(req, Some(plan));
                    }
                    Err(e) => {
                        return HandlerResult::Response(handle_api_error(e));
                    }
                }
            }
            k += 1;
        }
        proof {
            lemma_plan_skip(ps, ps.len() as int);
            assert(ps.skip(ps.len() as int) =~= Seq::<ProxyPolicy>::empty());
        }
        HandlerResult::Request(req, None)
    }
}

/// CONNECT pass-through: a CONNECT request is always forwarded, with no
/// injection planned, whatever the table and the policies hold; the handler
/// hands the request itself back untouched.
pub proof fn lemma_connect_pass_through(
    t: IdentityTable,
    peer: Seq<char>,
    policies: Seq<ProxyPolicy>,
    req: RequestModel,
)
    requires
        req.method@ == "CONNECT"@,
    ensures
        spec_admission(t, peer, policies, req) == SpecOutcome::Forward(None),
{
}

/// An empty policy set admits: with no policies and a body that decodes, the
/// request is forwarded and no injection is planned.
pub proof fn lemma_empty_policy_set_admits(
    t: IdentityTable,
    peer: Seq<char>,
    policies: Seq<ProxyPolicy>,
    req: RequestModel,
)
    requires
        policies.len() == 0,
        spec_body_input(req.headers.deep_view(), req.body@) is Ok,
    ensures
        spec_admission(t, peer, policies, req) == SpecOutcome::Forward(None),
{
}

proof fn lemma_verdict_deny(policies: Seq<ProxyPolicy>, doc: Seq<char>, k: int)
    requires
        0 <= k < policies.len(),
        forall|j: int|
            0 <= j < k ==> spec_eval_policy(policies[j].spec.rules@, doc) == Ok::<bool, Seq<char>>(
                true,
            ),
        spec_eval_policy(policies[k].spec.rules@, doc) == Ok::<bool, Seq<char>>(false),
    ensures
        spec_policies_verdict(policies, doc) == SpecVerdict::Deny(policies[k].name@),
        spec_policies_verdict(policies.take(k + 1), doc) == SpecVerdict::Deny(policies[k].name@),
    decreases k,
{
    if k == 0 {
        assert(policies.take(1)[0] == policies[0]);
    } else {
        let rest = policies.drop_first();
        assert(spec_eval_policy(policies[0].spec.rules@, doc) == Ok::<bool, Seq<char>>(true));
        assert forall|j: int| 0 <= j < k - 1 implies spec_eval_policy(rest[j].spec.rules@, doc)
            == Ok::<bool, Seq<char>>(true) by {
            assert(rest[j] == policies[j + 1]);
        }
        assert(rest[k - 1] == policies[k]);
        lemma_verdict_deny(rest, doc, k - 1);
        assert(policies.take(k + 1)[0] == policies[0]);
        assert(policies.take(k + 1).drop_first() =~= rest.take(k));
    }
}

/// Deny short-circuits: when the policies before `k` admit and policy `k`
/// denies, the outcome is a `403` naming policy `k`, and the policies after
/// `k` play no part — the outcome equals that of the list cut after `k`.
pub proof fn lemma_deny_short_circuits(
    t: IdentityTable,
    peer: Seq<char>,
    policies: Seq<ProxyPolicy>,
    req: RequestModel,
    k: int,
)
    requires
        req.method@ != "CONNECT"@,
        spec_body_input(req.headers.deep_view(), req.body@) is Ok,
        0 <= k < policies.len(),
        forall|j: int|
            0 <= j < k ==> spec_eval_policy(
                policies[j].spec.rules@,
                admission_doc(t, peer, req),
            ) == Ok::<bool, Seq<char>>(true),
        spec_eval_policy(policies[k].spec.rules@, admission_doc(t, peer, req)) == Ok::<
            bool,
            Seq<char>,
        >(false),
    ensures
        spec_admission(t, peer, policies, req) == SpecOutcome::Respond(
            403,
            "deny to pass policy: "@ + policies[k].name@,
        ),
        spec_admission(t, peer, policies, req) == spec_admission(t, peer, policies.take(k + 1), req),
{
    let doc = admission_doc(t, peer, req);
    lemma_verdict_deny(policies, doc, k);
    assert(policies.take(k + 1)[k] == policies[k]);
}

/// A body that does not decode is rejected with `400` and the decoder's
/// message before any policy is considered: the outcome is the same for
/// every policy list.
pub proof fn lemma_bad_body_rejected(
    t: IdentityTable,
    peer: Seq<char>,
    policies: Seq<ProxyPolicy>,
    req: RequestModel,
    e: Seq<char>,
)
    requires
        req.method@ != "CONNECT"@,
        spec_body_input(req.headers.deep_view(), req.body@) == Err::<BodyV, Seq<char>>(e),
    ensures
        spec_admission(t, peer, policies, req) == SpecOutcome::Respond(400, e),
{
}

} // verus!
