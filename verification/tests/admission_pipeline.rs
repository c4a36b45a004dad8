use auth_bridge::admission::{HandlerResult, PolicyHandler};
use auth_bridge::handlers::{HandlerEnum, LogHandler, MultiHandler};
use auth_bridge::pod_meta::{bind, IdentityTable, PodRecord};
use auth_bridge::proxy_policy::{
    eval_policy, OpaValidator, ProxyPolicy, ProxyPolicyAuth, ProxyPolicyMethod, ProxyPolicyRule,
    ProxyPolicySecret, ProxyPolicySpec,
};
use auth_bridge::provider::Provider;
use auth_bridge::request::RequestModel;

fn policy(name: &str, programs: &[&str]) -> ProxyPolicy {
    ProxyPolicy {
        name: name.to_string(),
        spec: ProxyPolicySpec {
            auth: ProxyPolicyAuth {
                method: ProxyPolicyMethod::BasicAuth,
                secret: ProxyPolicySecret { reference: None, raw: None },
            },
            rules: programs
                .iter()
                .enumerate()
                .map(|(i, p)| ProxyPolicyRule {
                    name: format!("r{}", i),
                    validate: OpaValidator(p.to_string()),
                })
                .collect(),
        },
    }
}

fn get_request(uri: &str) -> RequestModel {
    RequestModel {
        method: "GET".to_string(),
        uri: uri.to_string(),
        headers: vec![],
        body: vec![],
    }
}

const ALLOW: &str = "package proxy\n\nallowed = true\n";
const DENY: &str = "package proxy\n\nallowed = false\n";

#[test]
fn connect_passes_through() {
    let table = IdentityTable::new();
    let req = RequestModel {
        method: "CONNECT".to_string(),
        uri: "example.com:443".to_string(),
        headers: vec![],
        body: b"ignored".to_vec(),
    };
    let policies = vec![policy("p", &[DENY])];
    match PolicyHandler.handle_request(&table, &"1.2.3.4".to_string(), &policies, req) {
        HandlerResult::Request(q, plan) => {
            assert!(plan.is_none());
            assert_eq!(q.method, "CONNECT");
            assert_eq!(q.uri, "example.com:443");
            assert_eq!(q.body, b"ignored".to_vec());
        }
        HandlerResult::Response(_) => panic!("CONNECT must pass through"),
    }
}

#[test]
fn empty_policy_set_admits() {
    let table = IdentityTable::new();
    let req = get_request("https://api.example/v1/x?k=1");
    match PolicyHandler.handle_request(&table, &"1.2.3.4".to_string(), &vec![], req) {
        HandlerResult::Request(q, plan) => {
            assert!(plan.is_none());
            assert_eq!(q.uri, "https://api.example/v1/x?k=1");
            assert_eq!(q.body, Vec::<u8>::new());
        }
        HandlerResult::Response(_) => panic!("zero policies must admit"),
    }
}

#[test]
fn denying_policy_yields_403() {
    let table = IdentityTable::new();
    let req = get_request("https://api.example/v1/x?k=1");
    let policies = vec![policy("P", &[DENY])];
    match PolicyHandler.handle_request(&table, &"1.2.3.4".to_string(), &policies, req) {
        HandlerResult::Response(resp) => {
            assert_eq!(resp.status, 403);
            assert_eq!(resp.body, "deny to pass policy: P");
        }
        HandlerResult::Request(..) => panic!("denying policy must respond"),
    }
}

#[test]
fn deny_short_circuits_later_policies() {
    let table = IdentityTable::new();
    let req = get_request("https://api.example/v1/x");
    // The third policy would fail evaluation, but the second denies first.
    let policies = vec![
        policy("first", &[ALLOW]),
        policy("second", &[DENY]),
        policy("third", &["this is not rego"]),
    ];
    match PolicyHandler.handle_request(&table, &"1.2.3.4".to_string(), &policies, req) {
        HandlerResult::Response(resp) => {
            assert_eq!(resp.status, 403);
            assert_eq!(resp.body, "deny to pass policy: second");
        }
        HandlerResult::Request(..) => panic!("expected a response"),
    }
}

#[test]
fn evaluation_error_yields_500() {
    let table = IdentityTable::new();
    let req = get_request("https://api.example/v1/x");
    let policies = vec![policy("broken", &["this is not rego"])];
    match PolicyHandler.handle_request(&table, &"1.2.3.4".to_string(), &policies, req) {
        HandlerResult::Response(resp) => {
            assert_eq!(resp.status, 500);
            assert!(resp.body.starts_with("failed to eval policy: broken, err: "));
        }
        HandlerResult::Request(..) => panic!("expected a response"),
    }
}

#[test]
fn json_body_feeds_policy_input() {
    let mut table = IdentityTable::new();
    bind(
        &mut table,
        &PodRecord {
            name: "w".to_string(),
            namespace: "n".to_string(),
            labels: vec![],
            annotations: vec![],
            pod_ip: Some("10.0.0.9".to_string()),
        },
    );
    let req = RequestModel {
        method: "POST".to_string(),
        uri: "https://api.example/v1/x".to_string(),
        headers: vec![("content-type".to_string(), "application/json".to_string())],
        body: b"{\"u\":\"a\"}".to_vec(),
    };
    let program = "package proxy\n\nallowed = true {\n  input.body.u == \"a\"\n  input.meta.name == \"w\"\n}\n";
    let policies = vec![policy("P", &[program])];
    match PolicyHandler.handle_request(&table, &"10.0.0.9".to_string(), &policies, req) {
        HandlerResult::Request(q, _) => {
            assert_eq!(q.body, b"{\"u\":\"a\"}".to_vec());
        }
        HandlerResult::Response(resp) => {
            panic!("admitting policy must forward, got {}: {}", resp.status, resp.body)
        }
    }
}

#[test]
fn json_body_mismatch_denies() {
    let table = IdentityTable::new();
    let req = RequestModel {
        method: "POST".to_string(),
        uri: "https://api.example/v1/x".to_string(),
        headers: vec![("content-type".to_string(), "application/json".to_string())],
        body: b"{\"u\":\"b\"}".to_vec(),
    };
    let program = "package proxy\n\nallowed = true {\n  input.body.u == \"a\"\n}\n";
    let policies = vec![policy("P", &[program])];
    match PolicyHandler.handle_request(&table, &"1.2.3.4".to_string(), &policies, req) {
        HandlerResult::Response(resp) => {
            assert_eq!(resp.status, 403);
            assert_eq!(resp.body, "deny to pass policy: P");
        }
        HandlerResult::Request(..) => panic!("expected a deny"),
    }
}

#[test]
fn query_values_feed_policy_input() {
    let table = IdentityTable::new();
    let req = get_request("https://api.example/v1/x?k=1&k=2");
    // Last-value-wins for duplicate query keys.
    let program = "package proxy\n\nallowed = true {\n  input.query.k == \"2\"\n}\n";
    let policies = vec![policy("P", &[program])];
    match PolicyHandler.handle_request(&table, &"1.2.3.4".to_string(), &policies, req) {
        HandlerResult::Request(..) => (),
        HandlerResult::Response(resp) => {
            panic!("expected admit, got {}: {}", resp.status, resp.body)
        }
    }
}

#[test]
fn form_body_feeds_policy_input() {
    let table = IdentityTable::new();
    let req = RequestModel {
        method: "POST".to_string(),
        uri: "https://api.example/v1/x".to_string(),
        headers: vec![(
            "Content-Type".to_string(),
            "application/x-www-form-urlencoded".to_string(),
        )],
        body: b"u=a+b&v=%21".to_vec(),
    };
    let program =
        "package proxy\n\nallowed = true {\n  input.body.u == \"a b\"\n  input.body.v == \"!\"\n}\n";
    let policies = vec![policy("P", &[program])];
    match PolicyHandler.handle_request(&table, &"1.2.3.4".to_string(), &policies, req) {
        HandlerResult::Request(..) => (),
        HandlerResult::Response(resp) => {
            panic!("expected admit, got {}: {}", resp.status, resp.body)
        }
    }
}

#[test]
fn malformed_json_yields_400_without_policies() {
    let table = IdentityTable::new();
    let policies = vec![policy("never", &["this is not rego"])];
    let req = RequestModel {
        method: "POST".to_string(),
        uri: "https://api.example/v1/x".to_string(),
        headers: vec![("content-type".to_string(), "application/json".to_string())],
        body: b"{\"u\":".to_vec(),
    };
    match PolicyHandler.handle_request(&table, &"1.2.3.4".to_string(), &policies, req) {
        HandlerResult::Response(resp) => {
            assert_eq!(resp.status, 400);
        }
        HandlerResult::Request(..) => panic!("malformed JSON must be rejected"),
    }
}

#[test]
fn non_utf8_json_body_yields_400() {
    let table = IdentityTable::new();
    let req = RequestModel {
        method: "POST".to_string(),
        uri: "https://api.example/v1/x".to_string(),
        headers: vec![("content-type".to_string(), "application/json".to_string())],
        body: vec![0xff, 0xfe],
    };
    match PolicyHandler.handle_request(&table, &"1.2.3.4".to_string(), &vec![], req) {
        HandlerResult::Response(resp) => assert_eq!(resp.status, 400),
        HandlerResult::Request(..) => panic!("non-UTF-8 JSON must be rejected"),
    }
}

#[test]
fn unknown_content_type_is_empty_body() {
    let table = IdentityTable::new();
    let req = RequestModel {
        method: "POST".to_string(),
        uri: "https://api.example/v1/x".to_string(),
        headers: vec![("content-type".to_string(), "text/plain".to_string())],
        body: b"not { json".to_vec(),
    };
    match PolicyHandler.handle_request(&table, &"1.2.3.4".to_string(), &vec![], req) {
        HandlerResult::Request(..) => (),
        HandlerResult::Response(..) => panic!("unknown content type must not be parsed"),
    }
}

#[test]
fn raw_secret_policy_produces_plan() {
    let table = IdentityTable::new();
    let mut p = policy("P", &[ALLOW]);
    p.spec.auth.secret.raw = Some(vec![("token".to_string(), "t".to_string())]);
    p.spec.auth.method = ProxyPolicyMethod::BearerToken;
    let req = get_request("https://api.example/v1/x");
    match PolicyHandler.handle_request(&table, &"1.2.3.4".to_string(), &vec![p], req) {
        HandlerResult::Request(_, plan) => {
            let plan = plan.expect("configured policy must plan injection");
            assert_eq!(plan.policy_name, "P");
            assert_eq!(plan.method, ProxyPolicyMethod::BearerToken);
            match plan.provider {
                Provider::Raw(data) => {
                    assert_eq!(data, vec![("token".to_string(), "t".to_string())])
                }
                Provider::Kubernetes { .. } => panic!("raw data must stay inline"),
            }
        }
        HandlerResult::Response(..) => panic!("expected a forward"),
    }
}

#[test]
fn eval_policy_empty_rules_admit() {
    let p = policy("P", &[]);
    assert_eq!(eval_policy(&p, &"{}".to_string()), Ok(true));
}

#[test]
fn multi_handler_chain_short_circuits() {
    let table = IdentityTable::new();
    let chain = MultiHandler::new(vec![HandlerEnum::Log, HandlerEnum::Policy]);
    let policies = vec![policy("P", &[DENY])];
    let req = get_request("https://api.example/v1/x");
    match chain.handle_request(&table, &"1.2.3.4".to_string(), &policies, req) {
        HandlerResult::Response(resp) => {
            assert_eq!(resp.status, 403);
            assert_eq!(resp.body, "deny to pass policy: P");
        }
        HandlerResult::Request(..) => panic!("expected the policy handler's response"),
    }
}

#[test]
fn handler_enum_dispatches_by_tag() {
    let table = IdentityTable::new();
    let policies = vec![policy("P", &[DENY])];
    let req = get_request("https://api.example/v1/x");
    match HandlerEnum::Policy.handle_request(&table, &"1.2.3.4".to_string(), &policies, req) {
        HandlerResult::Response(resp) => assert_eq!(resp.status, 403),
        HandlerResult::Request(..) => panic!("expected the policy handler's response"),
    }
    let req = get_request("https://api.example/v1/x");
    match HandlerEnum::Log.handle_request(&table, &"1.2.3.4".to_string(), &policies, req) {
        HandlerResult::Request(_, plan) => assert!(plan.is_none()),
        HandlerResult::Response(..) => panic!("the log handler never responds"),
    }
}

#[test]
fn log_handler_response_is_identity() {
    let resp = auth_bridge::request::ResponseModel { status: 204, body: "done".to_string() };
    let out = LogHandler.handle_response(resp);
    assert_eq!(out.status, 204);
    assert_eq!(out.body, "done");
}

#[test]
fn log_handler_is_identity() {
    let req = get_request("https://api.example/v1/x");
    match LogHandler.handle_request(req) {
        HandlerResult::Request(q, plan) => {
            assert!(plan.is_none());
            assert_eq!(q.uri, "https://api.example/v1/x");
        }
        HandlerResult::Response(..) => panic!("the log handler never responds"),
    }
}
