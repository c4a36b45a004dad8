use auth_bridge::admission::{parse_form, parse_json, parse_query};
use auth_bridge::kv::{dedup_pairs, header_get, header_set, kv_get};
use auth_bridge::pod_meta::PodMeta;
use auth_bridge::provider::{provider, Provider};
use auth_bridge::proxy_policy::{ProxyPolicyAuth, ProxyPolicyMethod, ProxyPolicySecret, SecretReference};
use auth_bridge::request::query_of_uri;

fn pairs(entries: &[(&str, &str)]) -> Vec<(String, String)> {
    entries.iter().map(|(k, v)| (k.to_string(), v.to_string())).collect()
}

#[test]
fn form_decoding_percent_and_plus() {
    let decoded = parse_form(&b"a=1&b=%21&c=x+y".to_vec());
    assert_eq!(decoded, pairs(&[("a", "1"), ("b", "!"), ("c", "x y")]));
}

#[test]
fn query_extraction_and_decoding() {
    assert_eq!(query_of_uri(&"https://h/p?a=1&b=2".to_string()), Some("a=1&b=2".to_string()));
    assert_eq!(query_of_uri(&"https://h/p".to_string()), None);
    let decoded = parse_query(&"https://h/p?a=1&a=2&b=3".to_string());
    assert_eq!(decoded, pairs(&[("a", "1"), ("a", "2"), ("b", "3")]));
}

#[test]
fn dedup_is_last_value_wins() {
    let deduped = dedup_pairs(&pairs(&[("a", "1"), ("b", "x"), ("a", "2")]));
    assert_eq!(deduped, pairs(&[("a", "2"), ("b", "x")]));
}

#[test]
fn json_parse_check() {
    assert_eq!(parse_json(&b"{\"u\":\"a\"}".to_vec()), Ok("{\"u\":\"a\"}".to_string()));
    assert!(parse_json(&b"{\"u\":".to_vec()).is_err());
    assert!(parse_json(&vec![0xff]).is_err());
}

#[test]
fn header_lookup_is_case_insensitive_first_match() {
    let headers = pairs(&[("Content-Type", "application/json"), ("content-type", "text/plain")]);
    assert_eq!(header_get(&headers, "content-type"), Some("application/json".to_string()));
    assert_eq!(header_get(&headers, "CONTENT-TYPE"), Some("application/json".to_string()));
    assert_eq!(header_get(&headers, "accept"), None);
}

#[test]
fn header_set_replaces_all_matches() {
    let mut headers = pairs(&[("Authorization", "old"), ("accept", "*/*"), ("authorization", "older")]);
    header_set(&mut headers, "authorization".to_string(), "new".to_string());
    assert_eq!(headers, pairs(&[("accept", "*/*"), ("authorization", "new")]));
}

#[test]
fn kv_get_takes_first_exact_match() {
    let data = pairs(&[("username", "u1"), ("username", "u2")]);
    assert_eq!(kv_get(&data, "username"), Some("u1".to_string()));
    assert_eq!(kv_get(&data, "Username"), None);
}

#[test]
fn meta_input_fragment_is_sorted_and_escaped() {
    let meta = PodMeta {
        name: "w\"1".to_string(),
        namespace: "n".to_string(),
        labels: pairs(&[("app", "demo")]),
        annotations: vec![],
    };
    assert_eq!(
        meta.as_input(),
        "{\"annotations\":{},\"labels\":{\"app\":\"demo\"},\"name\":\"w\\\"1\",\"namespace\":\"n\"}"
    );
}

#[test]
fn control_characters_are_escaped() {
    let meta = PodMeta {
        name: "a\nb".to_string(),
        namespace: "c\\d".to_string(),
        labels: vec![],
        annotations: vec![],
    };
    assert_eq!(
        meta.as_input(),
        "{\"annotations\":{},\"labels\":{},\"name\":\"a\\u000ab\",\"namespace\":\"c\\\\d\"}"
    );
}

#[test]
fn provider_from_raw_data() {
    let auth = ProxyPolicyAuth {
        method: ProxyPolicyMethod::BasicAuth,
        secret: ProxyPolicySecret { reference: None, raw: Some(pairs(&[("k", "v")])) },
    };
    match provider(&auth).unwrap() {
        Provider::Raw(data) => assert_eq!(data, pairs(&[("k", "v")])),
        Provider::Kubernetes { .. } => panic!("raw secret must stay inline"),
    }
}

#[test]
fn provider_from_reference() {
    let auth = ProxyPolicyAuth {
        method: ProxyPolicyMethod::BasicAuth,
        secret: ProxyPolicySecret {
            reference: Some(SecretReference {
                namespace: Some("ns".to_string()),
                name: Some("s".to_string()),
            }),
            raw: None,
        },
    };
    match provider(&auth).unwrap() {
        Provider::Kubernetes { namespace, name } => {
            assert_eq!(namespace, "ns");
            assert_eq!(name, "s");
        }
        Provider::Raw(..) => panic!("reference must resolve to a fetch"),
    }
}

#[test]
fn provider_reference_requires_namespace_and_name() {
    let auth = ProxyPolicyAuth {
        method: ProxyPolicyMethod::BasicAuth,
        secret: ProxyPolicySecret {
            reference: Some(SecretReference { namespace: None, name: Some("s".to_string()) }),
            raw: None,
        },
    };
    assert_eq!(provider(&auth).unwrap_err(), "namespace required");
    let auth = ProxyPolicyAuth {
        method: ProxyPolicyMethod::BasicAuth,
        secret: ProxyPolicySecret {
            reference: Some(SecretReference { namespace: Some("ns".to_string()), name: None }),
            raw: None,
        },
    };
    assert_eq!(provider(&auth).unwrap_err(), "name required");
}

#[test]
fn provider_rejects_none_and_both() {
    let neither = ProxyPolicyAuth {
        method: ProxyPolicyMethod::BasicAuth,
        secret: ProxyPolicySecret { reference: None, raw: None },
    };
    assert!(provider(&neither).is_err());
    let both = ProxyPolicyAuth {
        method: ProxyPolicyMethod::BasicAuth,
        secret: ProxyPolicySecret {
            reference: Some(SecretReference {
                namespace: Some("ns".to_string()),
                name: Some("s".to_string()),
            }),
            raw: Some(pairs(&[("k", "v")])),
        },
    };
    assert!(provider(&both).is_err());
}

#[test]
fn default_method_is_basic_auth() {
    assert_eq!(ProxyPolicyMethod::default(), ProxyPolicyMethod::BasicAuth);
}
