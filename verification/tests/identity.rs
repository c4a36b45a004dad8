use auth_bridge::pod_meta::{
    apply_event, bind, bind_all, find, unbind, IdentityTable, PodEvent, PodMeta, PodRecord,
};

fn record(name: &str, ns: &str, ip: Option<&str>) -> PodRecord {
    PodRecord {
        name: name.to_string(),
        namespace: ns.to_string(),
        labels: vec![("app".to_string(), name.to_string())],
        annotations: vec![],
        pod_ip: ip.map(|s| s.to_string()),
    }
}

#[test]
fn bind_then_find() {
    let mut table = IdentityTable::new();
    bind(&mut table, &record("w1", "ns", Some("10.0.0.1")));
    let meta = find(&table, &"10.0.0.1".to_string()).expect("bound address resolves");
    assert_eq!(meta.name, "w1");
    assert_eq!(meta.namespace, "ns");
    assert_eq!(meta.labels, vec![("app".to_string(), "w1".to_string())]);
    assert!(find(&table, &"10.0.0.2".to_string()).is_none());
}

#[test]
fn find_is_repeatable() {
    let mut table = IdentityTable::new();
    bind(&mut table, &record("w1", "ns", Some("10.0.0.1")));
    let a = find(&table, &"10.0.0.1".to_string()).unwrap();
    let b = find(&table, &"10.0.0.1".to_string()).unwrap();
    assert_eq!(a.name, b.name);
    assert_eq!(a.namespace, b.namespace);
    assert_eq!(a.labels, b.labels);
    assert_eq!(a.annotations, b.annotations);
}

#[test]
fn bind_without_address_is_ignored() {
    let mut table = IdentityTable::new();
    bind(&mut table, &record("w1", "ns", None));
    assert!(find(&table, &"".to_string()).is_none());
}

#[test]
fn bind_replaces_entry_for_address() {
    let mut table = IdentityTable::new();
    bind(&mut table, &record("w1", "ns", Some("10.0.0.1")));
    bind(&mut table, &record("w2", "ns", Some("10.0.0.1")));
    let meta = find(&table, &"10.0.0.1".to_string()).unwrap();
    assert_eq!(meta.name, "w2");
}

#[test]
fn unbind_removes_entry() {
    let mut table = IdentityTable::new();
    bind(&mut table, &record("w1", "ns", Some("10.0.0.1")));
    unbind(&mut table, &record("w1", "ns", Some("10.0.0.1")));
    assert!(find(&table, &"10.0.0.1".to_string()).is_none());
}

#[test]
fn bind_all_agrees_with_snapshot() {
    let mut table = IdentityTable::new();
    bind(&mut table, &record("old", "ns", Some("10.0.0.9")));
    let snapshot = vec![
        record("w1", "ns", Some("10.0.0.1")),
        record("w2", "ns", Some("10.0.0.2")),
        record("w3", "ns", None),
    ];
    bind_all(&mut table, &snapshot);
    assert_eq!(find(&table, &"10.0.0.1".to_string()).unwrap().name, "w1");
    assert_eq!(find(&table, &"10.0.0.2".to_string()).unwrap().name, "w2");
    assert!(find(&table, &"10.0.0.9".to_string()).is_none());
}

#[test]
fn restart_then_delete() {
    let mut table = IdentityTable::new();
    apply_event(
        &mut table,
        &PodEvent::Restarted(vec![record("w1", "ns", Some("10.0.0.1"))]),
    );
    assert_eq!(find(&table, &"10.0.0.1".to_string()).unwrap().name, "w1");
    apply_event(&mut table, &PodEvent::Deleted(record("w1", "ns", Some("10.0.0.1"))));
    assert!(find(&table, &"10.0.0.1".to_string()).is_none());
}

#[test]
fn meta_from_record_copies_fields() {
    let meta = PodMeta::from(&record("w", "n", Some("10.0.0.1")));
    assert_eq!(meta.name, "w");
    assert_eq!(meta.namespace, "n");
    assert_eq!(meta.labels, vec![("app".to_string(), "w".to_string())]);
    assert!(meta.annotations.is_empty());
}
