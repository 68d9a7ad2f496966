use coxswain::backend_tls::{
    build_tls_config, stable_hash, BackendCaSource, BackendTlsPolicy, CaCertificateRef, ConfigMap,
    PolicyKey, PolicyTargetRef,
};
use coxswain::backend_tls_index::build_backend_tls_index;
use coxswain::resources::{ObjectKey, ObjectMeta};
use coxswain::table::Table;

const PEM: &str = "-----BEGIN CERTIFICATE-----\nabc\n-----END CERTIFICATE-----";

fn ca(kind: &str, group: &str, name: &str) -> CaCertificateRef {
    CaCertificateRef { group: group.to_string(), kind: kind.to_string(), name: name.to_string() }
}

fn text_map(key: &str, pem: &str) -> ConfigMap {
    let mut data = Table::new();
    data.insert(key.to_string(), pem.to_string());
    ConfigMap { data: Some(data), binary_data: None }
}

fn maps() -> Table<ObjectKey, ConfigMap> {
    let mut t = Table::new();
    t.insert(ObjectKey::new("ns", "good"), text_map("ca.crt", PEM));
    t.insert(ObjectKey::new("ns", "bad"), text_map("ca.crt", "nonsense"));
    t.insert(ObjectKey::new("ns", "empty"), text_map("other", PEM));
    let mut bin = Table::new();
    bin.insert("ca.crt".to_string(), PEM.as_bytes().to_vec());
    t.insert(ObjectKey::new("ns", "binary"), ConfigMap { data: None, binary_data: Some(bin) });
    let mut bin = Table::new();
    bin.insert("ca.crt".to_string(), vec![1, 2, 3]);
    t.insert(ObjectKey::new("ns", "raw"), ConfigMap { data: None, binary_data: Some(bin) });
    t
}

fn build(
    refs: Vec<CaCertificateRef>,
    well_known: Option<&str>,
    system: bool,
) -> Result<BackendCaSource, (bool, &'static str, String, &'static str, String)> {
    match build_tls_config("ns", &Some(refs), well_known, "svc.example.com", &maps(), system) {
        Ok(c) => {
            assert_eq!(c.sni, "svc.example.com");
            assert_eq!(c.group_key, stable_hash("svc.example.com", &c.ca));
            Ok(c.ca)
        }
        Err(h) => Err((
            h.accepted,
            h.accepted_reason,
            h.accepted_message,
            h.resolved_refs_reason,
            h.resolved_refs_message,
        )),
    }
}

#[test]
fn certificates_come_from_config_maps() {
    let mut once = PEM.as_bytes().to_vec();
    once.push(b'\n');
    let mut twice = once.clone();
    twice.extend_from_slice(&once);
    assert_eq!(
        build(vec![ca("ConfigMap", "", "good")], None, false),
        Ok(BackendCaSource::Pem(once.clone()))
    );
    assert_eq!(
        build(vec![ca("ConfigMap", "core", "binary")], Some(""), false),
        Ok(BackendCaSource::Pem(once))
    );
    assert_eq!(
        build(vec![ca("ConfigMap", "", "good"), ca("ConfigMap", "", "binary")], None, false),
        Ok(BackendCaSource::Pem(twice))
    );
    assert_eq!(build(vec![], Some("System"), true), Ok(BackendCaSource::System));
}

#[test]
fn unusable_certificates_are_named() {
    let cause = |name: &str| {
        let e = build(vec![ca("ConfigMap", "", name)], None, false).unwrap_err();
        assert!(!e.0);
        assert_eq!(e.1, "NoValidCACertificate");
        assert_eq!(e.3, "InvalidCACertificateRef");
        e.4
    };
    assert_eq!(cause("missing"), "missing: ConfigMap not found");
    assert_eq!(
        cause("bad"),
        "bad: ca.crt does not appear to be a valid PEM certificate bundle"
    );
    assert_eq!(
        cause("raw"),
        "raw: ca.crt (binaryData) does not appear to be a valid PEM certificate bundle"
    );
    assert_eq!(
        cause("empty"),
        "empty: ConfigMap missing required key 'ca.crt' in data or binaryData"
    );
    let e = build(vec![ca("Secret", "", "good")], None, false).unwrap_err();
    assert_eq!(e.3, "InvalidKind");
    assert_eq!(
        e.4,
        "good: only ConfigMap (group \"\") is supported for caCertificateRefs"
    );
}

#[test]
fn exactly_one_source_of_certificates_is_asked_for() {
    let message = |r: Result<BackendCaSource, (bool, &'static str, String, &'static str, String)>| {
        let e = r.unwrap_err();
        assert_eq!((e.0, e.1, e.3), (false, "Invalid", "ResolvedRefs"));
        e.2
    };
    assert_eq!(
        message(build(vec![ca("ConfigMap", "", "good")], Some("System"), true)),
        "exactly one of caCertificateRefs or wellKnownCACertificates must be set, not both"
    );
    assert_eq!(
        message(build(vec![], None, true)),
        "one of caCertificateRefs or wellKnownCACertificates must be set"
    );
    assert_eq!(
        message(build(vec![], Some("Mine"), true)),
        "wellKnownCACertificates value 'Mine' is not recognised; only 'System' is supported"
    );
    assert_eq!(
        message(build(vec![], Some("System"), false)),
        "wellKnownCACertificates: System requested but no system CA bundle is available"
    );
}

#[test]
fn pools_are_shared_by_equal_settings_alone() {
    let system = BackendCaSource::System;
    let pem = BackendCaSource::Pem(vec![1]);
    assert_eq!(stable_hash("a", &system), stable_hash("a", &system));
    assert_ne!(stable_hash("a", &system), stable_hash("b", &system));
    assert_ne!(stable_hash("a", &system), stable_hash("a", &pem));
}

fn policy(name: &str, created: Option<i128>, svc: &str, section: Option<&str>) -> BackendTlsPolicy {
    BackendTlsPolicy {
        metadata: ObjectMeta {
            name: Some(name.to_string()),
            namespace: Some("ns".to_string()),
            ..Default::default()
        },
        created,
        target_refs: vec![PolicyTargetRef {
            group: "".to_string(),
            kind: "Service".to_string(),
            name: svc.to_string(),
            section_name: section.map(str::to_string),
        }],
        well_known_ca_certificates: Some("System".to_string()),
        hostname: format!("{name}.example.com"),
        ..Default::default()
    }
}

fn key(name: &str) -> PolicyKey {
    PolicyKey { ns: "ns".to_string(), name: name.to_string() }
}

#[test]
fn the_oldest_policy_has_the_say() {
    let list = vec![
        policy("young", Some(200), "svc", None),
        policy("old", Some(100), "svc", None),
        policy("port", Some(300), "svc", Some("https")),
    ];
    let index = build_backend_tls_index(&list, &Table::new(), true);
    assert_eq!(index.lookup("ns", "svc", None).unwrap().sni, "old.example.com");
    assert_eq!(index.lookup("ns", "svc", Some("https")).unwrap().sni, "port.example.com");
    assert_eq!(index.lookup("ns", "svc", Some("other")).unwrap().sni, "old.example.com");
    assert!(index.lookup("ns", "else", None).is_none());
    assert!(index.health.get(&key("old")).unwrap().accepted);
    let lost = index.health.get(&key("young")).unwrap();
    assert_eq!((lost.accepted, lost.accepted_reason), (false, "Conflicted"));
    assert_eq!(
        lost.accepted_message,
        "Another BackendTLSPolicy with higher precedence already targets ns/svc sectionName=None"
    );
    assert_eq!(index.targets.get(&key("old")).unwrap().svc, "svc");
    assert!(index.targets.get(&key("young")).is_none());
}

#[test]
fn policies_of_one_age_go_by_name_however_they_are_listed() {
    let a = policy("a", Some(100), "svc", Some("p"));
    let b = policy("b", Some(100), "svc", Some("p"));
    for list in [vec![a.clone(), b.clone()], vec![b.clone(), a.clone()]] {
        let index = build_backend_tls_index(&list, &Table::new(), true);
        assert_eq!(index.lookup("ns", "svc", Some("p")).unwrap().sni, "a.example.com");
        assert!(index.lookup("ns", "svc", None).is_none());
        let lost = index.health.get(&key("b")).unwrap();
        assert!(lost.accepted_message.ends_with("ns/svc sectionName=Some(\"p\")"));
    }
}

#[test]
fn an_unfit_policy_leaves_its_target_to_the_next() {
    let mut unfit = policy("a", Some(1), "svc", None);
    unfit.well_known_ca_certificates = None;
    let mut gateway = policy("g", Some(1), "svc", None);
    gateway.target_refs[0].kind = "Gateway".to_string();
    let mut none = policy("n", Some(1), "svc", None);
    none.target_refs.clear();
    let list = vec![unfit, policy("b", Some(2), "svc", None), gateway, none];
    let index = build_backend_tls_index(&list, &Table::new(), true);
    assert_eq!(index.lookup("ns", "svc", None).unwrap().sni, "b.example.com");
    assert_eq!(index.health.get(&key("a")).unwrap().accepted_reason, "Invalid");
    assert_eq!(
        index.health.get(&key("g")).unwrap().accepted_message,
        "unsupported targetRef /Gateway: only Service is supported"
    );
    assert_eq!(index.health.get(&key("n")).unwrap().accepted_message, "targetRefs is empty");
    assert!(index.targets.get(&key("g")).is_none());
    assert_eq!(index.targets.get(&key("a")).unwrap().svc, "svc");
}
