use coxswain::config::{IngressPorts, StatusAddress};
use coxswain::ingress_status::{
    build_ingress_status_patch, ingress_lb_already_matches, port_numbers, Ingress,
    LoadBalancerEntry,
};
use coxswain::json::Json;
use coxswain::resources::ObjectMeta;
use serde_json::Value;

fn value(j: &Json) -> Value {
    match j {
        Json::Null => Value::Null,
        Json::Bool(b) => Value::from(*b),
        Json::Int(n) => Value::from(*n),
        Json::Str(s) => Value::from(s.as_str()),
        Json::Arr(v) => Value::Array(v.iter().map(value).collect()),
        Json::Obj(m) => Value::Object(m.iter().map(|(k, v)| (k.clone(), value(v))).collect()),
    }
}

fn json(s: &str) -> Value {
    serde_json::from_str(s).unwrap()
}

fn ports_http_https() -> IngressPorts {
    IngressPorts::new(Some(80), Some(443))
}

fn ports_http_only() -> IngressPorts {
    IngressPorts::new(Some(80), None)
}

fn ports_none() -> IngressPorts {
    IngressPorts::new(None, None)
}

fn ip(s: &str) -> StatusAddress {
    StatusAddress::Ip(s.to_string())
}

fn host(s: &str) -> StatusAddress {
    StatusAddress::Hostname(s.to_string())
}

fn ingress(load_balancer: Option<Vec<LoadBalancerEntry>>) -> Ingress {
    Ingress { metadata: ObjectMeta::default(), claimed_class: None, load_balancer }
}

fn ingress_with_lb(ip: Option<&str>, hostname: Option<&str>, ports: Option<Vec<i32>>) -> Ingress {
    ingress(Some(vec![LoadBalancerEntry {
        ip: ip.map(str::to_string),
        hostname: hostname.map(str::to_string),
        ports,
    }]))
}

#[test]
fn lb_already_matches_false_when_lb_has_ip_but_addr_is_hostname() {
    let ing = ingress_with_lb(Some("203.0.113.1"), None, None);
    assert!(!ingress_lb_already_matches(&ing, &host("coxswain.example.com"), ports_none()));
}

#[test]
fn lb_already_matches_false_when_lb_has_hostname_but_addr_is_ip() {
    let ing = ingress_with_lb(None, Some("coxswain.example.com"), None);
    assert!(!ingress_lb_already_matches(&ing, &ip("203.0.113.1"), ports_none()));
}

#[test]
fn lb_already_matches_false_when_lb_list_empty() {
    let ing = ingress(Some(vec![]));
    assert!(!ingress_lb_already_matches(&ing, &ip("203.0.113.1"), ports_none()));
}

#[test]
fn lb_already_matches_returns_true_when_ip_and_ports_equal() {
    let ing = ingress_with_lb(Some("203.0.113.1"), None, Some(vec![80, 443]));
    assert!(ingress_lb_already_matches(&ing, &ip("203.0.113.1"), ports_http_https()));
}

#[test]
fn ingress_status_lb_already_matches_returns_false_when_ip_differs() {
    let ing = ingress_with_lb(Some("10.0.0.1"), None, Some(vec![80, 443]));
    assert!(!ingress_lb_already_matches(&ing, &ip("203.0.113.1"), ports_http_https()));
}

#[test]
fn lb_already_matches_returns_false_when_ports_differ() {
    let ing = ingress_with_lb(Some("203.0.113.1"), None, Some(vec![80]));
    assert!(!ingress_lb_already_matches(&ing, &ip("203.0.113.1"), ports_http_https()));
}

#[test]
fn lb_already_matches_returns_false_when_ports_absent_but_expected() {
    let ing = ingress_with_lb(Some("203.0.113.1"), None, None);
    assert!(!ingress_lb_already_matches(&ing, &ip("203.0.113.1"), ports_http_https()));
}

#[test]
fn lb_already_matches_returns_true_when_no_ports_configured_and_none_present() {
    let ing = ingress_with_lb(Some("203.0.113.1"), None, None);
    assert!(ingress_lb_already_matches(&ing, &ip("203.0.113.1"), ports_none()));
}

#[test]
fn lb_already_matches_returns_true_when_hostname_and_ports_equal() {
    let ing = ingress_with_lb(None, Some("coxswain.example.com"), Some(vec![80, 443]));
    assert!(ingress_lb_already_matches(&ing, &host("coxswain.example.com"), ports_http_https()));
}

#[test]
fn ingress_status_lb_already_matches_returns_false_when_hostname_differs() {
    let ing = ingress_with_lb(None, Some("other.example.com"), Some(vec![80, 443]));
    assert!(!ingress_lb_already_matches(&ing, &host("coxswain.example.com"), ports_http_https()));
}

#[test]
fn ingress_status_lb_already_matches_returns_false_when_status_empty() {
    let ing = ingress(None);
    assert!(!ingress_lb_already_matches(&ing, &ip("203.0.113.1"), ports_none()));
}

#[test]
fn patch_includes_http_and_https_ports_for_ip() {
    let patch = value(&build_ingress_status_patch(&ip("203.0.113.1"), ports_http_https()));
    let entry = &patch["status"]["loadBalancer"]["ingress"][0];
    assert_eq!(entry["ip"], "203.0.113.1");
    let ports = entry["ports"].as_array().unwrap();
    assert_eq!(ports.len(), 2);
    assert_eq!(ports[0]["port"], 80);
    assert_eq!(ports[0]["protocol"], "TCP");
    assert_eq!(ports[1]["port"], 443);
    assert_eq!(ports[1]["protocol"], "TCP");
}

#[test]
fn patch_includes_http_port_only() {
    let patch = value(&build_ingress_status_patch(&ip("10.0.0.1"), ports_http_only()));
    let ports = patch["status"]["loadBalancer"]["ingress"][0]["ports"].as_array().unwrap();
    assert_eq!(ports.len(), 1);
    assert_eq!(ports[0]["port"], 80);
}

#[test]
fn patch_omits_ports_key_when_none_configured() {
    let patch = value(&build_ingress_status_patch(&ip("10.0.0.1"), ports_none()));
    let entry = &patch["status"]["loadBalancer"]["ingress"][0];
    assert!(entry.get("ports").is_none() || entry["ports"].is_null());
}

#[test]
fn ingress_status_patch_uses_ip_field_for_ip_address() {
    let patch = build_ingress_status_patch(&ip("203.0.113.1"), ports_none());
    assert_eq!(
        value(&patch),
        json(r#"{ "status": { "loadBalancer": { "ingress": [{ "ip": "203.0.113.1" }] } } }"#)
    );
}

#[test]
fn ingress_status_patch_uses_hostname_field_for_hostname() {
    let patch = build_ingress_status_patch(&host("coxswain.example.com"), ports_none());
    assert_eq!(
        value(&patch),
        json(
            r#"{ "status": { "loadBalancer": { "ingress": [{ "hostname": "coxswain.example.com" }] } } }"#
        )
    );
}

#[test]
fn patch_is_valid_json_for_ip() {
    let patch = value(&build_ingress_status_patch(&ip("10.0.0.1"), ports_none()));
    let entry = &patch["status"]["loadBalancer"]["ingress"][0];
    assert_eq!(entry["ip"], "10.0.0.1");
    assert!(entry.get("hostname").is_none() || entry["hostname"].is_null());
}

#[test]
fn patch_is_valid_json_for_hostname() {
    let patch = value(&build_ingress_status_patch(&host("lb.example.com"), ports_none()));
    let entry = &patch["status"]["loadBalancer"]["ingress"][0];
    assert_eq!(entry["hostname"], "lb.example.com");
    assert!(entry.get("ip").is_none() || entry["ip"].is_null());
}

#[test]
fn a_written_ingress_needs_no_second_write() {
    for ports in [ports_none(), ports_http_only(), ports_http_https()] {
        let patch = value(&build_ingress_status_patch(&ip("10.0.0.1"), ports));
        let entry = &patch["status"]["loadBalancer"]["ingress"][0];
        let written = entry["ports"].as_array().map(|a| {
            a.iter().map(|p| p["port"].as_i64().unwrap() as i32).collect::<Vec<i32>>()
        });
        let ing = ingress_with_lb(Some("10.0.0.1"), None, written);
        assert!(ingress_lb_already_matches(&ing, &ip("10.0.0.1"), ports));
    }
}

#[test]
fn published_ports_are_sorted() {
    let swapped = IngressPorts::new(Some(8443), Some(443));
    assert_eq!(port_numbers(swapped), vec![443, 8443]);
    assert_eq!(port_numbers(IngressPorts::new(Some(443), Some(443))), vec![443, 443]);
    assert_eq!(port_numbers(IngressPorts::new(None, Some(443))), vec![443]);
    let patch = value(&build_ingress_status_patch(&ip("203.0.113.1"), swapped));
    let ports = &patch["status"]["loadBalancer"]["ingress"][0]["ports"];
    assert_eq!(ports[0]["port"], 443);
    assert_eq!(ports[1]["port"], 8443);
    let ing = ingress_with_lb(Some("203.0.113.1"), None, Some(vec![443, 8443]));
    assert!(ingress_lb_already_matches(&ing, &ip("203.0.113.1"), swapped));
    let ing = ingress_with_lb(Some("203.0.113.1"), None, Some(vec![8443, 443]));
    assert!(!ingress_lb_already_matches(&ing, &ip("203.0.113.1"), swapped));
}
