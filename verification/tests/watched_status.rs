use coxswain::conditions::{gateway_class_accepted, Condition};
use coxswain::config::{AddressText, Period, StatusAddress};
use coxswain::ingress_status::{Ingress, LoadBalancerEntry};
use coxswain::json::Json;
use coxswain::resources::{
    Gateway, GatewayClass, GatewayClassStatus, GatewayStatus, Listener, ObjectKey, ObjectMeta,
    ParentRef,
};
use coxswain::route_status::{
    filter_owned_parent_refs, http_route_programmed, Route, RouteParentStatus,
};
use coxswain::table::KeySet;
use coxswain::watched_status::{
    build_gateway_status_patch, build_ingress_status_patch, gateway_accepted,
    gateway_needs_status_patch, gateway_programmed, has_condition, ingress_lb_already_matches,
    patch_gateway_status, patch_ingress_status, ControllerConfig, GatewayListenerHealth,
    ListenerTlsOutcome,
};
use serde_json::Value;

fn value(j: &Json) -> Value {
    match j {
        Json::Null => Value::Null,
        Json::Bool(b) => Value::from(*b),
        Json::Int(n) => Value::from(*n),
        Json::Str(s) => Value::from(s.as_str()),
        Json::Arr(v) => Value::Array(v.iter().map(value).collect()),
        Json::Obj(m) => Value::Object(m.iter().map(|(k, v)| (k.clone(), value(v))).collect()),
    }
}

fn json(s: &str) -> Value {
    serde_json::from_str(s).unwrap()
}

fn stub_condition(type_: &str, status: &str) -> Condition {
    Condition {
        type_: type_.to_string(),
        status: status.to_string(),
        last_transition_time: "1970-01-01T00:00:00Z".to_string(),
        ..Default::default()
    }
}

fn owned(pairs: &[(&str, &str)]) -> KeySet<ObjectKey> {
    let mut set = KeySet::new();
    for (ns, name) in pairs {
        set.insert(ObjectKey::new(ns, name));
    }
    set
}

#[test]
fn controller_has_condition_returns_true_when_present_and_true() {
    let conds = vec![stub_condition("Programmed", "True")];
    assert!(has_condition(Some(&conds), "Programmed"));
}

#[test]
fn controller_has_condition_returns_false_when_absent() {
    let conds = vec![stub_condition("Accepted", "True")];
    assert!(!has_condition(Some(&conds), "Programmed"));
}

#[test]
fn controller_has_condition_returns_false_when_not_true() {
    let conds = vec![stub_condition("Programmed", "False")];
    assert!(!has_condition(Some(&conds), "Programmed"));
}

#[test]
fn controller_gateway_class_accepted_when_condition_present() {
    let gc = GatewayClass {
        status: Some(GatewayClassStatus {
            conditions: Some(vec![stub_condition("Accepted", "True")]),
            ..Default::default()
        }),
        ..Default::default()
    };
    assert!(gateway_class_accepted(&gc));
}

#[test]
fn controller_gateway_class_not_accepted_when_no_status() {
    let gc = GatewayClass { status: None, ..Default::default() };
    assert!(!gateway_class_accepted(&gc));
}

fn route_with(controller: &str, conditions: Vec<Condition>, parent: &str) -> Route {
    Route {
        metadata: ObjectMeta { namespace: Some("default".to_string()), ..Default::default() },
        parent_refs: None,
        parents: Some(vec![RouteParentStatus {
            controller_name: controller.to_string(),
            conditions,
            parent_ref: ParentRef {
                name: parent.to_string(),
                namespace: Some("default".to_string()),
                ..Default::default()
            },
        }]),
    }
}

#[test]
fn http_route_programmed_for_matching_controller_and_owned_parent() {
    let set = owned(&[("default", "gw")]);
    let route = route_with(
        "my-controller",
        vec![stub_condition("Programmed", "True"), stub_condition("ResolvedRefs", "True")],
        "gw",
    );
    assert!(http_route_programmed(&route, "my-controller", &set));
}

#[test]
fn http_route_not_programmed_for_different_controller() {
    let set = owned(&[("default", "gw")]);
    let route =
        route_with("other-controller", vec![stub_condition("Programmed", "True")], "gw");
    assert!(!http_route_programmed(&route, "my-controller", &set));
}

#[test]
fn http_route_not_programmed_when_parent_not_owned() {
    let set = owned(&[("default", "gw")]);
    let route =
        route_with("my-controller", vec![stub_condition("Programmed", "True")], "envoy-gateway");
    assert!(!http_route_programmed(&route, "my-controller", &set));
}

#[test]
fn filter_owned_parent_refs_keeps_owned_only() {
    let set = owned(&[("default", "gw")]);
    let refs = vec![
        ParentRef {
            name: "gw".to_string(),
            namespace: Some("default".to_string()),
            ..Default::default()
        },
        ParentRef {
            name: "envoy-gw".to_string(),
            namespace: Some("default".to_string()),
            ..Default::default()
        },
    ];
    let filtered = filter_owned_parent_refs(&refs, "default", &set);
    assert_eq!(filtered.len(), 1);
    assert_eq!(filtered[0].name, "gw");
}

#[test]
fn filter_owned_parent_refs_returns_empty_when_none_owned() {
    let set = owned(&[("default", "gw")]);
    let refs = vec![ParentRef {
        name: "foreign-gw".to_string(),
        namespace: Some("default".to_string()),
        ..Default::default()
    }];
    let filtered = filter_owned_parent_refs(&refs, "default", &set);
    assert!(filtered.is_empty());
}

#[test]
fn filter_owned_parent_refs_applies_default_namespace() {
    let set = owned(&[("apps", "gw")]);
    let refs =
        vec![ParentRef { name: "gw".to_string(), namespace: None, ..Default::default() }];
    let filtered = filter_owned_parent_refs(&refs, "apps", &set);
    assert_eq!(filtered.len(), 1);
}

fn gateway_with(condition: Option<Condition>) -> Gateway {
    Gateway {
        status: condition.map(|c| GatewayStatus {
            conditions: Some(vec![c]),
            ..Default::default()
        }),
        ..Default::default()
    }
}

#[test]
fn controller_gateway_accepted_true_when_condition_present() {
    assert!(gateway_accepted(&gateway_with(Some(stub_condition("Accepted", "True")))));
}

#[test]
fn controller_gateway_accepted_false_when_no_status() {
    assert!(!gateway_accepted(&gateway_with(None)));
}

#[test]
fn controller_gateway_accepted_false_when_status_is_false() {
    assert!(!gateway_accepted(&gateway_with(Some(stub_condition("Accepted", "False")))));
}

#[test]
fn controller_gateway_programmed_true_when_condition_present() {
    assert!(gateway_programmed(&gateway_with(Some(stub_condition("Programmed", "True")))));
}

#[test]
fn controller_gateway_programmed_false_when_absent() {
    assert!(!gateway_programmed(&gateway_with(Some(stub_condition("Accepted", "True")))));
}

#[test]
fn controller_gateway_programmed_false_when_no_status() {
    assert!(!gateway_programmed(&gateway_with(None)));
}

fn ip(s: &str) -> StatusAddress {
    StatusAddress::Ip(s.to_string())
}

fn host(s: &str) -> StatusAddress {
    StatusAddress::Hostname(s.to_string())
}

fn ingress_with_lb(ip: Option<&str>, hostname: Option<&str>) -> Ingress {
    Ingress {
        metadata: ObjectMeta::default(),
        claimed_class: None,
        load_balancer: Some(vec![LoadBalancerEntry {
            ip: ip.map(str::to_string),
            hostname: hostname.map(str::to_string),
            ports: None,
        }]),
    }
}

#[test]
fn controller_patch_uses_ip_field_for_ip_address() {
    let patch = build_ingress_status_patch(&ip("203.0.113.1"));
    assert_eq!(
        value(&patch),
        json(r#"{ "status": { "loadBalancer": { "ingress": [{ "ip": "203.0.113.1" }] } } }"#)
    );
}

#[test]
fn controller_patch_uses_hostname_field_for_hostname() {
    let patch = build_ingress_status_patch(&host("coxswain.example.com"));
    assert_eq!(
        value(&patch),
        json(
            r#"{ "status": { "loadBalancer": { "ingress": [{ "hostname": "coxswain.example.com" }] } } }"#
        )
    );
}

#[test]
fn lb_already_matches_returns_true_when_ip_equal() {
    let ing = ingress_with_lb(Some("203.0.113.1"), None);
    assert!(ingress_lb_already_matches(&ing, &ip("203.0.113.1")));
}

#[test]
fn controller_lb_already_matches_returns_false_when_ip_differs() {
    let ing = ingress_with_lb(Some("10.0.0.1"), None);
    assert!(!ingress_lb_already_matches(&ing, &ip("203.0.113.1")));
}

#[test]
fn lb_already_matches_returns_true_when_hostname_equal() {
    let ing = ingress_with_lb(None, Some("coxswain.example.com"));
    assert!(ingress_lb_already_matches(&ing, &host("coxswain.example.com")));
}

#[test]
fn controller_lb_already_matches_returns_false_when_hostname_differs() {
    let ing = ingress_with_lb(None, Some("other.example.com"));
    assert!(!ingress_lb_already_matches(&ing, &host("coxswain.example.com")));
}

#[test]
fn controller_lb_already_matches_returns_false_when_status_empty() {
    let ing =
        Ingress { metadata: ObjectMeta::default(), claimed_class: None, load_balancer: None };
    assert!(!ingress_lb_already_matches(&ing, &ip("203.0.113.1")));
}

fn config(ttl: u64, renew: u64, address: Option<AddressText>) -> Result<ControllerConfig, String> {
    ControllerConfig::new(
        "ctrl".into(),
        "pod".into(),
        "ns".into(),
        Period::from_secs(ttl),
        Period::from_secs(renew),
        None,
        address,
    )
}

fn address(raw: &str, ip: Option<&str>) -> Option<AddressText> {
    Some(AddressText { raw: raw.to_string(), ip: ip.map(str::to_string) })
}

#[test]
fn controller_config_parses_ip_address() {
    let cfg = config(15, 5, address("203.0.113.1", Some("203.0.113.1"))).unwrap();
    assert!(matches!(cfg.status_address, Some(StatusAddress::Ip(_))));
}

#[test]
fn controller_config_parses_hostname() {
    let cfg = config(15, 5, address("coxswain.example.com", None)).unwrap();
    assert!(matches!(cfg.status_address, Some(StatusAddress::Hostname(_))));
}

#[test]
fn controller_config_rejects_empty_status_address() {
    let result = config(15, 5, address("   ", None));
    assert!(result.is_err());
}

#[test]
fn controller_config_none_address_is_ok() {
    let cfg = config(15, 5, None).unwrap();
    assert!(cfg.status_address.is_none());
}

#[test]
fn watched_config_refuses_a_lease_that_is_renewed_too_slowly() {
    assert!(config(15, 6, None).is_err());
    assert!(config(15, 5, None).is_ok());
}

fn https_gateway() -> Gateway {
    Gateway {
        metadata: ObjectMeta {
            name: Some("gw".to_string()),
            namespace: Some("infra".to_string()),
            generation: Some(2),
            ..Default::default()
        },
        spec: coxswain::resources::GatewaySpec {
            gateway_class_name: "coxswain".to_string(),
            listeners: vec![Listener {
                name: "web".to_string(),
                port: 443,
                protocol: "HTTPS".to_string(),
                ..Default::default()
            }],
            parameters_ref: None,
        },
        status: None,
    }
}

fn conditions_from(v: &Value) -> Vec<Condition> {
    v.as_array()
        .unwrap()
        .iter()
        .map(|c| Condition {
            type_: c["type"].as_str().unwrap().to_string(),
            status: c["status"].as_str().unwrap().to_string(),
            reason: c["reason"].as_str().unwrap().to_string(),
            message: c["message"].as_str().unwrap().to_string(),
            observed_generation: c["observedGeneration"].as_i64(),
            last_transition_time: c["lastTransitionTime"].as_str().unwrap().to_string(),
        })
        .collect()
}

#[test]
fn watched_gateway_settles_once_its_patch_is_stored() {
    let mut health = GatewayListenerHealth::unknown();
    health.by_listener.insert(
        "web".to_string(),
        ListenerTlsOutcome {
            healthy: false,
            reason: "InvalidCertificateRef".to_string(),
            message: "secret missing".to_string(),
        },
    );
    health.attached_routes.insert("web".to_string(), 3);
    let mut gw = https_gateway();
    assert!(gateway_needs_status_patch(&gw, &health));
    let addr = ip("203.0.113.1");
    let patch =
        value(&build_gateway_status_patch(&gw, &health, 2, "2024-01-01T00:00:00Z", Some(&addr)));
    let status = &patch["status"];
    assert_eq!(status["addresses"][0]["value"], "203.0.113.1");
    assert_eq!(status["listeners"][0]["attachedRoutes"], 3);
    gw.status = Some(GatewayStatus {
        conditions: Some(conditions_from(&status["conditions"])),
        listeners: Some(vec![coxswain::resources::ListenerStatus {
            name: status["listeners"][0]["name"].as_str().unwrap().to_string(),
            attached_routes: 3,
            supported_kinds: None,
            conditions: conditions_from(&status["listeners"][0]["conditions"]),
        }]),
        ..Default::default()
    });
    assert!(!gateway_needs_status_patch(&gw, &health));
    assert!(gateway_needs_status_patch(&gw, &GatewayListenerHealth::unknown()));
}

#[test]
fn watched_objects_without_a_name_are_not_written() {
    let mut gw = https_gateway();
    let health = GatewayListenerHealth::unknown();
    let write = patch_gateway_status(&gw, &health, "2024-01-01T00:00:00Z", &None).unwrap();
    assert_eq!((write.namespace.as_str(), write.name.as_str()), ("infra", "gw"));
    gw.metadata.name = None;
    assert!(patch_gateway_status(&gw, &health, "2024-01-01T00:00:00Z", &None).is_none());

    let mut ing = ingress_with_lb(None, None);
    assert!(patch_ingress_status(&ing, &ip("10.0.0.1")).is_none());
    ing.metadata.name = Some("web".to_string());
    let write = patch_ingress_status(&ing, &ip("10.0.0.1")).unwrap();
    assert_eq!((write.namespace.as_str(), write.name.as_str()), ("default", "web"));
}
