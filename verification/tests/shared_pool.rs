use coxswain::config::{AddressText, Period, StatusAddress};
use coxswain::gateway_reconcile::resolved_addresses;
use coxswain::gateway_status::SupportedAddressType;
use coxswain::leadership::{LeadershipState, RenewOutcome};
use coxswain::ownership::{
    classify_gateway_classes, classify_ingress_classes, gateways_of_class, is_dedicated_mode,
    listener_sets_of_gateway, IngressClass, COXSWAIN_PARAMS_GROUP, COXSWAIN_PARAMS_KIND,
};
use coxswain::ports::PortSet;
use coxswain::resources::{
    Gateway, GatewayAddress, GatewayClass, GatewaySpec, GatewayStatus, ObjectMeta, ParamsRef,
};
use coxswain::shared_vip::{
    current_status_typed_addresses, proxy_bind_pending_detail, select_shared_gateway_address,
    service_internal_ports, service_vip_address, NodeEntry, Service, ServiceIngress, ServiceSpec,
    SharedVip, TargetPort, VipAddress,
};
use coxswain::table::KeySet;

fn ip(b: u8) -> StatusAddress {
    StatusAddress::Ip(format!("10.0.0.{b}"))
}

#[test]
fn current_status_typed_addresses_parses_published_entries() {
    let entry = |t: &str, v: &str| GatewayAddress {
        type_: Some(t.to_string()),
        value: v.to_string(),
    };
    let gw = Gateway {
        status: Some(GatewayStatus {
            addresses: Some(vec![
                entry("IPAddress", "10.96.9.11"),
                entry("Hostname", "lb.example.com"),
                entry("NamedAddress", "bogus"),
            ]),
            ..Default::default()
        }),
        ..Default::default()
    };
    let typed = current_status_typed_addresses(&gw);
    assert_eq!(typed.len(), 2, "unsupported type tags are dropped");
    assert_eq!(typed[0].type_, SupportedAddressType::IpAddress);
    assert_eq!(typed[0].value, "10.96.9.11");
    assert_eq!(typed[1].type_, SupportedAddressType::Hostname);
    assert_eq!(typed[1].value, "lb.example.com");

    let empty = Gateway { status: None, ..Default::default() };
    assert!(current_status_typed_addresses(&empty).is_empty());
}

#[test]
fn service_internal_ports_extracts_numeric_target_ports() {
    let svc = Service {
        spec: Some(ServiceSpec {
            type_: None,
            cluster_ip: None,
            target_ports: Some(vec![
                Some(TargetPort::Number(30001)),
                Some(TargetPort::Number(30002)),
                Some(TargetPort::Name("named".to_owned())),
                None,
            ]),
        }),
        load_balancer: None,
    };
    assert_eq!(service_internal_ports(&svc).listed(), &vec![30001u16, 30002]);
}

#[test]
fn proxy_bind_pending_detail_names_empty_pool() {
    let detail = proxy_bind_pending_detail(&vec![], &PortSet::of(&vec![30001u16]));
    assert!(detail.contains("no shared proxy nodes connected"), "got: {detail}");
}

#[test]
fn proxy_bind_pending_detail_counts_unbound_nodes_and_ports() {
    let nodes = vec![
        NodeEntry { shared_pool: true, bound_ports: Some(PortSet::of(&vec![30001u16, 30002])) },
        NodeEntry { shared_pool: true, bound_ports: None },
        NodeEntry { shared_pool: false, bound_ports: None },
    ];
    let detail = proxy_bind_pending_detail(&nodes, &PortSet::of(&vec![30001u16, 30002]));
    assert_eq!(
        detail,
        "waiting for 1/2 connected shared proxy node(s) to bind internal port(s) [30001, 30002]"
    );
}

fn default_lease_state() -> LeadershipState {
    LeadershipState::new(Period::from_secs(15), Period::from_secs(5))
}

fn at(base: u128, secs: u64) -> u128 {
    base + Period::from_secs(secs).nanos
}

const T0: u128 = 1_000_000_000_000;

#[test]
fn transient_renew_error_within_budget_keeps_leadership() {
    let mut s = default_lease_state();
    assert!(s.observe(RenewOutcome::Leading, T0));
    assert!(
        s.observe(RenewOutcome::RenewError, at(T0, 5)),
        "one apiserver blip at 5 s must not demote a leader whose lease is still valid"
    );
    assert!(
        s.observe(RenewOutcome::Leading, at(T0, 10)),
        "a successful renew resets the wall-clock budget"
    );
    assert!(
        s.observe(RenewOutcome::RenewError, at(T0, 15)),
        "budget is measured from the LAST successful renew (5 s elapsed here)"
    );
}

#[test]
fn renew_errors_demote_at_the_wall_clock_deadline() {
    let mut s = default_lease_state();
    assert!(s.observe(RenewOutcome::Leading, T0));
    assert!(s.observe(RenewOutcome::RenewError, at(T0, 5)));
    assert!(
        !s.observe(RenewOutcome::RenewError, at(T0, 10)),
        "10 s since the last successful renew must demote"
    );
}

#[test]
fn slow_failing_renew_cannot_outlive_the_ttl() {
    let mut s = default_lease_state();
    assert!(s.observe(RenewOutcome::Leading, T0));
    assert!(
        !s.observe(RenewOutcome::RenewError, at(T0, 12)),
        "a single error observed 12 s after the last success is past the 10 s deadline"
    );
}

#[test]
fn not_acquired_demotes_immediately() {
    let mut s = default_lease_state();
    assert!(s.observe(RenewOutcome::Leading, T0));
    assert!(
        !s.observe(RenewOutcome::Standby, at(T0, 5)),
        "a positive observation that another replica holds the lease is never tolerated"
    );
}

#[test]
fn renew_error_while_standby_never_promotes() {
    let mut s = default_lease_state();
    assert!(!s.observe(RenewOutcome::Standby, T0));
    for i in 0..10u64 {
        assert!(
            !s.observe(RenewOutcome::RenewError, at(T0, i)),
            "errors carry no information about the lease; a standby must stay standby"
        );
    }
}

#[test]
fn degenerate_lease_settings_demote_on_first_late_error() {
    let mut s = LeadershipState::new(Period::from_secs(5), Period::from_secs(5));
    assert!(s.observe(RenewOutcome::Leading, T0));
    assert!(
        !s.observe(RenewOutcome::RenewError, at(T0, 5)),
        "with ttl == renew the first error a full interval later must demote"
    );
}

#[test]
fn shared_gateway_advertises_its_own_resolved_vip() {
    let global = ip(3);
    let got = select_shared_gateway_address(&VipAddress::Resolved(ip(7)), true, Some(&global));
    assert_eq!(got, Some(ip(7)));
}

#[test]
fn shared_gateway_reports_no_address_while_vip_pending() {
    let global = ip(3);
    let got = select_shared_gateway_address(&VipAddress::Pending, true, Some(&global));
    assert!(got.is_none(), "pending VIP must not borrow the global address");
}

#[test]
fn shared_gateway_never_falls_back_to_global_when_feature_on() {
    let global = ip(3);
    let got = select_shared_gateway_address(&VipAddress::NotProvisioned, true, Some(&global));
    assert!(got.is_none(), "feature-on Gateway must never advertise the global shared address");
}

#[test]
fn unprovisioned_gateway_uses_global_address_when_feature_off() {
    let global = ip(3);
    let got = select_shared_gateway_address(&VipAddress::NotProvisioned, false, Some(&global));
    assert_eq!(got, Some(ip(3)));
}

fn gateway_class(name: &str, controller: &str, dedicated: bool) -> GatewayClass {
    GatewayClass {
        metadata: ObjectMeta { name: Some(name.to_string()), ..Default::default() },
        controller_name: controller.to_string(),
        parameters_ref: if dedicated {
            Some(ParamsRef {
                group: COXSWAIN_PARAMS_GROUP.to_string(),
                kind: COXSWAIN_PARAMS_KIND.to_string(),
                name: "params".to_string(),
            })
        } else {
            None
        },
        status: None,
    }
}

fn ingress_class(name: &str, controller: Option<&str>, default: bool) -> IngressClass {
    IngressClass {
        name: Some(name.to_string()),
        controller: controller.map(str::to_string),
        is_default: default,
    }
}

#[test]
fn classify_gateway_classes_partitions_owned_and_dedicated() {
    let classes = vec![
        gateway_class("ours-shared", "coxswain", false),
        gateway_class("ours-dedicated", "coxswain", true),
        gateway_class("theirs", "other", false),
    ];
    let (owned, dedicated) = classify_gateway_classes(&classes, "coxswain");
    assert!(owned.contains(&"ours-shared".to_string()));
    assert!(owned.contains(&"ours-dedicated".to_string()));
    assert!(!owned.contains(&"theirs".to_string()));
    assert!(dedicated.contains(&"ours-dedicated".to_string()));
    assert!(!dedicated.contains(&"ours-shared".to_string()));
}

#[test]
fn classify_ingress_classes_partitions_owned_and_default() {
    let classes = vec![
        ingress_class("ours", Some("coxswain"), false),
        ingress_class("ours-default", Some("coxswain"), true),
        ingress_class("theirs", Some("other"), true),
    ];
    let (owned, default) = classify_ingress_classes(&classes, "coxswain");
    assert!(owned.contains(&"ours".to_string()));
    assert!(owned.contains(&"ours-default".to_string()));
    assert!(!owned.contains(&"theirs".to_string()));
    assert!(default.contains(&"ours-default".to_string()));
    assert!(!default.contains(&"ours".to_string()));
    assert!(!default.contains(&"theirs".to_string()));
}

#[test]
fn is_dedicated_mode_detects_class_membership() {
    let gw = Gateway {
        spec: GatewaySpec {
            gateway_class_name: "ours-dedicated".to_string(),
            ..Default::default()
        },
        ..Default::default()
    };
    let mut dedicated: KeySet<String> = KeySet::new();
    dedicated.insert("ours-dedicated".to_string());
    assert!(is_dedicated_mode(&gw, &dedicated));
    let empty: KeySet<String> = KeySet::new();
    assert!(!is_dedicated_mode(&gw, &empty));
}

#[test]
fn a_gateway_can_be_dedicated_by_its_own_parameters() {
    let gw = Gateway {
        spec: GatewaySpec {
            gateway_class_name: "shared".to_string(),
            parameters_ref: Some(ParamsRef {
                group: "gateway.coxswain-labs.dev".to_string(),
                kind: "CoxswainGatewayParameters".to_string(),
                name: "p".to_string(),
            }),
            ..Default::default()
        },
        ..Default::default()
    };
    assert!(is_dedicated_mode(&gw, &KeySet::new()));
}

fn text(raw: &str, ip: bool) -> AddressText {
    AddressText {
        raw: raw.to_string(),
        ip: if ip { Some(raw.to_string()) } else { None },
    }
}

#[test]
fn a_load_balancer_address_comes_before_a_cluster_address() {
    let spec = |type_: &str| {
        Some(ServiceSpec {
            type_: Some(type_.to_string()),
            cluster_ip: Some(text("10.96.0.1", true)),
            target_ports: None,
        })
    };
    let svc = Service {
        spec: spec("LoadBalancer"),
        load_balancer: Some(vec![ServiceIngress {
            ip: Some(text("203.0.113.9", true)),
            hostname: None,
        }]),
    };
    assert_eq!(service_vip_address(&svc), Some(StatusAddress::Ip("203.0.113.9".to_string())));
    let svc = Service {
        spec: spec("LoadBalancer"),
        load_balancer: Some(vec![ServiceIngress {
            ip: None,
            hostname: Some("lb.example.com".to_string()),
        }]),
    };
    assert_eq!(
        service_vip_address(&svc),
        Some(StatusAddress::Hostname("lb.example.com".to_string()))
    );
    let svc = Service { spec: spec("LoadBalancer"), load_balancer: None };
    assert_eq!(service_vip_address(&svc), None);
    let svc = Service { spec: spec("ClusterIP"), load_balancer: None };
    assert_eq!(service_vip_address(&svc), Some(StatusAddress::Ip("10.96.0.1".to_string())));
    assert!(matches!(SharedVip::read(None).address, VipAddress::NotProvisioned));
    let svc = Service { spec: spec("LoadBalancer"), load_balancer: None };
    assert!(matches!(SharedVip::read(Some(&svc)).address, VipAddress::Pending));
}

#[test]
fn a_changed_class_drives_the_gateways_of_that_class() {
    let gw = |name: &str, class: &str| Gateway {
        metadata: ObjectMeta {
            name: Some(name.to_string()),
            namespace: Some("ns".to_string()),
            ..Default::default()
        },
        spec: GatewaySpec { gateway_class_name: class.to_string(), ..Default::default() },
        status: None,
    };
    let all = vec![gw("a", "one"), gw("b", "two"), gw("c", "one")];
    let hit = gateways_of_class(&Some("one".to_string()), &all);
    assert_eq!(hit.iter().map(|k| k.name.as_str()).collect::<Vec<_>>(), vec!["a", "c"]);
    assert!(gateways_of_class(&None, &all).is_empty());
}

#[test]
fn a_changed_gateway_drives_its_listener_sets() {
    let gw = Gateway {
        metadata: ObjectMeta {
            name: Some("gw".to_string()),
            namespace: Some("infra".to_string()),
            ..Default::default()
        },
        ..Default::default()
    };
    let set = |name: &str, ns: &str, parent_ns: Option<&str>| {
        coxswain::listenerset_status::ListenerSet {
            metadata: ObjectMeta {
                name: Some(name.to_string()),
                namespace: Some(ns.to_string()),
                ..Default::default()
            },
            parent_namespace: parent_ns.map(str::to_string),
            parent_name: "gw".to_string(),
            ..Default::default()
        }
    };
    let all =
        vec![set("a", "apps", Some("infra")), set("b", "infra", None), set("c", "apps", None)];
    let hit = listener_sets_of_gateway(&gw, &all);
    assert_eq!(hit.iter().map(|k| k.name.as_str()).collect::<Vec<_>>(), vec!["a", "b"]);
}

#[test]
fn requested_addresses_are_held_against_the_advertised_one() {
    let global = ip(1);
    let got = resolved_addresses(&VipAddress::Resolved(ip(7)), true, Some(&global));
    assert_eq!(got.len(), 1);
    assert_eq!(got[0].type_, SupportedAddressType::IpAddress);
    assert_eq!(got[0].value, "10.0.0.7");
    assert!(resolved_addresses(&VipAddress::Pending, true, Some(&global)).is_empty());
    let got = resolved_addresses(&VipAddress::NotProvisioned, false, Some(&global));
    assert_eq!(got[0].value, "10.0.0.1");
    assert!(resolved_addresses(&VipAddress::NotProvisioned, false, None).is_empty());
}
