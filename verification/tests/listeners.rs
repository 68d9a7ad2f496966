use coxswain::config::{IngressPorts, Period};
use coxswain::listener_status::{
    GatewayListenerStatus, ListenerEntry, ListenerInfo, ListenerReadiness, ListenerSource,
    ProxyProtocolConfig,
};
use coxswain::listeners::{
    build_ingress_listeners, derive_advertised_ports, derive_gateway_specs,
    discover_dedicated_gateway_ports, discover_gateway_ports, ingress_proxy_protocol,
    parent_wait_step, plan_listeners, reload_step, resolve_proxy_threads, HotReloader, ListenerProtocol,
    ListenerSpec, ReloadAction, ReloadEvent, ReloadState,
};
use coxswain::ports::PortSet;
use coxswain::resources::{
    Gateway, GatewayClass, GatewaySpec, Listener, ObjectKey, ObjectMeta,
};
use coxswain::table::Table;

fn entry(name: &str, info: ListenerInfo) -> ListenerEntry {
    ListenerEntry { source: ListenerSource::Gateway, name: name.to_string(), info }
}

fn health(entries: Vec<ListenerEntry>) -> Table<ObjectKey, GatewayListenerStatus> {
    let mut t = Table::new();
    t.insert(
        ObjectKey::new("ns", "gw"),
        GatewayListenerStatus { listeners: entries, ..Default::default() },
    );
    t
}

#[test]
fn advertised_ports_map_covers_http_and_https_listeners() {
    let health = health(vec![
        entry("http", ListenerInfo { port: 80, internal_port: 30000, ..Default::default() }),
        entry("https", ListenerInfo { port: 443, internal_port: 30001, ..Default::default() }),
    ]);
    let map = derive_advertised_ports(&health);
    assert_eq!(map.get(&30000), Some(&80), "internal 30000 → advertised 80");
    assert_eq!(map.get(&30001), Some(&443), "internal 30001 → advertised 443");
}

#[test]
fn advertised_ports_map_is_identity_without_internal_port() {
    let health = health(vec![entry(
        "http",
        ListenerInfo { port: 8080, internal_port: 0, ..Default::default() },
    )]);
    let map = derive_advertised_ports(&health);
    assert_eq!(map.get(&8080), Some(&8080), "unallocated listener maps to itself");
}

#[test]
fn resolve_proxy_threads_honours_explicit_and_floors_auto() {
    assert_eq!(resolve_proxy_threads(1, None), 1);
    assert_eq!(resolve_proxy_threads(8, Some(4)), 8);
    for available in [None, Some(1), Some(2), Some(16)] {
        assert!(resolve_proxy_threads(0, available) >= 2);
    }
    assert_eq!(resolve_proxy_threads(0, Some(16)), 16);
}

fn info(port: u16, readiness: ListenerReadiness) -> ListenerInfo {
    ListenerInfo { port, readiness, ..Default::default() }
}

fn find(specs: &[ListenerSpec], port: u16) -> ListenerSpec {
    let mut hits = specs.iter().filter(|s| s.port == port);
    let hit = hits.next().expect("port is served").clone();
    assert!(hits.next().is_none(), "a port is served once");
    hit
}

#[test]
fn both_kinds_of_tls_meet_on_a_hybrid_port() {
    let trusted =
        ProxyProtocolConfig { enabled: true, trusted_sources: vec!["10.0.0.0/8".to_string()] };
    let mut tls = info(443, ListenerReadiness::TlsPassthrough);
    tls.proxy_protocol = Some(trusted.clone());
    let health = health(vec![
        entry("a", info(443, ListenerReadiness::Https)),
        entry("b", tls),
        entry("c", info(80, ListenerReadiness::NotApplicable)),
        entry("d", info(8443, ListenerReadiness::TlsTerminate)),
        entry("e", info(8443, ListenerReadiness::TlsPassthrough)),
        entry("f", info(9000, ListenerReadiness::TcpProxy)),
        entry("g", info(9001, ListenerReadiness::UdpProxy)),
        entry("h", info(9002, ListenerReadiness::Https)),
    ]);
    let specs = derive_gateway_specs(&health, &PortSet::of(&vec![9002]));
    assert_eq!(specs.len(), 5);
    let hybrid = find(&specs, 443);
    assert_eq!(hybrid.protocol, ListenerProtocol::TlsHybrid);
    assert_eq!(hybrid.proxy_protocol, Some(trusted));
    assert_eq!(find(&specs, 80).protocol, ListenerProtocol::Http);
    assert_eq!(find(&specs, 8443).protocol, ListenerProtocol::TlsL4);
    assert_eq!(find(&specs, 9000).protocol, ListenerProtocol::Tcp);
    assert_eq!(find(&specs, 9001).protocol, ListenerProtocol::Udp);
}

#[test]
fn listeners_are_bound_on_their_internal_ports() {
    let health = health(vec![entry(
        "a",
        ListenerInfo { port: 443, internal_port: 30001, ..Default::default() },
    )]);
    let specs = derive_gateway_specs(&health, &PortSet::of(&vec![443]));
    assert_eq!(specs.len(), 1);
    assert_eq!(specs[0].port, 30001);
    assert!(derive_advertised_ports(&health).contains(&specs[0].port));
}

#[test]
fn ingress_ports_are_fixed_and_kept_from_gateways() {
    let ports = IngressPorts::new(Some(80), Some(443));
    let specs = build_ingress_listeners(ports, false);
    assert_eq!(specs, vec![ListenerSpec::http(80), ListenerSpec::https(443)]);
    assert!(build_ingress_listeners(ports, true).is_empty());

    let health = health(vec![
        entry("a", info(80, ListenerReadiness::NotApplicable)),
        entry("b", info(8080, ListenerReadiness::NotApplicable)),
    ]);
    let trusted = vec!["10.0.0.0/8".to_string()];
    let plan = plan_listeners(ports, false, true, &trusted, &health);
    assert_eq!(plan.ingress.len(), 2);
    assert!(plan.ingress.iter().all(|s| s.proxy_protocol
        == Some(ProxyProtocolConfig { enabled: true, trusted_sources: trusted.clone() })));
    assert_eq!(plan.excluded.listed(), &vec![80, 443]);
    assert_eq!(plan.gateway.len(), 1);
    assert_eq!(plan.gateway[0].port, 8080);
    assert!(!plan.all_rejected);
}

#[test]
fn proxy_protocol_without_trusted_sources_shuts_everyone_out() {
    assert_eq!(ingress_proxy_protocol(false, &vec![]), (None, false));
    let (config, all_rejected) = ingress_proxy_protocol(true, &vec![]);
    assert!(config.is_some());
    assert!(all_rejected);
}

fn class(name: &str, controller: &str) -> GatewayClass {
    GatewayClass {
        metadata: ObjectMeta { name: Some(name.to_string()), ..Default::default() },
        controller_name: controller.to_string(),
        ..Default::default()
    }
}

fn gateway(class: &str, listeners: &[(i32, &str)]) -> Gateway {
    Gateway {
        spec: GatewaySpec {
            gateway_class_name: class.to_string(),
            listeners: listeners
                .iter()
                .map(|(port, protocol)| Listener {
                    port: *port,
                    protocol: protocol.to_string(),
                    ..Default::default()
                })
                .collect(),
            parameters_ref: None,
        },
        ..Default::default()
    }
}

#[test]
fn ports_are_discovered_once_from_owned_gateways() {
    let classes = vec![class("ours", "me"), class("theirs", "other")];
    let gateways = vec![
        gateway("ours", &[(80, "HTTP"), (8080, "HTTP"), (9000, "TCP"), (9000, "HTTP")]),
        gateway("theirs", &[(7000, "HTTP")]),
        gateway("ours", &[(8080, "HTTPS"), (8443, "TLS"), (443, "HTTPS")]),
    ];
    let specs = discover_gateway_ports(&gateways, &classes, "me", &vec![80]);
    assert_eq!(
        specs,
        vec![ListenerSpec::http(8080), ListenerSpec::https(8443), ListenerSpec::https(443)]
    );
}

#[test]
fn a_dedicated_proxy_binds_the_ports_of_its_own_gateway() {
    let gw = gateway("ours", &[(80, "HTTP"), (443, "HTTPS"), (443, "HTTP")]);
    assert_eq!(
        discover_dedicated_gateway_ports(&gw, &class("ours", "me"), "me"),
        vec![ListenerSpec::http(80), ListenerSpec::https(443)]
    );
    assert!(discover_dedicated_gateway_ports(&gw, &class("ours", "other"), "me").is_empty());
}

#[test]
fn a_port_is_cut_to_sixteen_bits() {
    let gw = gateway("ours", &[(65_536 + 80, "HTTP")]);
    assert_eq!(
        discover_dedicated_gateway_ports(&gw, &class("ours", "me"), "me"),
        vec![ListenerSpec::http(80)]
    );
}

#[test]
fn a_restart_waits_for_new_ports() {
    let reloader =
        HotReloader::new(PortSet::of(&vec![80, 443, 8080]), PortSet::of(&vec![443, 80]));
    assert_eq!(reloader.desired_ports(&vec![]).listed(), &vec![80, 443]);
    assert_eq!(reloader.ports_to_rebind(&vec![]), None);
    assert_eq!(reloader.ports_to_rebind(&vec![vec![8080]]), None);
    assert_eq!(
        reloader.ports_to_rebind(&vec![vec![9443, 8080], vec![9000]]),
        Some(vec![9000, 9443])
    );
}

#[test]
fn ports_are_looked_at_once_changes_have_ceased() {
    let wait = ReloadAction::AwaitQuiet(Period::from_secs(2));
    let (s, a) = reload_step(ReloadState::Idle, ReloadEvent::Changed);
    assert_eq!((s, a), (ReloadState::Settling, wait));
    assert_eq!(reload_step(s, ReloadEvent::Changed), (ReloadState::Settling, wait));
    assert_eq!(
        reload_step(s, ReloadEvent::Quiet),
        (ReloadState::Checking, ReloadAction::CheckPorts)
    );
    assert_eq!(reload_step(s, ReloadEvent::Shutdown).1, ReloadAction::Stop);
}

#[test]
fn a_successor_takes_over_only_where_ports_are_missing() {
    let reloader = HotReloader::new(PortSet::of(&vec![80, 8080]), PortSet::of(&vec![80]));
    let enough = reloader.check_ports(&vec![vec![8080]]);
    assert_eq!(enough, ReloadEvent::Checked { missing: false });
    assert_eq!(
        reload_step(ReloadState::Checking, enough),
        (ReloadState::Idle, ReloadAction::AwaitChange)
    );
    let missing = reloader.check_ports(&vec![vec![9000]]);
    let (s, a) = reload_step(ReloadState::Checking, missing);
    assert_eq!((s, a), (ReloadState::Starting, ReloadAction::StartChild));
    assert_eq!(reload_step(s, ReloadEvent::Changed), (s, ReloadAction::AwaitOutcome));
    assert_eq!(
        reload_step(s, ReloadEvent::Started { ok: false }),
        (ReloadState::Idle, ReloadAction::AwaitChange)
    );
    let (s, a) = reload_step(s, ReloadEvent::Started { ok: true });
    assert_eq!((s, a), (ReloadState::Replaced, ReloadAction::Exit(0)));
    assert_eq!(reload_step(s, ReloadEvent::Changed).1, ReloadAction::Stop);
}

#[test]
fn a_successor_waits_for_its_parent() {
    let poll = Some(Period::from_millis(100));
    assert_eq!(parent_wait_step(false, Period::from_secs(0)), poll);
    assert_eq!(parent_wait_step(false, Period::from_millis(29_999)), poll);
    assert_eq!(parent_wait_step(false, Period::from_secs(30)), None);
    assert_eq!(parent_wait_step(true, Period::from_secs(0)), None);
}
