use coxswain::cli::{
    build_controller_config, parse_json, parse_label_selector, parse_service_type,
    period_flag_value, pick_runner, pod_template_from, resolve_controller_image,
    AccessLogPathMode, CommonArgs, ControllerArgs, IngressDefaultBackend, Network, ProxyRoleArgs,
    ProxyScope, RelayRoleArgs, RelayScope, Role, Runner, ServiceType, SettingsError,
    UnnamedNamespace, WatchScope, MISSING_ROLE,
};
use coxswain::config::{
    AddressText, ControllerConfig, ControllerConfigError, Period, StatusAddress,
};
use coxswain::discovery::{
    allowed_client_prefix, build_discovery_client_config, build_upstream_policy,
    controller_bootstrap_endpoint, controller_stream_endpoint, map_ca_mode, proxy_subscription,
    relay_subscription, roster_step, server_svid_ttl, shared_relay_endpoint, CaMode, CaModeArg,
    DiscoveryClientArgs, RosterAction, RosterEvent, Scope,
};
use coxswain::table::Table;

#[test]
fn access_log_modes_are_written_as_flags() {
    assert_eq!(AccessLogPathMode::Full.as_flag_value(), "full");
    assert_eq!(AccessLogPathMode::Pattern.as_flag_value(), "pattern");
    assert_eq!(AccessLogPathMode::Omitted.as_flag_value(), "none");
}

fn labels(s: &str) -> Vec<(String, String)> {
    let t = parse_label_selector(s).unwrap_or_else(|e| panic!("{e}"));
    let mut v: Vec<(String, String)> = (0..t.count())
        .map(|i| {
            let (k, v) = t.entry(i);
            (k.clone(), v.clone())
        })
        .collect();
    v.sort();
    v
}

fn pair(k: &str, v: &str) -> (String, String) {
    (k.to_string(), v.to_string())
}

#[test]
fn label_selectors_are_read_pair_by_pair() {
    assert_eq!(labels(""), vec![]);
    assert_eq!(labels(" , ,"), vec![]);
    assert_eq!(labels("a=b"), vec![pair("a", "b")]);
    assert_eq!(labels(" a = b , c=d=e,"), vec![pair("a", "b"), pair("c", "d=e")]);
    assert_eq!(labels("a=1,a=2"), vec![pair("a", "2")]);
    assert_eq!(labels("a="), vec![pair("a", "")]);
}

fn selector_error(s: &str) -> String {
    match parse_label_selector(s) {
        Ok(_) => panic!("accepted {s}"),
        Err(e) => e,
    }
}

#[test]
fn bad_selector_entries_are_named() {
    assert_eq!(
        selector_error("a=b, nonsense ,=c"),
        "invalid label selector entry \"nonsense\": expected key=value"
    );
    assert_eq!(
        selector_error("a=b,  = c\"d"),
        "invalid label selector entry \"= c\\\"d\": empty key"
    );
}

#[test]
fn service_types_are_read_in_any_case() {
    assert_eq!(parse_service_type("LoadBalancer"), Ok(ServiceType::LoadBalancer));
    assert_eq!(parse_service_type("  clusterip\n"), Ok(ServiceType::ClusterIp));
    assert_eq!(
        parse_service_type(" NodePort "),
        Err("invalid shared VIP service type \"nodeport\": expected LoadBalancer or ClusterIP"
            .to_string())
    );
}

#[test]
fn pod_templates_are_json() {
    assert_eq!(
        parse_json(" { \"spec\" : { \"nodeSelector\" : { } } } "),
        Ok("{\"spec\":{\"nodeSelector\":{}}}".to_string())
    );
    let e = parse_json("{ nope").unwrap_err();
    assert!(e.starts_with("invalid pod-template JSON: "), "{e}");
    assert!(e.len() > "invalid pod-template JSON: ".len());
    assert_eq!(
        pod_template_from(Err("x".to_string())),
        Err("invalid pod-template JSON: x".to_string())
    );
}

#[test]
fn networks_are_read_and_written() {
    assert_eq!(Network::parse("10.0.0.0/8").unwrap().text, "10.0.0.0/8");
    assert_eq!(Network::parse("FD00:0::/8").unwrap().text, "fd00::/8");
    assert_eq!(Network::parse("10.0.0.0/40").unwrap_err(), "invalid IP address syntax");
}

#[test]
fn periods_are_written_for_people() {
    assert_eq!(period_flag_value(Period::from_secs(30)), "30s");
    assert_eq!(period_flag_value(Period::from_secs(9420)), "2h 37m");
    assert_eq!(period_flag_value(Period::from_millis(1500)), "1s 500ms");
    assert_eq!(period_flag_value(Period::from_secs(0)), "0s");
}

fn controller_args() -> ControllerArgs {
    ControllerArgs {
        controller_lease_ttl: Period::from_secs(15),
        controller_lease_renew_interval: Period::from_secs(5),
        status_address: None,
        shared_proxy_selector: Table::new(),
        shared_proxy_enabled: true,
        shared_proxy_name: "coxswain-shared-proxy".to_string(),
        shared_proxy_replicas: 1,
        shared_proxy_cpu_request: "100m".to_string(),
        shared_proxy_memory_request: "128Mi".to_string(),
        shared_proxy_cpu_limit: "500m".to_string(),
        shared_proxy_memory_limit: "256Mi".to_string(),
        shared_proxy_autoscaling_enabled: false,
        shared_proxy_autoscaling_min_replicas: 2,
        shared_proxy_autoscaling_max_replicas: 10,
        shared_proxy_autoscaling_target_cpu: 80,
        shared_proxy_threads: 0,
        shared_proxy_upstream_keepalive_pool_size: 128,
        shared_proxy_shutdown_grace_period: Period::from_secs(30),
        shared_proxy_shutdown_timeout: Period::from_secs(5),
        shared_proxy_listener_drain_timeout: Period::from_secs(90),
        shared_proxy_default_request_timeout: None,
        shared_proxy_default_backend_request_timeout: Some(Period::from_millis(500)),
        shared_proxy_accept_proxy_protocol: true,
        shared_proxy_trusted_sources: vec![
            Network::parse("10.0.0.0/8").unwrap(),
            Network::parse("127.0.0.1/32").unwrap(),
        ],
        shared_proxy_ingress_default_backend: Some(IngressDefaultBackend {
            namespace: "default".to_string(),
            name: "my-404-page".to_string(),
            port: 80,
        }),
        shared_proxy_access_log: true,
        shared_proxy_access_log_path_mode: AccessLogPathMode::Pattern,
        shared_proxy_pod_template: Some("{}".to_string()),
    }
}

#[test]
fn the_pool_is_rendered_from_its_flags() {
    let c = controller_args().shared_proxy_config();
    assert!(c.enabled && c.access_log && c.accept_proxy_protocol && !c.autoscaling_enabled);
    assert_eq!(c.name, "coxswain-shared-proxy");
    assert_eq!((c.replicas, c.threads, c.upstream_keepalive_pool_size), (1, 0, 128));
    assert_eq!(
        (c.cpu_request.as_str(), c.memory_request.as_str()),
        ("100m", "128Mi")
    );
    assert_eq!((c.cpu_limit.as_str(), c.memory_limit.as_str()), ("500m", "256Mi"));
    assert_eq!(
        (c.autoscaling_min_replicas, c.autoscaling_max_replicas, c.autoscaling_target_cpu),
        (2, 10, 80)
    );
    assert_eq!(c.shutdown_grace_period, "30s");
    assert_eq!(c.shutdown_timeout, "5s");
    assert_eq!(c.listener_drain_timeout, "1m 30s");
    assert_eq!(c.default_request_timeout, None);
    assert_eq!(c.default_backend_request_timeout, Some("500ms".to_string()));
    assert_eq!(c.trusted_sources, vec!["10.0.0.0/8", "127.0.0.1/32"]);
    assert_eq!(c.ingress_default_backend, Some("default/my-404-page:80".to_string()));
    assert_eq!(c.access_log_path_mode, "pattern");
    assert_eq!(c.pod_template, Some("{}".to_string()));
}

fn common() -> CommonArgs {
    CommonArgs {
        controller_name: "ctrl".to_string(),
        pod_name: "pod".to_string(),
        pod_namespace: "ns".to_string(),
        watch_namespace: Some("apps".to_string()),
        ingress_http_port: Some(80),
        ingress_https_port: None,
    }
}

#[test]
fn a_known_selector_gives_gateways_addresses_of_their_own() {
    let mut args = controller_args();
    args.status_address = Some(AddressText { raw: " lb.example.com ".to_string(), ip: None });
    let c = build_controller_config(common(), args).unwrap();
    assert!(!c.shared_vip_addressing);
    assert_eq!(c.status_address, Some(StatusAddress::Hostname("lb.example.com".to_string())));
    assert_eq!(c.watch_namespace, Some("apps".to_string()));
    assert_eq!((c.ingress_ports.http, c.ingress_ports.https), (Some(80), None));

    let mut args = controller_args();
    args.shared_proxy_selector = parse_label_selector("a=b").unwrap_or_else(|e| panic!("{e}"));
    assert!(build_controller_config(common(), args).unwrap().shared_vip_addressing);
}

fn refusal(r: Result<ControllerConfig, SettingsError>) -> ControllerConfigError {
    match r {
        Err(SettingsError::Config(e)) => e,
        _ => panic!("a configuration that is not valid"),
    }
}

#[test]
fn a_list_with_an_unnamed_namespace_is_refused_first() {
    let mut flags = common();
    flags.watch_namespace = Some("apps,,infra".to_string());
    let mut args = controller_args();
    args.controller_lease_renew_interval = Period::from_secs(6);
    assert_eq!(build_controller_config(flags, args), Err(SettingsError::UnnamedNamespace));
    let mut flags = common();
    flags.watch_namespace = Some("apps,infra".to_string());
    let c = build_controller_config(flags, controller_args()).unwrap();
    assert_eq!(c.watch_namespace, Some("apps,infra".to_string()));
}

#[test]
fn bad_settings_are_refused_with_their_reason() {
    let mut args = controller_args();
    args.controller_lease_renew_interval = Period::from_secs(6);
    let e = refusal(build_controller_config(common(), args));
    assert_eq!(e.message(), "lease.renew_interval (6s) must be at most 1/3 of lease.ttl (15s)");

    let mut args = controller_args();
    args.status_address = Some(AddressText { raw: " \t".to_string(), ip: None });
    let e = refusal(build_controller_config(common(), args));
    assert_eq!(e, ControllerConfigError::EmptyStatusAddress);
    assert_eq!(e.message(), "status_address must not be empty");
}

#[test]
fn watched_namespaces_have_names() {
    assert_eq!(WatchScope::parse(None), Ok(WatchScope::Cluster));
    assert_eq!(
        WatchScope::parse(Some("ns1,ns2")),
        Ok(WatchScope::Namespaces(vec!["ns1".to_string(), "ns2".to_string()]))
    );
    assert_eq!(WatchScope::parse(Some("ns1,")), Err(UnnamedNamespace));
    assert_eq!(WatchScope::parse(Some("")), Err(UnnamedNamespace));
}

fn proxy(shared: bool, name: Option<&str>, namespace: Option<&str>) -> ProxyRoleArgs {
    ProxyRoleArgs {
        shared,
        gateway_name: name.map(str::to_string),
        gateway_namespace: namespace.map(str::to_string),
    }
}

fn dedicated_scope() -> ProxyScope {
    ProxyScope::Gateway { name: "my-gw".to_string(), namespace: "tenant-a".to_string() }
}

#[test]
fn the_flags_settle_what_a_pod_runs() {
    assert_eq!(proxy(true, None, None).scope(), ProxyScope::Shared);
    assert_eq!(proxy(false, Some("my-gw"), Some("tenant-a")).scope(), dedicated_scope());
    assert!(matches!(pick_runner(Some(Role::Controller)), Ok(Runner::Controller)));
    assert!(matches!(
        pick_runner(Some(Role::Proxy(proxy(true, None, None)))),
        Ok(Runner::Proxy(ProxyScope::Shared))
    ));
    let relay = RelayRoleArgs { shared: false, namespace: Some("team-a".to_string()) };
    assert_eq!(relay.scope().label(), "namespace/team-a");
    match pick_runner(Some(Role::Relay(relay))) {
        Ok(Runner::Relay(RelayScope::Namespace { namespace })) => assert_eq!(namespace, "team-a"),
        _ => panic!("a relay of one namespace"),
    }
    assert_eq!(RelayRoleArgs { shared: true, namespace: None }.scope().label(), "shared");
    match pick_runner(None) {
        Err(e) => {
            assert_eq!(e, MISSING_ROLE);
            assert!(e.starts_with("missing role: pick one of `controller`"));
        }
        Ok(_) => panic!("a role must be given"),
    }
}

#[test]
fn dedicated_proxies_run_the_image_of_their_controller() {
    assert_eq!(resolve_controller_image(Some("r/c:1".to_string()), "0.6.0"), "r/c:1");
    assert_eq!(
        resolve_controller_image(None, "0.6.0"),
        "ghcr.io/coxswain-labs/coxswain:0.6.0"
    );
}

#[test]
fn endpoints_name_the_services_of_the_installation() {
    assert_eq!(
        controller_stream_endpoint("coxswain-system", 50051),
        "https://coxswain-controller-discovery.coxswain-system.svc:50051"
    );
    assert_eq!(
        controller_bootstrap_endpoint("coxswain-system", 50052),
        "https://coxswain-controller-discovery-bootstrap.coxswain-system.svc:50052"
    );
    assert_eq!(
        shared_relay_endpoint("coxswain-system", 50051),
        "https://coxswain-relay-shared.coxswain-system.svc:50051"
    );
    assert_eq!(allowed_client_prefix("cluster.local"), "spiffe://cluster.local/");
    assert_eq!(server_svid_ttl(), Period::from_secs(365 * 24 * 60 * 60));
    assert_eq!(map_ca_mode(CaModeArg::Auto), CaMode::Auto);
    assert_eq!(map_ca_mode(CaModeArg::External), CaMode::External);
}

fn disco(bootstrap: &str) -> DiscoveryClientArgs {
    DiscoveryClientArgs {
        discovery_bootstrap_endpoint: bootstrap.to_string(),
        discovery_sa_token_path: "/token".to_string(),
        discovery_ca_bundle_path: "/ca.crt".to_string(),
        discovery_trust_domain: "cluster.local".to_string(),
    }
}

#[test]
fn built_client_config_always_carries_an_upstream_policy() {
    let args = disco("https://coxswain-controller-discovery-bootstrap.coxswain-system.svc:50052");
    let plan = build_discovery_client_config(
        &args,
        "pod",
        "team-a",
        Scope::SharedPool,
        Some("coxswain-system".to_string()),
    );
    let policy = &plan.upstream_policy;
    assert_eq!(*policy, build_upstream_policy("cluster.local", "team-a", "coxswain-system"));
    assert_eq!(
        policy.own_namespace, "team-a",
        "the wired policy must be parameterised with this node's own namespace"
    );
    assert_ne!(
        *policy,
        build_upstream_policy("cluster.local", "team-b", "coxswain-system"),
        "the wired policy must not be that of a peer tenant"
    );
    assert_eq!(policy.install_namespace, "coxswain-system");
    assert_eq!(policy.trust_domain, "cluster.local");
    assert_eq!(policy.names.controller_service, "coxswain-controller-discovery");
    assert_eq!(policy.names.controller_sa, "coxswain-controller");
    assert_eq!(policy.names.relay, "coxswain-relay");
    assert_eq!(policy.names.shared_relay, "coxswain-relay-shared");
    assert_eq!(plan.bootstrap_namespace, "coxswain-system");
    assert_eq!(plan.node, "pod");
}

#[test]
fn loopback_bootstrap_endpoint_falls_back_to_the_nodes_own_namespace() {
    let plan = build_discovery_client_config(
        &disco("https://127.0.0.1:50052"),
        "pod",
        "team-a",
        Scope::SharedPool,
        None,
    );
    assert_eq!(
        plan.bootstrap_namespace, "team-a",
        "a non-service-DNS bootstrap endpoint must fall back to the pod's own namespace"
    );
    let policy = &plan.upstream_policy;
    assert_eq!(*policy, build_upstream_policy("cluster.local", "team-a", "team-a"));
    assert_eq!(
        policy.own_namespace, "team-a",
        "the node's own namespace stays the one whose relay is legal under the fallback"
    );
    assert_eq!(
        policy.install_namespace, "team-a",
        "the fallback must not widen the legal set to other namespaces"
    );
}

#[test]
fn nodes_subscribe_to_what_they_serve() {
    assert_eq!(proxy_subscription(ProxyScope::Shared), Scope::SharedPool);
    assert_eq!(
        proxy_subscription(dedicated_scope()),
        Scope::Gateway { name: "my-gw".to_string(), namespace: "tenant-a".to_string() }
    );
    assert_eq!(
        relay_subscription(RelayScope::Namespace { namespace: "team-a".to_string() }),
        Scope::Namespace { namespace: "team-a".to_string() }
    );
}

#[test]
fn a_burst_of_roster_changes_makes_one_report() {
    assert_eq!(
        roster_step(RosterEvent::Changed),
        RosterAction::Pause(Period::from_millis(200))
    );
    assert_eq!(roster_step(RosterEvent::Paused), RosterAction::Send);
    assert_eq!(roster_step(RosterEvent::Sent), RosterAction::AwaitChange);
    assert_eq!(roster_step(RosterEvent::RosterGone), RosterAction::Stop);
    assert_eq!(roster_step(RosterEvent::UpstreamGone), RosterAction::Stop);
}
