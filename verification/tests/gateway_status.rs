use coxswain::conditions::{make_condition, Condition};
use coxswain::config::StatusAddress;
use coxswain::gateway_status::{
    build_gateway_status_patch, desired_gateway_accepted, gateway_needs_status_patch,
    GatewayConditionReason, SharedAddressDecision, StaticAddressOutcome, SupportedAddressType,
    TypedAddress,
};
use coxswain::json::Json;
use coxswain::listener_status::{
    BackendClientCertOutcome, FrontendValidation, GatewayListenerStatus, ListenerEntry,
    ListenerInfo, ListenerSource,
};
use coxswain::resources::{
    Gateway, GatewayAddress, GatewaySpec, GatewayStatus, Listener, ListenerStatus, ObjectKey,
    ObjectMeta,
};
use serde_json::Value;

const NOW: &str = "1970-01-01T00:00:00Z";

fn value(j: &Json) -> Value {
    match j {
        Json::Null => Value::Null,
        Json::Bool(b) => Value::from(*b),
        Json::Int(n) => Value::from(*n),
        Json::Str(s) => Value::from(s.as_str()),
        Json::Arr(v) => Value::Array(v.iter().map(value).collect()),
        Json::Obj(m) => Value::Object(m.iter().map(|(k, v)| (k.clone(), value(v))).collect()),
    }
}

fn json(s: &str) -> Value {
    serde_json::from_str(s).unwrap()
}

fn no_addr() -> SharedAddressDecision {
    SharedAddressDecision {
        legacy_addr: None,
        static_outcome: StaticAddressOutcome::not_engaged(),
        params_ref_unsupported: false,
        converged: true,
        settled_negative: false,
        pending_detail: None,
    }
}

fn legacy_addr(addr: StatusAddress) -> SharedAddressDecision {
    SharedAddressDecision { legacy_addr: Some(addr), ..no_addr() }
}

fn condition(type_: &str, observed_gen: i64) -> Condition {
    make_condition(type_, "True", type_, "", observed_gen, NOW)
}

fn listener_status(name: &str, cond_gen: i64) -> ListenerStatus {
    ListenerStatus {
        name: name.to_string(),
        attached_routes: 0,
        supported_kinds: None,
        conditions: vec![
            condition("Accepted", cond_gen),
            condition("Programmed", cond_gen),
            condition("ResolvedRefs", cond_gen),
        ],
    }
}

fn gateway(
    meta_gen: i64,
    top_conds: Option<Vec<Condition>>,
    listeners: Option<Vec<ListenerStatus>>,
) -> Gateway {
    Gateway {
        metadata: ObjectMeta { generation: Some(meta_gen), ..Default::default() },
        spec: GatewaySpec {
            listeners: vec![Listener {
                name: "http".to_string(),
                port: 80,
                protocol: "HTTP".to_string(),
                ..Default::default()
            }],
            ..Default::default()
        },
        status: Some(GatewayStatus { conditions: top_conds, listeners, ..Default::default() }),
    }
}

fn up_to_date() -> Gateway {
    gateway(
        1,
        Some(vec![condition("Accepted", 1), condition("Programmed", 1)]),
        Some(vec![listener_status("http", 1)]),
    )
}

fn with_resolved_refs() -> Gateway {
    gateway(
        1,
        Some(vec![
            condition("Accepted", 1),
            condition("Programmed", 1),
            condition("ResolvedRefs", 1),
        ]),
        Some(vec![listener_status("http", 1)]),
    )
}

fn default_status() -> GatewayListenerStatus {
    GatewayListenerStatus::default()
}

fn patch_of(
    gw: &Gateway,
    health: &GatewayListenerStatus,
    generation: i64,
    decision: &SharedAddressDecision,
) -> Value {
    let listeners =
        gw.spec.listeners.iter().map(|l| listener_status(&l.name, generation)).collect();
    value(&build_gateway_status_patch(gw, health, listeners, generation, NOW, decision))
}

fn cond<'a>(patch: &'a Value, type_: &str) -> &'a Value {
    patch["status"]["conditions"]
        .as_array()
        .expect("conditions array")
        .iter()
        .find(|c| c["type"] == type_)
        .expect("condition present")
}

#[test]
fn gateway_status_needs_patch_when_no_status() {
    let gw = Gateway { status: None, ..Default::default() };
    assert!(gateway_needs_status_patch(&gw, &default_status(), &no_addr()));
}

#[test]
fn gateway_status_needs_patch_when_accepted_missing() {
    let gw = gateway(1, Some(vec![condition("Programmed", 1)]), None);
    assert!(gateway_needs_status_patch(&gw, &default_status(), &no_addr()));
}

#[test]
fn needs_patch_when_programmed_missing() {
    let gw = gateway(1, Some(vec![condition("Accepted", 1)]), None);
    assert!(gateway_needs_status_patch(&gw, &default_status(), &no_addr()));
}

#[test]
fn needs_patch_when_top_level_condition_stale() {
    let gw = gateway(
        2,
        Some(vec![condition("Accepted", 0), condition("Programmed", 0)]),
        Some(vec![listener_status("http", 2)]),
    );
    assert!(gateway_needs_status_patch(&gw, &default_status(), &no_addr()));
}

#[test]
fn needs_patch_when_listener_condition_stale() {
    let gw = gateway(
        2,
        Some(vec![condition("Accepted", 2), condition("Programmed", 2)]),
        Some(vec![listener_status("http", 0)]),
    );
    assert!(gateway_needs_status_patch(&gw, &default_status(), &no_addr()));
}

#[test]
fn needs_patch_when_listener_count_mismatch() {
    let gw = gateway(
        1,
        Some(vec![condition("Accepted", 1), condition("Programmed", 1)]),
        Some(vec![]),
    );
    assert!(gateway_needs_status_patch(&gw, &default_status(), &no_addr()));
}

#[test]
fn gateway_status_no_patch_needed_when_fully_up_to_date() {
    assert!(!gateway_needs_status_patch(&up_to_date(), &default_status(), &no_addr()));
}

#[test]
fn needs_patch_when_vip_address_not_yet_written() {
    let addr = StatusAddress::Ip("10.0.0.5".to_string());
    assert!(gateway_needs_status_patch(&up_to_date(), &default_status(), &legacy_addr(addr)));
}

#[test]
fn no_patch_when_vip_address_already_matches() {
    let mut gw = up_to_date();
    if let Some(st) = gw.status.as_mut() {
        st.addresses = Some(vec![GatewayAddress {
            type_: Some("IPAddress".to_string()),
            value: "10.0.0.5".to_string(),
        }]);
    }
    let addr = StatusAddress::Ip("10.0.0.5".to_string());
    assert!(!gateway_needs_status_patch(&gw, &default_status(), &legacy_addr(addr)));
}

fn resolved() -> BackendClientCertOutcome {
    BackendClientCertOutcome {
        resolved_refs_status: "True".to_string(),
        resolved_refs_reason: "ResolvedRefs".to_string(),
        message: String::new(),
    }
}

fn invalid_ref() -> BackendClientCertOutcome {
    BackendClientCertOutcome {
        resolved_refs_status: "False".to_string(),
        resolved_refs_reason: "InvalidClientCertificateRef".to_string(),
        message: "Secret gw-ns/missing: secret not found in store".to_string(),
    }
}

fn health_with_backend(outcome: BackendClientCertOutcome) -> GatewayListenerStatus {
    GatewayListenerStatus { backend_client_cert: Some(outcome), ..Default::default() }
}

#[test]
fn needs_patch_when_backend_resolvedrefs_missing() {
    assert!(gateway_needs_status_patch(
        &up_to_date(),
        &health_with_backend(resolved()),
        &no_addr()
    ));
}

#[test]
fn needs_patch_when_backend_resolvedrefs_reason_changed() {
    assert!(gateway_needs_status_patch(
        &with_resolved_refs(),
        &health_with_backend(invalid_ref()),
        &no_addr()
    ));
}

#[test]
fn no_patch_when_backend_resolvedrefs_resolved_and_present() {
    assert!(!gateway_needs_status_patch(
        &with_resolved_refs(),
        &health_with_backend(resolved()),
        &no_addr()
    ));
}

#[test]
fn needs_patch_when_backend_resolvedrefs_removed() {
    assert!(gateway_needs_status_patch(&with_resolved_refs(), &default_status(), &no_addr()));
}

#[test]
fn patch_emits_resolvedrefs_false_keeping_accepted_true() {
    let gw = gateway(1, None, None);
    let patch = patch_of(&gw, &health_with_backend(invalid_ref()), 1, &no_addr());
    let accepted = cond(&patch, "Accepted");
    assert_eq!(accepted["status"], "True");
    assert_eq!(accepted["reason"], "Accepted");
    let rr = cond(&patch, "ResolvedRefs");
    assert_eq!(rr["status"], "False");
    assert_eq!(rr["reason"], "InvalidClientCertificateRef");
}

#[test]
fn patch_emits_resolvedrefs_true_when_resolved() {
    let gw = gateway(1, None, None);
    let patch = patch_of(&gw, &health_with_backend(resolved()), 1, &no_addr());
    let rr = cond(&patch, "ResolvedRefs");
    assert_eq!(rr["status"], "True");
    assert_eq!(rr["reason"], "ResolvedRefs");
}

fn engaged(
    accepted_override: Option<GatewayConditionReason>,
    programmed_override: Option<GatewayConditionReason>,
    status_addresses: Vec<TypedAddress>,
) -> SharedAddressDecision {
    SharedAddressDecision {
        static_outcome: StaticAddressOutcome {
            accepted_override,
            programmed_override,
            status_addresses,
            feature_engaged: true,
            requests_pinnable_ip: true,
        },
        ..no_addr()
    }
}

#[test]
fn patch_sets_accepted_false_on_unsupported_address() {
    let gw = gateway(1, None, None);
    let decision = engaged(
        Some(GatewayConditionReason::UnsupportedAddress),
        Some(GatewayConditionReason::Invalid),
        vec![],
    );
    let patch = patch_of(&gw, &default_status(), 1, &decision);
    let acc = cond(&patch, "Accepted");
    assert_eq!(acc["status"], "False");
    assert_eq!(acc["reason"], "UnsupportedAddress");
    let prog = cond(&patch, "Programmed");
    assert_eq!(prog["status"], "False");
    assert_eq!(prog["reason"], "Invalid");
    assert_eq!(patch["status"]["addresses"], json("[]"));
}

#[test]
fn patch_sets_accepted_false_on_invalid_parameters_ref() {
    let gw = gateway(1, None, None);
    let decision = SharedAddressDecision {
        static_outcome: StaticAddressOutcome {
            accepted_override: Some(GatewayConditionReason::UnsupportedAddress),
            programmed_override: None,
            status_addresses: vec![],
            feature_engaged: true,
            requests_pinnable_ip: false,
        },
        params_ref_unsupported: true,
        ..no_addr()
    };
    let patch = patch_of(&gw, &default_status(), 1, &decision);
    let acc = cond(&patch, "Accepted");
    assert_eq!(acc["status"], "False");
    assert_eq!(
        acc["reason"], "InvalidParameters",
        "unsupported parametersRef must outrank the address override"
    );
}

fn gateway_with_listeners(pairs: &[(&str, &str)]) -> Gateway {
    Gateway {
        metadata: ObjectMeta { generation: Some(1), ..Default::default() },
        spec: GatewaySpec {
            listeners: pairs
                .iter()
                .enumerate()
                .map(|(i, (name, protocol))| Listener {
                    name: (*name).to_string(),
                    port: 80 + i as i32,
                    protocol: (*protocol).to_string(),
                    ..Default::default()
                })
                .collect(),
            ..Default::default()
        },
        status: None,
    }
}

fn health_with(pairs: &[(&str, ListenerInfo)]) -> GatewayListenerStatus {
    GatewayListenerStatus {
        listeners: pairs
            .iter()
            .map(|(name, info)| ListenerEntry {
                source: ListenerSource::Gateway,
                name: name.to_string(),
                info: info.clone(),
            })
            .collect(),
        ..Default::default()
    }
}

fn unsupported() -> ListenerInfo {
    ListenerInfo { accepted: false, unsupported: true, ..Default::default() }
}

fn unsupported_status(name: &str) -> ListenerStatus {
    ListenerStatus {
        name: name.to_string(),
        attached_routes: 0,
        supported_kinds: Some(vec![]),
        conditions: vec![
            make_condition("Accepted", "False", "UnsupportedProtocol", "", 1, NOW),
            make_condition("Programmed", "False", "Invalid", "", 1, NOW),
            make_condition("ResolvedRefs", "True", "ResolvedRefs", "", 1, NOW),
        ],
    }
}

#[test]
fn gateway_accepted_false_when_all_listeners_unsupported_protocol() {
    let gw = gateway_with_listeners(&[("invalid", "INVALID")]);
    let health = health_with(&[("invalid", unsupported())]);

    assert_eq!(
        desired_gateway_accepted(&gw, &health, &no_addr()),
        ("False", GatewayConditionReason::ListenersNotValid)
    );

    let patch = value(&build_gateway_status_patch(
        &gw,
        &health,
        vec![unsupported_status("invalid")],
        1,
        NOW,
        &no_addr(),
    ));
    let acc = cond(&patch, "Accepted");
    assert_eq!(acc["status"], "False");
    assert_eq!(acc["reason"], "ListenersNotValid");

    let listener = patch["status"]["listeners"]
        .as_array()
        .expect("listeners")
        .iter()
        .find(|l| l["name"] == "invalid")
        .expect("invalid listener");
    assert_eq!(
        listener["supportedKinds"],
        json("[]"),
        "unsupported-protocol listener must advertise no supported kinds"
    );
    let l_acc = listener["conditions"]
        .as_array()
        .expect("listener conditions")
        .iter()
        .find(|c| c["type"] == "Accepted")
        .expect("listener Accepted");
    assert_eq!(l_acc["status"], "False");
    assert_eq!(l_acc["reason"], "UnsupportedProtocol");
}

#[test]
fn gateway_accepted_true_listenersnotvalid_when_mixed() {
    let gw = gateway_with_listeners(&[("http", "HTTP"), ("invalid", "INVALID")]);
    let health = health_with(&[("invalid", unsupported())]);

    assert_eq!(
        desired_gateway_accepted(&gw, &health, &no_addr()),
        ("True", GatewayConditionReason::ListenersNotValid)
    );

    let patch = patch_of(&gw, &health, 1, &no_addr());
    let acc = cond(&patch, "Accepted");
    assert_eq!(acc["status"], "True");
    assert_eq!(acc["reason"], "ListenersNotValid");
}

#[test]
fn gateway_accepted_when_all_listeners_supported() {
    let gw = gateway_with_listeners(&[("http", "HTTP"), ("https", "HTTPS")]);
    let health = health_with(&[("https", ListenerInfo::default())]);
    assert_eq!(
        desired_gateway_accepted(&gw, &health, &no_addr()),
        ("True", GatewayConditionReason::Accepted)
    );
}

fn conditions_from(v: &Value) -> Vec<Condition> {
    v.as_array()
        .unwrap()
        .iter()
        .map(|c| Condition {
            type_: c["type"].as_str().unwrap().to_string(),
            status: c["status"].as_str().unwrap().to_string(),
            reason: c["reason"].as_str().unwrap().to_string(),
            message: c["message"].as_str().unwrap().to_string(),
            observed_generation: c["observedGeneration"].as_i64(),
            last_transition_time: c["lastTransitionTime"].as_str().unwrap().to_string(),
        })
        .collect()
}

fn status_from(patch: &Value) -> GatewayStatus {
    let status = &patch["status"];
    GatewayStatus {
        conditions: Some(conditions_from(&status["conditions"])),
        addresses: status["addresses"].as_array().map(|a| {
            a.iter()
                .map(|x| GatewayAddress {
                    type_: x["type"].as_str().map(str::to_string),
                    value: x["value"].as_str().unwrap().to_string(),
                })
                .collect()
        }),
        listeners: Some(
            status["listeners"]
                .as_array()
                .unwrap()
                .iter()
                .map(|l| ListenerStatus {
                    name: l["name"].as_str().unwrap().to_string(),
                    attached_routes: l["attachedRoutes"].as_i64().unwrap() as i32,
                    supported_kinds: None,
                    conditions: conditions_from(&l["conditions"]),
                })
                .collect(),
        ),
        attached_listener_sets: status["attachedListenerSets"].as_i64().map(|n| n as i32),
    }
}

#[test]
fn needs_patch_is_idempotent_for_unsupported_protocol_listener() {
    let gw = gateway_with_listeners(&[("http", "HTTP"), ("invalid", "INVALID")]);
    let health = health_with(&[("invalid", unsupported())]);
    let patch = value(&build_gateway_status_patch(
        &gw,
        &health,
        vec![listener_status("http", 1), unsupported_status("invalid")],
        1,
        NOW,
        &no_addr(),
    ));
    let mut patched = gw.clone();
    patched.status = Some(status_from(&patch));
    assert!(
        !gateway_needs_status_patch(&patched, &health, &no_addr()),
        "status must converge: needs_patch should be False after applying its own patch"
    );
}

#[test]
fn patch_sets_programmed_address_not_usable_keeping_accepted_true() {
    let gw = gateway(1, None, None);
    let decision = engaged(None, Some(GatewayConditionReason::AddressNotUsable), vec![]);
    let patch = patch_of(&gw, &default_status(), 1, &decision);
    let acc = cond(&patch, "Accepted");
    assert_eq!(acc["status"], "True");
    assert_eq!(acc["reason"], "Accepted");
    let prog = cond(&patch, "Programmed");
    assert_eq!(prog["status"], "False");
    assert_eq!(prog["reason"], "AddressNotUsable");
}

#[test]
fn patch_publishes_only_usable_static_address() {
    let gw = gateway(1, None, None);
    let decision = engaged(
        None,
        None,
        vec![TypedAddress {
            type_: SupportedAddressType::IpAddress,
            value: "10.96.0.10".to_string(),
        }],
    );
    let patch = patch_of(&gw, &default_status(), 1, &decision);
    assert_eq!(
        patch["status"]["addresses"],
        json(r#"[{ "type": "IPAddress", "value": "10.96.0.10" }]"#)
    );
    assert_eq!(cond(&patch, "Programmed")["status"], "True");
}

fn not_converged() -> SharedAddressDecision {
    SharedAddressDecision { converged: false, ..no_addr() }
}

#[test]
fn patch_holds_programmed_pending_below_generation_until_converged() {
    let gw = gateway(3, None, None);
    let patch = patch_of(&gw, &default_status(), 3, &not_converged());
    let acc = cond(&patch, "Accepted");
    assert_eq!(acc["status"], "True", "Accepted advances immediately");
    assert_eq!(acc["observedGeneration"], 3);
    let prog = cond(&patch, "Programmed");
    assert_eq!(prog["status"], "False");
    assert_eq!(prog["reason"], "Pending");
    assert_eq!(
        prog["observedGeneration"], 2,
        "Programmed held one generation below current until converged"
    );
}

#[test]
fn patch_settles_programmed_false_invalid_at_current_generation() {
    let gw = gateway(3, None, None);
    let mut decision = not_converged();
    decision.converged = true;
    decision.settled_negative = true;
    let patch = patch_of(&gw, &default_status(), 3, &decision);
    let prog = cond(&patch, "Programmed");
    assert_eq!(prog["status"], "False");
    assert_eq!(prog["reason"], "Invalid");
    assert_eq!(
        prog["observedGeneration"], 3,
        "settled negative stamps at the current generation, never the gen-1 hold"
    );
    assert_eq!(cond(&patch, "Accepted")["observedGeneration"], 3);
}

#[test]
fn patch_carries_pool_bind_detail_while_pending() {
    let gw = gateway(3, None, None);
    let mut decision = not_converged();
    decision.pending_detail = Some(
        "waiting for 1/2 connected shared proxy node(s) to bind internal port(s) [30001]"
            .to_owned(),
    );
    let patch = patch_of(&gw, &default_status(), 3, &decision);
    let prog = cond(&patch, "Programmed");
    assert_eq!(prog["status"], "False");
    assert_eq!(prog["reason"], "Pending");
    assert_eq!(
        prog["message"],
        "waiting for 1/2 connected shared proxy node(s) to bind internal port(s) [30001]"
    );
}

#[test]
fn pending_detail_ignored_once_converged() {
    let gw = gateway(3, None, None);
    let mut decision = no_addr();
    decision.pending_detail = Some("stale detail".to_owned());
    let patch = patch_of(&gw, &default_status(), 3, &decision);
    let prog = cond(&patch, "Programmed");
    assert_eq!(prog["status"], "True");
    assert_ne!(prog["message"], "stale detail");
}

#[test]
fn patch_flips_programmed_true_at_generation_once_converged() {
    let gw = gateway(3, None, None);
    let patch = patch_of(&gw, &default_status(), 3, &no_addr());
    let prog = cond(&patch, "Programmed");
    assert_eq!(prog["status"], "True");
    assert_eq!(prog["reason"], "Programmed");
    assert_eq!(
        prog["observedGeneration"], 3,
        "converged Programmed stamps the current generation"
    );
}

#[test]
fn needs_patch_when_pending_flips_to_converged() {
    let pending = make_condition("Programmed", "False", "Pending", "", 1, NOW);
    let gw = gateway(
        2,
        Some(vec![condition("Accepted", 2), pending]),
        Some(vec![listener_status("http", 2)]),
    );
    assert!(
        gateway_needs_status_patch(&gw, &default_status(), &no_addr()),
        "a pending→converged transition must force a patch"
    );
}

#[test]
fn settled_negative_programmed_stamps_current_generation_even_if_not_converged() {
    let gw = gateway(4, None, None);
    let mut decision = engaged(None, Some(GatewayConditionReason::AddressNotUsable), vec![]);
    decision.converged = false;
    let patch = patch_of(&gw, &default_status(), 4, &decision);
    let prog = cond(&patch, "Programmed");
    assert_eq!(prog["status"], "False");
    assert_eq!(prog["reason"], "AddressNotUsable");
    assert_eq!(
        prog["observedGeneration"], 4,
        "settled negative stamps the current generation, not held"
    );
}

#[test]
fn needs_patch_when_accepted_flips_to_unsupported_address() {
    let decision = engaged(
        Some(GatewayConditionReason::UnsupportedAddress),
        Some(GatewayConditionReason::Invalid),
        vec![],
    );
    assert!(gateway_needs_status_patch(&up_to_date(), &default_status(), &decision));
}

#[test]
fn patch_omits_resolvedrefs_when_ref_absent() {
    let gw = gateway(1, None, None);
    let patch = patch_of(&gw, &default_status(), 1, &no_addr());
    let conds = patch["status"]["conditions"].as_array().expect("conditions array");
    assert!(conds.iter().all(|c| c["type"] != "ResolvedRefs"));
}

#[test]
fn a_stored_patch_settles_the_gateway() {
    let mut gw = gateway(7, None, None);
    let health = GatewayListenerStatus {
        listeners: vec![
            ListenerEntry {
                source: ListenerSource::Gateway,
                name: "http".to_string(),
                info: ListenerInfo { port: 80, ..Default::default() },
            },
            ListenerEntry {
                source: ListenerSource::ListenerSet(ObjectKey::new("apps", "team")),
                name: "web".to_string(),
                info: ListenerInfo { port: 8080, ..Default::default() },
            },
        ],
        frontend_validation: Some(FrontendValidation { insecure_fallback: true }),
        backend_client_cert: Some(resolved()),
    };
    let decision = legacy_addr(StatusAddress::Hostname("lb.example.com".to_string()));
    let patch = patch_of(&gw, &health, 7, &decision);
    gw.status = Some(status_from(&patch));
    assert!(!gateway_needs_status_patch(&gw, &health, &decision));
    gw.metadata.generation = Some(8);
    assert!(gateway_needs_status_patch(&gw, &health, &decision));
}
