use coxswain::conditions::make_condition;
use coxswain::config::{IngressPorts, LeaseSettings, Period, StatusAddress};
use coxswain::gateway_class_status::{GatewayApiCapabilities, GatewayApiField, GatewayApiKind};
use coxswain::gateway_reconcile::{
    action_after_patch, decide_gateway, error_policy, gateway_entry, gateway_patch_outcome,
    patch_gateway_status, reconcile_gateway, unknown_listeners, Action, GatewayInputs,
    GatewayPatchOutcome, PatchReply, PoolReport, PublishStamp,
};
use coxswain::gateway_status::{
    GatewayConditionReason, StaticAddressOutcome, SupportedAddressType, TypedAddress,
};
use coxswain::ingress_events::{warning_for, IngressEvent};
use coxswain::ingress_status::Ingress;
use coxswain::json::Json;
use coxswain::leader_label::{
    converged, label_patch, label_selector, wait_after, LeaderLabel, DISCOVERY_LEADER_LABEL,
};
use coxswain::leadership::LeaseReply;
use coxswain::ownership::IngressClass;
use coxswain::ports::PortSet;
use coxswain::reconcile::{
    patch_gateway_class_status, patch_ingress_status, reconcile_gateway_class, reconcile_ingress,
    reconcile_route,
};
use coxswain::resources::{
    Gateway, GatewayAddress, GatewayClass, GatewaySpec, GatewayStatus, ObjectKey, ObjectMeta,
    ParamsRef, ParentRef,
};
use coxswain::route_status::{Route, RouteFacts, RouteParentHealth};
use coxswain::shared_vip::{NodeEntry, SharedVip, VipAddress};
use coxswain::status_loop::{
    all_queues, driven, LoopEvent, LoopStep, Queue, Signal, StatusLoop,
};
use coxswain::table::{KeySet, Table};
use coxswain::watched_status::{ControllerConfig, GatewayListenerHealth};
use coxswain::watcher::{WatchAction, WatchEvent, WatchFacts, Watcher};
use serde_json::Value;

const NOW: &str = "2024-01-01T00:00:00Z";

fn value(j: &Json) -> Value {
    match j {
        Json::Null => Value::Null,
        Json::Bool(b) => Value::from(*b),
        Json::Int(n) => Value::from(*n),
        Json::Str(s) => Value::from(s.as_str()),
        Json::Arr(v) => Value::Array(v.iter().map(value).collect()),
        Json::Obj(m) => Value::Object(m.iter().map(|(k, v)| (k.clone(), value(v))).collect()),
    }
}

fn secs(n: u64) -> Action {
    Action::Requeue(Period::from_secs(n))
}

fn class(name: &str) -> GatewayClass {
    GatewayClass {
        metadata: ObjectMeta {
            name: Some(name.to_string()),
            generation: Some(1),
            ..Default::default()
        },
        controller_name: "me".to_string(),
        ..Default::default()
    }
}

fn gateway() -> Gateway {
    Gateway {
        metadata: ObjectMeta {
            name: Some("gw".to_string()),
            namespace: Some("infra".to_string()),
            generation: Some(3),
            resource_version: Some("77".to_string()),
        },
        spec: GatewaySpec { gateway_class_name: "shared".to_string(), ..Default::default() },
        status: None,
    }
}

#[test]
fn only_the_leader_looks_at_its_own_gateways() {
    let classes = vec![class("shared")];
    let gw = gateway();
    assert_eq!(gateway_entry(true, &gw, &classes, "me"), None);
    assert_eq!(gateway_entry(false, &gw, &classes, "me"), Some(secs(20)));
    assert_eq!(gateway_entry(true, &gw, &classes, "other"), Some(Action::AwaitChange));
    let mut dedicated = gateway();
    dedicated.spec.parameters_ref = Some(ParamsRef {
        group: "gateway.coxswain-labs.dev".to_string(),
        kind: "CoxswainGatewayParameters".to_string(),
        name: "p".to_string(),
    });
    assert_eq!(gateway_entry(true, &dedicated, &classes, "me"), Some(Action::AwaitChange));
    assert_eq!(error_policy(), secs(15));
}

fn vip() -> SharedVip {
    SharedVip {
        address: VipAddress::Resolved(StatusAddress::Ip("10.0.0.7".to_string())),
        internal_ports: PortSet::of(&vec![30001]),
    }
}

fn pool(ports_bound: bool, stamp: Option<PublishStamp>) -> Option<PoolReport> {
    Some(PoolReport {
        ports_bound,
        indexed: true,
        stamp,
        nodes: vec![NodeEntry { shared_pool: true, bound_ports: None }],
    })
}

fn inputs() -> GatewayInputs {
    GatewayInputs {
        vip: vip(),
        shared_vip_addressing: true,
        global_address: Some(StatusAddress::Ip("10.0.0.3".to_string())),
        static_outcome: StaticAddressOutcome::not_engaged(),
        hold_pending: false,
        pool: pool(true, Some(PublishStamp { generation: 3, acked: true })),
        listeners_unserviceable: false,
    }
}

#[test]
fn a_gateway_settles_once_the_pool_serves_it() {
    let gw = gateway();
    let d = decide_gateway(&gw, inputs());
    assert!(d.converged && d.pending_detail.is_none() && !d.settled_negative);
    assert_eq!(d.legacy_addr, Some(StatusAddress::Ip("10.0.0.7".to_string())));

    let d = decide_gateway(&gw, GatewayInputs { pool: pool(false, None), ..inputs() });
    assert!(!d.converged);
    assert_eq!(
        d.pending_detail.as_deref(),
        Some("waiting for 1/1 connected shared proxy node(s) to bind internal port(s) [30001]")
    );

    let old = Some(PublishStamp { generation: 2, acked: true });
    let d = decide_gateway(&gw, GatewayInputs { pool: pool(true, old), ..inputs() });
    assert!(!d.converged);
    assert_eq!(
        d.pending_detail.as_deref(),
        Some("waiting for all connected shared proxies to apply the routing snapshot containing generation 3")
    );

    let pending = SharedVip { address: VipAddress::Pending, internal_ports: PortSet::new() };
    let d = decide_gateway(&gw, GatewayInputs { vip: pending, ..inputs() });
    assert!(!d.converged && d.legacy_addr.is_none() && d.pending_detail.is_none());
}

#[test]
fn a_programmed_gateway_keeps_its_place() {
    let mut gw = gateway();
    gw.status = Some(GatewayStatus {
        conditions: Some(vec![make_condition("Programmed", "True", "Programmed", "", 3, NOW)]),
        addresses: Some(vec![GatewayAddress {
            type_: Some("IPAddress".to_string()),
            value: "10.0.0.7".to_string(),
        }]),
        ..Default::default()
    });
    let engaged = StaticAddressOutcome {
        feature_engaged: true,
        ..StaticAddressOutcome::not_engaged()
    };
    let d = decide_gateway(
        &gw,
        GatewayInputs { pool: pool(false, None), static_outcome: engaged, ..inputs() },
    );
    assert!(d.converged);
    assert_eq!(
        d.static_outcome.status_addresses,
        vec![TypedAddress {
            type_: SupportedAddressType::IpAddress,
            value: "10.0.0.7".to_string()
        }]
    );
}

#[test]
fn a_gateway_that_will_never_be_served_is_settled() {
    let d = decide_gateway(
        &gateway(),
        GatewayInputs { listeners_unserviceable: true, pool: pool(false, None), ..inputs() },
    );
    assert!(d.converged && d.settled_negative);
    let mut gw = gateway();
    gw.spec.parameters_ref = Some(ParamsRef::default());
    let d = decide_gateway(&gw, inputs());
    assert!(d.params_ref_unsupported && d.settled_negative && d.converged);
}

#[test]
fn a_pass_over_a_gateway_ends_with_a_write_and_a_wait() {
    let gw = gateway();
    let none = unknown_listeners();
    let settled = decide_gateway(&gw, inputs());
    let step = reconcile_gateway(&gw, true, &none, &settled, true);
    assert!(step.patch);
    assert_eq!(step.action, Action::AwaitChange);
    assert!(!reconcile_gateway(&gw, true, &none, &settled, false).patch);
    let waiting = decide_gateway(&gw, GatewayInputs { pool: pool(false, None), ..inputs() });
    assert_eq!(reconcile_gateway(&gw, true, &none, &waiting, true).action, secs(2));
    assert_eq!(reconcile_gateway(&gw, false, &none, &settled, true).action, secs(2));
    let unusable = StaticAddressOutcome {
        programmed_override: Some(GatewayConditionReason::AddressNotUsable),
        feature_engaged: true,
        ..StaticAddressOutcome::not_engaged()
    };
    let d = decide_gateway(&gw, GatewayInputs { static_outcome: unusable, ..inputs() });
    assert_eq!(reconcile_gateway(&gw, true, &none, &d, true).action, secs(15));

    let write = patch_gateway_status(&gw, &none, vec![], &settled, NOW).unwrap();
    let patch = value(&write.patch);
    assert_eq!(patch["metadata"]["resourceVersion"], "77");
    assert_eq!(patch["status"]["addresses"][0]["value"], "10.0.0.7");
}

#[test]
fn a_lost_write_is_tried_again() {
    let planned = Action::AwaitChange;
    let after = |reply: PatchReply| action_after_patch(planned, gateway_patch_outcome(reply));
    assert_eq!(after(PatchReply::Applied), planned);
    assert_eq!(after(PatchReply::Refused(404)), planned);
    assert_eq!(after(PatchReply::Refused(409)), secs(2));
    assert_eq!(after(PatchReply::Refused(500)), secs(15));
    assert_eq!(after(PatchReply::Lost), secs(15));
    assert_eq!(gateway_patch_outcome(PatchReply::Refused(409)), GatewayPatchOutcome::Conflict);
}

fn caps() -> GatewayApiCapabilities {
    GatewayApiCapabilities::from_vocabulary(
        vec![GatewayApiKind::Gateway],
        vec![GatewayApiField::GatewayClassSupportedFeatures],
    )
}

#[test]
fn classes_routes_and_ingresses_are_written_by_the_leader() {
    let gc = class("shared");
    assert!(reconcile_gateway_class(true, &gc, "me", &caps(), true).patch);
    assert!(!reconcile_gateway_class(true, &gc, "other", &caps(), true).patch);
    assert_eq!(reconcile_gateway_class(false, &gc, "me", &caps(), true).action, secs(20));
    let write = patch_gateway_class_status(&gc, &caps(), NOW).unwrap();
    assert_eq!(write.name, "shared");
    assert_eq!(value(&write.patch)["status"]["conditions"][0]["type"], "Accepted");

    assert!(reconcile_route(true, true).patch);
    assert!(!reconcile_route(true, false).patch);
    assert_eq!(reconcile_route(false, true).action, secs(20));

    let ing = |class: Option<&str>| Ingress {
        metadata: ObjectMeta { name: Some("web".to_string()), ..Default::default() },
        claimed_class: class.map(str::to_string),
        load_balancer: None,
    };
    let addr = StatusAddress::Ip("10.0.0.1".to_string());
    let ports = IngressPorts::new(Some(80), None);
    let class = |default: bool| {
        vec![IngressClass {
            name: Some("ours".to_string()),
            controller: Some("me".to_string()),
            is_default: default,
        }]
    };
    let run = |i: &Ingress, c: &Vec<IngressClass>, a: Option<&StatusAddress>| {
        reconcile_ingress(true, i, a, c, "me", ports, true).patch
    };
    assert!(run(&ing(Some("ours")), &class(false), Some(&addr)));
    assert!(!run(&ing(Some("theirs")), &class(true), Some(&addr)));
    assert!(!run(&ing(None), &class(false), Some(&addr)));
    assert!(run(&ing(None), &class(true), Some(&addr)));
    assert!(!run(&ing(Some("ours")), &class(false), None));
    let write = patch_ingress_status(&ing(None), &addr, ports).unwrap();
    assert_eq!((write.namespace.as_str(), write.name.as_str()), ("default", "web"));
}

#[test]
fn the_leader_label_is_set_on_one_pod() {
    assert_eq!(
        value(&label_patch(true))["metadata"]["labels"][DISCOVERY_LEADER_LABEL],
        "true"
    );
    assert!(value(&label_patch(false))["metadata"]["labels"][DISCOVERY_LEADER_LABEL].is_null());
    assert_eq!(label_selector(), "discovery.coxswain-labs.dev/leader=true");
    let mut label = LeaderLabel::new("me".to_string());
    let pods = vec![Some("me".to_string()), Some("old".to_string()), None];
    assert_eq!(label.stale_pods(&pods), vec!["old".to_string()]);
    assert!(label.own_label_set(PatchReply::Applied));
    assert!(!label.own_label_set(PatchReply::Lost));
    assert!(!label.disabled);
    assert!(label.own_label_set(PatchReply::Refused(404)));
    assert!(label.disabled);

    assert!(converged(true, true, false, &None));
    assert!(!converged(false, true, true, &None));
    assert!(converged(false, false, true, &None));
    assert!(converged(false, true, true, &Some(vec![PatchReply::Applied])));
    assert!(!converged(false, true, true, &Some(vec![PatchReply::Applied, PatchReply::Lost])));
    assert_eq!(wait_after(true), Period::from_secs(15));
    assert_eq!(wait_after(false), Period::from_secs(5));
}

#[test]
fn trouble_with_an_ingress_is_told() {
    let w = warning_for(IngressEvent::Conflict {
        namespace: "ns".to_string(),
        name: "web".to_string(),
        winner_route_id: "ns/first".to_string(),
        host: "example.com".to_string(),
        path: "/a".to_string(),
    })
    .unwrap();
    assert_eq!(w.reason, "RouteConflict");
    assert_eq!(w.note, "Route on host example.com path /a is shadowed by ns/first");
    let w = warning_for(IngressEvent::InvalidAnnotation {
        namespace: "ns".to_string(),
        name: "web".to_string(),
        annotation: "x".to_string(),
        message: "bad".to_string(),
    })
    .unwrap();
    assert_eq!((w.reason, w.note.as_str()), ("InvalidAnnotation", "x: bad"));
    assert!(warning_for(IngressEvent::Other).is_none());
}

#[test]
fn promotion_drives_every_queue() {
    assert_eq!(driven(Signal::Promotion), all_queues());
    assert_eq!(all_queues().len(), 13);
    assert_eq!(driven(Signal::ListenerHealth), vec![Queue::Gateway, Queue::ListenerSet]);
    assert_eq!(driven(Signal::PoolReadiness), vec![Queue::Gateway]);
    assert_eq!(driven(Signal::ExternalAuthHealth), vec![Queue::CoxswainExternalAuth]);
}

#[test]
fn the_status_loop_publishes_who_leads() {
    let lease = LeaseSettings::new(Period::from_secs(15), Period::from_secs(5));
    let (mut l, leads) = StatusLoop::new(lease, LeaseReply::NotAcquired, 0);
    assert!(!leads);
    let at = |s: u64| Period::from_secs(s).nanos;
    let renew = |reply: LeaseReply, s: u64| LoopEvent::Renewal { reply, now: at(s) };
    let a = l.step(renew(LeaseReply::Acquired, 5));
    assert_eq!((a.publish, a.redrive_all, a.stop), (Some(true), true, false));
    let a = l.step(renew(LeaseReply::TimedOut, 10));
    assert_eq!((a.publish, a.redrive_all), (None, false));
    let a = l.step(renew(LeaseReply::Failed, 15));
    assert_eq!((a.publish, a.redrive_all), (Some(false), false));
    let a = l.step(LoopEvent::TaskEnded);
    assert!(!a.stop);
    l.step(renew(LeaseReply::Acquired, 20));
    let a = l.step(LoopEvent::Shutdown);
    assert_eq!(
        (a.publish, a.drop_label, a.release_lease, a.stop),
        (Some(false), true, true, true)
    );
    let (mut standby, _) = StatusLoop::new(lease, LeaseReply::NotAcquired, 0);
    let a = standby.step(LoopEvent::Shutdown);
    assert_eq!((a.publish, a.release_lease, a.stop), (None, false, true));
    assert!(standby.step(LoopEvent::NoTaskLeft).stop);
}

fn facts() -> WatchFacts {
    let mut owned = KeySet::new();
    owned.insert(ObjectKey::new("infra", "gw"));
    WatchFacts {
        routes: RouteFacts {
            owned_gateways: owned,
            health: Table::new(),
            fallback: RouteParentHealth {
                accepted: true,
                accepted_reason: "Accepted".to_string(),
                resolved_refs: true,
                resolved_refs_reason: "ResolvedRefs".to_string(),
            },
        },
        tls_health: Table::new(),
        unknown_health: GatewayListenerHealth::unknown(),
        synced: true,
    }
}

fn watcher(reply: LeaseReply) -> Watcher {
    let config = ControllerConfig::new(
        "me".into(),
        "pod".into(),
        "ns".into(),
        Period::from_secs(15),
        Period::from_secs(5),
        None,
        None,
    )
    .unwrap();
    Watcher::new(config, reply)
}

fn route() -> Route {
    Route {
        metadata: ObjectMeta {
            name: Some("r".to_string()),
            namespace: Some("infra".to_string()),
            ..Default::default()
        },
        parent_refs: Some(vec![ParentRef { name: "gw".to_string(), ..Default::default() }]),
        parents: None,
    }
}

#[test]
fn the_watching_leader_writes_what_is_due() {
    let f = facts();
    let mut w = watcher(LeaseReply::Acquired);
    let a = w.step(WatchEvent::GatewayClassApplied(class("shared")), &f, NOW);
    assert!(matches!(a.as_slice(), [WatchAction::PatchGatewayClass { name, .. }] if name == "shared"));
    let a = w.step(WatchEvent::GatewayApplied(gateway()), &f, NOW);
    assert!(matches!(a.as_slice(), [WatchAction::PatchGateway(p)] if p.name == "gw"));
    let a = w.step(WatchEvent::RouteApplied(route()), &f, NOW);
    assert!(matches!(a.as_slice(), [WatchAction::PatchRoute(p)] if p.name == "r"));
    let a = w.step(WatchEvent::RouteHealthChanged, &f, NOW);
    assert!(matches!(a.as_slice(), [WatchAction::PatchRoute(_)]));
    let a = w.step(WatchEvent::TlsHealthChanged, &f, NOW);
    assert!(matches!(a.as_slice(), [WatchAction::PatchGateway(_)]));
    let a = w.step(WatchEvent::GatewayDeleted(gateway()), &f, NOW);
    assert!(a.is_empty());
    assert!(w.step(WatchEvent::TlsHealthChanged, &f, NOW).is_empty());
    let a = w.step(WatchEvent::Shutdown, &f, NOW);
    assert!(matches!(a.as_slice(), [WatchAction::StepDown, WatchAction::Stop]));
}

#[test]
fn a_watching_standby_writes_nothing() {
    let f = facts();
    let mut w = watcher(LeaseReply::NotAcquired);
    assert!(w.step(WatchEvent::GatewayClassApplied(class("shared")), &f, NOW).is_empty());
    assert!(w.step(WatchEvent::GatewayApplied(gateway()), &f, NOW).is_empty());
    assert!(w.step(WatchEvent::RouteApplied(route()), &f, NOW).is_empty());
    assert!(matches!(
        w.step(WatchEvent::RoutesListed, &f, NOW).as_slice(),
        [WatchAction::PublishSynced]
    ));
    let a = w.step(WatchEvent::LeaseReplied(LeaseReply::Acquired), &f, NOW);
    assert!(matches!(a.as_slice(), [WatchAction::PublishLeadership(true)]));
    let a = w.step(WatchEvent::TlsHealthChanged, &f, NOW);
    assert!(matches!(a.as_slice(), [WatchAction::PatchGateway(_)]));
}

#[test]
fn a_stopping_leader_is_demoted_before_it_lets_go() {
    let lease = LeaseSettings::new(Period::from_secs(15), Period::from_secs(5));
    let (mut leader, leads) = StatusLoop::new(lease, LeaseReply::Acquired, 0);
    assert!(leads);
    assert_eq!(
        leader.step(LoopEvent::Shutdown).steps(),
        vec![
            LoopStep::Publish(false),
            LoopStep::DropLabel,
            LoopStep::ReleaseLease,
            LoopStep::Stop,
        ]
    );
    let (mut standby, _) = StatusLoop::new(lease, LeaseReply::NotAcquired, 0);
    assert_eq!(
        standby.step(LoopEvent::Renewal { reply: LeaseReply::Acquired, now: 1 }).steps(),
        vec![LoopStep::Publish(true), LoopStep::RedriveAll]
    );
    assert_eq!(standby.step(LoopEvent::TaskEnded).steps(), vec![]);
    let (mut standby, _) = StatusLoop::new(lease, LeaseReply::Failed, 0);
    assert_eq!(standby.step(LoopEvent::Shutdown).steps(), vec![LoopStep::Stop]);
    assert_eq!(standby.step(LoopEvent::NoTaskLeft).steps(), vec![LoopStep::Stop]);
}
