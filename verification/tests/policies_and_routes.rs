use coxswain::backend_tls::{BackendTlsPolicy, PolicyHealthOutcome, PolicyTargetRef};
use coxswain::conditions::Condition;
use coxswain::json::Json;
use coxswain::policy_status::{
    build_backend_tls_policy_status_patch, build_desired_ancestors,
    patch_backend_tls_policy_status, patch_client_traffic_policy_status,
    patch_coxswain_backend_policy_status, patch_coxswain_external_auth_status,
    policy_needs_status_patch, AncestorStatus, BackendTlsPolicyAncestorHealth,
    BackendTlsPolicyStatus, TargetedPolicy, TargetedPolicyStatus,
};
use coxswain::resources::{ObjectKey, ObjectMeta, ParentRef};
use coxswain::route_status::{
    http_route_programmed, mark_grpc_route_programmed, mark_http_route_if_changed,
    mark_http_route_programmed, Route, RouteFacts, RouteParentHealth, RouteParentKey,
    RouteParentStatus,
};
use coxswain::table::{KeySet, Table};
use serde_json::Value;

const NOW: &str = "2024-01-01T00:00:00Z";

fn value(j: &Json) -> Value {
    match j {
        Json::Null => Value::Null,
        Json::Bool(b) => Value::from(*b),
        Json::Int(n) => Value::from(*n),
        Json::Str(s) => Value::from(s.as_str()),
        Json::Arr(v) => Value::Array(v.iter().map(value).collect()),
        Json::Obj(m) => Value::Object(m.iter().map(|(k, v)| (k.clone(), value(v))).collect()),
    }
}

fn meta(name: &str) -> ObjectMeta {
    ObjectMeta {
        name: Some(name.to_string()),
        namespace: Some("apps".to_string()),
        generation: Some(4),
        ..Default::default()
    }
}

fn policy() -> BackendTlsPolicy {
    BackendTlsPolicy { metadata: meta("tls"), ..Default::default() }
}

fn health(outcome: Option<PolicyHealthOutcome>) -> BackendTlsPolicyAncestorHealth {
    BackendTlsPolicyAncestorHealth {
        outcome,
        gateway_keys: vec![ObjectKey::new("infra", "gw"), ObjectKey::new("infra", "gw2")],
    }
}

fn conditions_from(v: &Value) -> Vec<Condition> {
    v.as_array()
        .unwrap()
        .iter()
        .map(|c| Condition {
            type_: c["type"].as_str().unwrap().to_string(),
            status: c["status"].as_str().unwrap().to_string(),
            reason: c["reason"].as_str().unwrap().to_string(),
            message: c["message"].as_str().unwrap().to_string(),
            observed_generation: c["observedGeneration"].as_i64(),
            last_transition_time: c["lastTransitionTime"].as_str().unwrap().to_string(),
        })
        .collect()
}

fn ref_from(v: &Value) -> ParentRef {
    let text = |k: &str| v[k].as_str().map(str::to_string);
    ParentRef {
        group: text("group"),
        kind: text("kind"),
        namespace: text("namespace"),
        name: text("name").unwrap(),
        section_name: text("sectionName"),
        port: v["port"].as_i64().map(|p| p as i32),
    }
}

#[test]
fn a_stored_policy_status_needs_no_second_patch() {
    let h = health(Some(PolicyHealthOutcome::invalid_ca_cert_ref("ca", "ConfigMap not found")));
    let mut p = policy();
    assert!(!policy_needs_status_patch(&p, &h, "me"));
    let patch = value(&build_backend_tls_policy_status_patch(&p, &h, "me", NOW));
    let entries = patch["status"]["ancestors"].as_array().unwrap();
    assert_eq!(entries.len(), 2);
    assert_eq!(entries[0]["controllerName"], "me");
    assert_eq!(entries[0]["ancestorRef"]["name"], "gw");
    assert_eq!(entries[0]["conditions"][0]["reason"], "NoValidCACertificate");
    assert_eq!(entries[0]["conditions"][1]["message"], "ca: ConfigMap not found");
    assert_eq!(entries[0]["conditions"][1]["observedGeneration"], 4);
    p.ancestors = Some(
        entries
            .iter()
            .map(|e| AncestorStatus {
                ancestor_ref: ref_from(&e["ancestorRef"]),
                controller_name: e["controllerName"].as_str().unwrap().to_string(),
                conditions: conditions_from(&e["conditions"]),
            })
            .collect(),
    );
    assert!(policy_needs_status_patch(&p, &h, "me"));
    let other = health(Some(PolicyHealthOutcome::accepted("")));
    assert!(!policy_needs_status_patch(&p, &other, "me"));
    p.metadata.generation = Some(5);
    assert!(!policy_needs_status_patch(&p, &h, "me"));
}

#[test]
fn a_policy_without_an_outcome_has_no_entries() {
    assert!(build_desired_ancestors(&policy(), &health(None), "me", None).is_empty());
    let with = build_desired_ancestors(
        &policy(),
        &health(Some(PolicyHealthOutcome::conflicted("taken"))),
        "me",
        None,
    );
    assert_eq!(with.len(), 2);
    assert_eq!(with[1].conditions[0].reason, "Conflicted");
    assert_eq!(with[1].conditions[0].last_transition_time, "1970-01-01T00:00:00Z");
}

#[test]
fn a_rejected_policy_without_gateways_still_shows() {
    let status = |accepted: bool, ancestors: Vec<ObjectKey>| {
        let mut t = Table::new();
        t.insert(
            ObjectKey::new("apps", "tls"),
            BackendTlsPolicyStatus {
                accepted,
                accepted_reason: "Invalid".to_string(),
                resolved_refs: true,
                resolved_refs_reason: "ResolvedRefs".to_string(),
                ancestors,
            },
        );
        t
    };
    let p = policy();
    let write = patch_backend_tls_policy_status(&p, "me", &status(false, vec![]), NOW).unwrap();
    let patch = value(&write.patch);
    assert_eq!(patch["status"]["ancestors"][0]["ancestorRef"]["name"], "");
    assert!(patch_backend_tls_policy_status(&p, "me", &status(true, vec![]), NOW).is_none());
    let gw = vec![ObjectKey::new("infra", "gw")];
    assert!(patch_backend_tls_policy_status(&p, "me", &status(true, gw), NOW).is_some());
    assert!(patch_backend_tls_policy_status(&p, "me", &Table::new(), NOW).is_none());
}

#[test]
fn targeted_policies_report_on_targets_of_their_kind() {
    let target = |group: &str, kind: &str, name: &str| PolicyTargetRef {
        group: group.to_string(),
        kind: kind.to_string(),
        name: name.to_string(),
        section_name: Some("web".to_string()),
    };
    let policy = TargetedPolicy {
        metadata: meta("p"),
        target_refs: vec![
            target("gateway.networking.k8s.io", "Gateway", "gw"),
            target("", "Service", "svc"),
        ],
    };
    let mut known = Table::new();
    known.insert(
        ObjectKey::new("apps", "p"),
        TargetedPolicyStatus {
            accepted: true,
            accepted_reason: "Accepted".to_string(),
            conflicted: false,
            conflicted_reason: "NoConflicts".to_string(),
        },
    );
    let first = |j: &Json| value(j)["status"]["ancestors"][0].clone();
    let ctp = patch_client_traffic_policy_status(&policy, "me", &known, NOW).unwrap();
    assert_eq!(first(&ctp.patch)["ancestorRef"]["sectionName"], "web");
    assert_eq!(first(&ctp.patch)["conditions"][1]["type"], "Conflicted");
    let cbp = patch_coxswain_backend_policy_status(&policy, "me", &known, NOW).unwrap();
    assert_eq!(first(&cbp.patch)["ancestorRef"]["kind"], "Service");
    assert!(first(&cbp.patch)["ancestorRef"].get("sectionName").is_none());
    let ea = patch_coxswain_external_auth_status(&policy, "me", &known, NOW).unwrap();
    assert_eq!(first(&ea.patch)["ancestorRef"]["name"], "gw");
    assert_eq!(value(&ea.patch)["status"]["ancestors"].as_array().unwrap().len(), 1);
    assert!(patch_coxswain_external_auth_status(&policy, "me", &Table::new(), NOW).is_none());
}

fn parent(name: &str) -> ParentRef {
    ParentRef { name: name.to_string(), namespace: Some("infra".to_string()), ..Default::default() }
}

fn healthy() -> RouteParentHealth {
    RouteParentHealth {
        accepted: true,
        accepted_reason: "Accepted".to_string(),
        resolved_refs: true,
        resolved_refs_reason: "ResolvedRefs".to_string(),
    }
}

fn facts(health: Table<RouteParentKey, RouteParentHealth>) -> RouteFacts {
    let mut owned = KeySet::new();
    owned.insert(ObjectKey::new("infra", "gw"));
    RouteFacts { owned_gateways: owned, health, fallback: healthy() }
}

fn route() -> Route {
    Route {
        metadata: meta("r"),
        parent_refs: Some(vec![parent("gw"), parent("foreign")]),
        parents: None,
    }
}

fn parents_from(patch: &Value) -> Vec<RouteParentStatus> {
    patch["status"]["parents"]
        .as_array()
        .unwrap()
        .iter()
        .map(|p| RouteParentStatus {
            controller_name: p["controllerName"].as_str().unwrap().to_string(),
            parent_ref: ref_from(&p["parentRef"]),
            conditions: conditions_from(&p["conditions"]),
        })
        .collect()
}

#[test]
fn a_written_http_route_is_programmed() {
    let f = facts(Table::new());
    let mut r = route();
    assert!(!http_route_programmed(&r, "me", &f.owned_gateways));
    let write = mark_http_route_programmed(&r, "me", &f, NOW).unwrap();
    r.parents = Some(parents_from(&value(&write.patch)));
    assert_eq!(r.parents.as_ref().unwrap().len(), 1);
    assert!(http_route_programmed(&r, "me", &f.owned_gateways));
}

#[test]
fn a_written_grpc_route_is_left_alone() {
    let mut health = Table::new();
    health.insert(
        RouteParentKey {
            route_ns: "apps".to_string(),
            route_name: "r".to_string(),
            gateway_ns: "infra".to_string(),
            gateway_name: "gw".to_string(),
            section: "".to_string(),
        },
        RouteParentHealth {
            accepted: false,
            accepted_reason: "NoMatchingParent".to_string(),
            ..healthy()
        },
    );
    let f = facts(health);
    let mut r = route();
    let write = mark_grpc_route_programmed(&r, "me", &f, NOW).unwrap();
    let patch = value(&write.patch);
    assert_eq!(patch["status"]["parents"][0]["conditions"][1]["reason"], "NoMatchingParent");
    r.parents = Some(parents_from(&patch));
    assert!(mark_grpc_route_programmed(&r, "me", &f, "2025-01-01T00:00:00Z").is_none());
    assert!(mark_grpc_route_programmed(&r, "me", &facts(Table::new()), NOW).is_some());
    r.parent_refs = Some(vec![parent("foreign")]);
    assert!(mark_grpc_route_programmed(&r, "me", &f, NOW).is_none());
}

#[test]
fn a_written_http_route_is_left_alone_by_its_queue() {
    let f = facts(Table::new());
    let mut r = route();
    let write = mark_http_route_if_changed(&r, "me", &f, NOW).unwrap();
    let plain = mark_http_route_programmed(&r, "me", &f, NOW).unwrap();
    assert_eq!(value(&write.patch), value(&plain.patch));
    r.parents = Some(parents_from(&value(&write.patch)));
    let later = "2025-01-01T00:00:00Z";
    assert!(mark_http_route_if_changed(&r, "me", &f, later).is_none());
    assert!(mark_http_route_programmed(&r, "me", &f, later).is_some());
    r.metadata.generation = Some(5);
    assert!(mark_http_route_if_changed(&r, "me", &f, later).is_some());
    r.metadata.generation = None;
    assert!(mark_http_route_if_changed(&r, "me", &f, later).is_none());
}
