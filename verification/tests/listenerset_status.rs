use coxswain::conditions::{make_condition, Condition};
use coxswain::json::Json;
use coxswain::listener_status::{
    GatewayListenerStatus, ListenerEntry, ListenerInfo, ListenerSource,
};
use coxswain::listenerset_status::{
    build_listenerset_status_patch, desired_listenerset_status, listenerset_accepted,
    listenerset_needs_status_patch, ListenerSet, ListenerSetStatus,
};
use coxswain::reconcile::{parent_key, patch_listenerset_status, reconcile_listenerset};
use coxswain::resources::{
    Gateway, GatewayClass, GatewaySpec, Listener, ListenerStatus, ObjectKey, ObjectMeta,
};
use serde_json::Value;

const NOW: &str = "1970-01-01T00:00:00Z";

fn value(j: &Json) -> Value {
    match j {
        Json::Null => Value::Null,
        Json::Bool(b) => Value::from(*b),
        Json::Int(n) => Value::from(*n),
        Json::Str(s) => Value::from(s.as_str()),
        Json::Arr(v) => Value::Array(v.iter().map(value).collect()),
        Json::Obj(m) => Value::Object(m.iter().map(|(k, v)| (k.clone(), value(v))).collect()),
    }
}

fn ls(listeners: Vec<Listener>) -> ListenerSet {
    ListenerSet {
        metadata: ObjectMeta {
            name: Some("team".to_string()),
            namespace: Some("apps".to_string()),
            generation: Some(1),
            ..Default::default()
        },
        parent_name: "gw".to_string(),
        parent_namespace: Some("infra".to_string()),
        listeners,
        status: None,
    }
}

fn http_listener(name: &str, port: i32) -> Listener {
    Listener {
        name: name.to_string(),
        port,
        protocol: "HTTP".to_string(),
        ..Default::default()
    }
}

fn health_of(name: &str, info: ListenerInfo) -> GatewayListenerStatus {
    GatewayListenerStatus {
        listeners: vec![ListenerEntry {
            source: ListenerSource::ListenerSet(ObjectKey::new("apps", "team")),
            name: name.to_string(),
            info,
        }],
        ..Default::default()
    }
}

fn parent_health(name: &str, port: u16, conflicted: bool) -> GatewayListenerStatus {
    health_of(
        name,
        ListenerInfo { port, attached_routes: 2, conflicted, ..Default::default() },
    )
}

fn base(resolved: bool) -> Vec<Vec<Condition>> {
    let (s, r) = if resolved { ("True", "ResolvedRefs") } else { ("False", "InvalidCertificateRef") };
    let (p, q) = if resolved { ("True", "Programmed") } else { ("False", "Invalid") };
    vec![vec![
        make_condition("Accepted", "True", "Accepted", "", 1, NOW),
        make_condition("ResolvedRefs", s, r, "", 1, NOW),
        make_condition("Programmed", p, q, "", 1, NOW),
    ]]
}

fn conditions_from(v: &Value) -> Vec<Condition> {
    v.as_array()
        .unwrap()
        .iter()
        .map(|c| Condition {
            type_: c["type"].as_str().unwrap().to_string(),
            status: c["status"].as_str().unwrap().to_string(),
            reason: c["reason"].as_str().unwrap().to_string(),
            message: c["message"].as_str().unwrap().to_string(),
            observed_generation: c["observedGeneration"].as_i64(),
            last_transition_time: c["lastTransitionTime"].as_str().unwrap().to_string(),
        })
        .collect()
}

fn status_from(patch: &Value) -> ListenerSetStatus {
    ListenerSetStatus {
        conditions: Some(conditions_from(&patch["status"]["conditions"])),
        listeners: Some(
            patch["status"]["listeners"]
                .as_array()
                .unwrap()
                .iter()
                .map(|l| ListenerStatus {
                    name: l["name"].as_str().unwrap().to_string(),
                    attached_routes: l["attachedRoutes"].as_i64().unwrap() as i32,
                    supported_kinds: None,
                    conditions: conditions_from(&l["conditions"]),
                })
                .collect(),
        ),
    }
}

#[test]
fn accepted_reflects_health_presence() {
    let set = ls(vec![http_listener("web", 8080)]);
    let health = parent_health("web", 8080, false);
    assert!(listenerset_accepted(&set, Some(&health)));
    assert!(!listenerset_accepted(&set, None));
    assert!(listenerset_accepted(&ls(vec![]), None));
}

#[test]
fn accepted_listener_set_programs_and_reports_no_conflict() {
    let set = ls(vec![http_listener("web", 8080)]);
    let health = parent_health("web", 8080, false);
    let patch =
        value(&build_listenerset_status_patch(&set, Some(&health), true, &base(true), 1, NOW));
    let conds = &patch["status"]["conditions"];
    assert_eq!(conds[0]["type"], "Accepted");
    assert_eq!(conds[0]["status"], "True");
    assert_eq!(conds[1]["type"], "Programmed");
    assert_eq!(conds[1]["status"], "True");
    let l0 = &patch["status"]["listeners"][0];
    assert_eq!(l0["name"], "web");
    assert_eq!(l0["attachedRoutes"], 2);
    let conflicted = l0["conditions"]
        .as_array()
        .unwrap()
        .iter()
        .find(|c| c["type"] == "Conflicted")
        .unwrap();
    assert_eq!(conflicted["status"], "False");
}

#[test]
fn rejected_listener_set_is_not_accepted() {
    let set = ls(vec![http_listener("web", 8080)]);
    let patch = value(&build_listenerset_status_patch(&set, None, false, &base(true), 1, NOW));
    assert_eq!(patch["status"]["conditions"][0]["status"], "False");
    assert_eq!(patch["status"]["conditions"][0]["reason"], "NotAllowed");
    assert_eq!(patch["status"]["conditions"][1]["status"], "False");
}

#[test]
fn conflicted_listener_reports_conflicted_true_and_blocks_programmed() {
    let set = ls(vec![http_listener("dup", 80)]);
    let health = parent_health("dup", 80, true);
    let patch =
        value(&build_listenerset_status_patch(&set, Some(&health), true, &base(true), 1, NOW));
    let l0 = &patch["status"]["listeners"][0];
    let conflicted = l0["conditions"]
        .as_array()
        .unwrap()
        .iter()
        .find(|c| c["type"] == "Conflicted")
        .unwrap();
    assert_eq!(conflicted["status"], "True");
    assert_eq!(patch["status"]["conditions"][1]["status"], "False");
}

#[test]
fn needs_patch_true_on_empty_status_false_when_current() {
    let set = ls(vec![http_listener("web", 8080)]);
    let health = parent_health("web", 8080, false);
    assert!(listenerset_needs_status_patch(&set, Some(&health), true));

    let patch =
        value(&build_listenerset_status_patch(&set, Some(&health), true, &base(true), 1, NOW));
    let mut applied = set.clone();
    applied.status = Some(status_from(&patch));
    assert!(!listenerset_needs_status_patch(&applied, Some(&health), true));
}

#[test]
fn needs_patch_detects_tls_health_flip_without_generation_bump() {
    let mut set = ls(vec![Listener {
        name: "web".to_string(),
        port: 8443,
        protocol: "HTTPS".to_string(),
        ..Default::default()
    }]);
    let healthy = health_of("web", ListenerInfo { port: 8443, ..Default::default() });
    let patch =
        value(&build_listenerset_status_patch(&set, Some(&healthy), true, &base(true), 1, NOW));
    set.status = Some(status_from(&patch));
    assert!(!listenerset_needs_status_patch(&set, Some(&healthy), true));

    let broken = health_of(
        "web",
        ListenerInfo { port: 8443, healthy: false, accepted: true, ..Default::default() },
    );
    assert!(
        listenerset_needs_status_patch(&set, Some(&broken), true),
        "a TLS-health flip without a generation bump must re-patch status"
    );
}

#[test]
fn a_listener_that_is_not_programmed_holds_the_set_back() {
    let set = ls(vec![http_listener("web", 8080)]);
    let broken = health_of("web", ListenerInfo { healthy: false, ..Default::default() });
    let d = desired_listenerset_status(&set, Some(&broken), true, &base(false), 1, NOW);
    assert_eq!(d.conditions[1].status, "False");
    assert_eq!(d.conditions[1].reason, "Invalid");
}

fn class() -> GatewayClass {
    GatewayClass {
        metadata: ObjectMeta { name: Some("shared".to_string()), ..Default::default() },
        controller_name: "coxswain".to_string(),
        ..Default::default()
    }
}

fn parent() -> Gateway {
    Gateway {
        metadata: ObjectMeta {
            name: Some("gw".to_string()),
            namespace: Some("infra".to_string()),
            ..Default::default()
        },
        spec: GatewaySpec { gateway_class_name: "shared".to_string(), ..Default::default() },
        status: None,
    }
}

#[test]
fn listener_sets_are_written_by_the_leader_for_its_own_gateways() {
    let set = ls(vec![http_listener("web", 8080)]);
    let key = parent_key(&set);
    assert_eq!((key.ns.as_str(), key.name.as_str()), ("infra", "gw"));
    let health = parent_health("web", 8080, false);
    let gw = parent();
    let ours = vec![class()];
    let run = |leader: bool, gw: Option<&Gateway>, classes: &Vec<GatewayClass>, still: bool| {
        reconcile_listenerset(leader, &set, gw, classes, "coxswain", true, Some(&health), still)
            .patch
    };
    assert!(run(true, Some(&gw), &ours, true));
    assert!(!run(false, Some(&gw), &ours, true));
    assert!(!run(true, Some(&gw), &ours, false));
    assert!(!run(true, None, &ours, true));
    assert!(!run(true, Some(&gw), &vec![], true));

    let write = patch_listenerset_status(&set, Some(&health), true, &base(true), NOW).unwrap();
    assert_eq!((write.namespace.as_str(), write.name.as_str()), ("apps", "team"));
}
