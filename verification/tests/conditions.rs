use coxswain::conditions::{
    any_condition_stale, gateway_accepted, gateway_class_accepted, gateway_programmed,
    gateway_programmed_at_current_gen, has_condition, is_listener_set_ref, make_condition,
    parent_ref_owned, route_parent_gets_status, Condition,
};
use coxswain::resources::{
    Gateway, GatewayClass, GatewayClassStatus, GatewayStatus, ObjectKey, ObjectMeta,
};
use coxswain::table::KeySet;

const NOW: &str = "1970-01-01T00:00:00Z";

fn stub_condition(type_: &str, status: &str) -> Condition {
    Condition {
        type_: type_.to_string(),
        status: status.to_string(),
        last_transition_time: NOW.to_string(),
        ..Default::default()
    }
}

#[test]
fn make_condition_sets_all_fields() {
    let c = make_condition("Programmed", "True", "Ready", "all good", 3, NOW);
    assert_eq!(c.type_, "Programmed");
    assert_eq!(c.status, "True");
    assert_eq!(c.reason, "Ready");
    assert_eq!(c.message, "all good");
    assert_eq!(c.observed_generation, Some(3));
}

#[test]
fn has_condition_returns_false_when_none() {
    assert!(!has_condition(None, "Programmed"));
}

#[test]
fn has_condition_returns_false_when_slice_empty() {
    assert!(!has_condition(Some(&[]), "Programmed"));
}

fn class_with(generation: i64, conditions: Vec<Condition>) -> GatewayClass {
    GatewayClass {
        metadata: ObjectMeta { generation: Some(generation), ..Default::default() },
        status: Some(GatewayClassStatus { conditions: Some(conditions), ..Default::default() }),
        ..Default::default()
    }
}

#[test]
fn gateway_class_accepted_false_when_generation_stale() {
    let gc = class_with(5, vec![make_condition("Accepted", "True", "ok", "", 2, NOW)]);
    assert!(!gateway_class_accepted(&gc));
}

#[test]
fn gateway_class_accepted_true_when_generation_current() {
    let gc = class_with(5, vec![make_condition("Accepted", "True", "ok", "", 5, NOW)]);
    assert!(gateway_class_accepted(&gc));
}

#[test]
fn is_listener_set_ref_matches_standard_group_kind() {
    assert!(is_listener_set_ref(Some("gateway.networking.k8s.io"), Some("ListenerSet")));
    assert!(is_listener_set_ref(None, Some("ListenerSet")));
}

#[test]
fn route_parent_gets_status_owned_gateway_and_listenerset() {
    let mut owned = KeySet::new();
    owned.insert(ObjectKey::new("infra", "gw"));
    assert!(route_parent_gets_status(None, None, Some("infra"), "gw", "apps", &owned, false));
    assert!(!route_parent_gets_status(
        None,
        None,
        Some("infra"),
        "other-gw",
        "apps",
        &owned,
        true,
    ));
    assert!(route_parent_gets_status(
        Some("gateway.networking.k8s.io"),
        Some("ListenerSet"),
        Some("apps"),
        "ls",
        "apps",
        &owned,
        true,
    ));
    assert!(!route_parent_gets_status(
        None,
        Some("ListenerSet"),
        Some("apps"),
        "ls",
        "apps",
        &owned,
        false,
    ));
}

#[test]
fn is_listener_set_ref_rejects_gateway_and_foreign_group() {
    assert!(!is_listener_set_ref(None, Some("Gateway")));
    assert!(!is_listener_set_ref(None, None));
    assert!(!is_listener_set_ref(Some("example.com"), Some("ListenerSet")));
}

#[test]
fn conditions_has_condition_returns_true_when_present_and_true() {
    let conds = vec![stub_condition("Programmed", "True")];
    assert!(has_condition(Some(&conds), "Programmed"));
}

#[test]
fn conditions_has_condition_returns_false_when_absent() {
    let conds = vec![stub_condition("Accepted", "True")];
    assert!(!has_condition(Some(&conds), "Programmed"));
}

#[test]
fn conditions_has_condition_returns_false_when_not_true() {
    let conds = vec![stub_condition("Programmed", "False")];
    assert!(!has_condition(Some(&conds), "Programmed"));
}

#[test]
fn conditions_gateway_class_accepted_when_condition_present() {
    let gc = GatewayClass {
        status: Some(GatewayClassStatus {
            conditions: Some(vec![stub_condition("Accepted", "True")]),
            ..Default::default()
        }),
        ..Default::default()
    };
    assert!(gateway_class_accepted(&gc));
}

#[test]
fn conditions_gateway_class_not_accepted_when_no_status() {
    let gc = GatewayClass { status: None, ..Default::default() };
    assert!(!gateway_class_accepted(&gc));
}

fn gateway_with(condition: Option<Condition>) -> Gateway {
    Gateway {
        status: condition.map(|c| GatewayStatus {
            conditions: Some(vec![c]),
            ..Default::default()
        }),
        ..Default::default()
    }
}

#[test]
fn conditions_gateway_accepted_true_when_condition_present() {
    assert!(gateway_accepted(&gateway_with(Some(stub_condition("Accepted", "True")))));
}

#[test]
fn conditions_gateway_accepted_false_when_no_status() {
    assert!(!gateway_accepted(&gateway_with(None)));
}

#[test]
fn conditions_gateway_accepted_false_when_status_is_false() {
    assert!(!gateway_accepted(&gateway_with(Some(stub_condition("Accepted", "False")))));
}

#[test]
fn conditions_gateway_programmed_true_when_condition_present() {
    assert!(gateway_programmed(&gateway_with(Some(stub_condition("Programmed", "True")))));
}

#[test]
fn conditions_gateway_programmed_false_when_absent() {
    assert!(!gateway_programmed(&gateway_with(Some(stub_condition("Accepted", "True")))));
}

#[test]
fn conditions_gateway_programmed_false_when_no_status() {
    assert!(!gateway_programmed(&gateway_with(None)));
}

#[test]
fn programmed_below_the_current_generation_does_not_count() {
    let mut gw = gateway_with(Some(make_condition("Programmed", "True", "Programmed", "", 1, NOW)));
    gw.metadata.generation = Some(2);
    assert!(!gateway_programmed_at_current_gen(&gw));
    gw.metadata.generation = Some(1);
    assert!(gateway_programmed_at_current_gen(&gw));
}

#[test]
fn a_condition_without_a_generation_is_stale_above_zero() {
    assert!(any_condition_stale(&[stub_condition("Accepted", "True")], 1));
    assert!(!any_condition_stale(&[stub_condition("Accepted", "True")], 0));
}

#[test]
fn a_parent_of_another_kind_is_not_owned() {
    let mut owned = KeySet::new();
    owned.insert(ObjectKey::new("infra", "gw"));
    assert!(parent_ref_owned(None, None, Some("infra"), "gw", "apps", &owned));
    assert!(!parent_ref_owned(None, Some("Service"), Some("infra"), "gw", "apps", &owned));
    assert!(!parent_ref_owned(Some("example.com"), None, Some("infra"), "gw", "apps", &owned));
    assert!(!parent_ref_owned(None, None, None, "gw", "apps", &owned));
}
