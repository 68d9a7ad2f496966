use coxswain::conditions::Condition;
use coxswain::gateway_class_status::{
    advertised_features, build_gateway_class_status_patch, gateway_class_needs_status_patch,
    supported_features, GatewayApiCapabilities, GatewayApiField, GatewayApiKind,
};
use coxswain::json::Json;
use coxswain::resources::{GatewayClass, GatewayClassStatus, ObjectMeta};
use serde_json::Value;

const NOW: &str = "1970-01-01T00:00:00Z";

fn value(j: &Json) -> Value {
    match j {
        Json::Null => Value::Null,
        Json::Bool(b) => Value::from(*b),
        Json::Int(n) => Value::from(*n),
        Json::Str(s) => Value::from(s.as_str()),
        Json::Arr(v) => Value::Array(v.iter().map(value).collect()),
        Json::Obj(m) => Value::Object(m.iter().map(|(k, v)| (k.clone(), value(v))).collect()),
    }
}

fn accepted_condition(generation: i64) -> Condition {
    Condition {
        type_: "Accepted".to_string(),
        status: "True".to_string(),
        observed_generation: Some(generation),
        last_transition_time: NOW.to_string(),
        ..Default::default()
    }
}

fn features(names: &[&str]) -> Vec<String> {
    names.iter().map(|n| n.to_string()).collect()
}

fn gc_with_status(
    generation: i64,
    conditions: Option<Vec<Condition>>,
    supported_features: Option<Vec<String>>,
) -> GatewayClass {
    GatewayClass {
        metadata: ObjectMeta { generation: Some(generation), ..Default::default() },
        status: Some(GatewayClassStatus { conditions, supported_features }),
        ..Default::default()
    }
}

fn all_kinds() -> Vec<GatewayApiKind> {
    vec![
        GatewayApiKind::GatewayClass,
        GatewayApiKind::Gateway,
        GatewayApiKind::HttpRoute,
        GatewayApiKind::GrpcRoute,
        GatewayApiKind::TlsRoute,
        GatewayApiKind::TcpRoute,
        GatewayApiKind::UdpRoute,
        GatewayApiKind::ListenerSet,
        GatewayApiKind::ReferenceGrant,
        GatewayApiKind::BackendTlsPolicy,
    ]
}

fn full_caps() -> GatewayApiCapabilities {
    GatewayApiCapabilities::from_vocabulary(
        all_kinds(),
        vec![
            GatewayApiField::GatewayFrontendTls,
            GatewayApiField::HttpRouteCors,
            GatewayApiField::GatewayClassSupportedFeatures,
        ],
    )
}

fn v1_4_caps() -> GatewayApiCapabilities {
    let kinds = all_kinds()
        .into_iter()
        .filter(|k| {
            !matches!(
                k,
                GatewayApiKind::ListenerSet
                    | GatewayApiKind::TlsRoute
                    | GatewayApiKind::TcpRoute
                    | GatewayApiKind::UdpRoute
            )
        })
        .collect();
    GatewayApiCapabilities::from_vocabulary(
        kinds,
        vec![GatewayApiField::GatewayClassSupportedFeatures],
    )
}

fn all_feature_names() -> Vec<&'static str> {
    supported_features().iter().map(|f| f.name).collect()
}

fn written_names(patch: &Value) -> Vec<String> {
    patch["status"]["supportedFeatures"]
        .as_array()
        .expect("supportedFeatures array")
        .iter()
        .map(|f| f["name"].as_str().expect("name string").to_string())
        .collect()
}

#[test]
fn gateway_class_status_needs_patch_when_no_status() {
    let gc = GatewayClass { status: None, ..Default::default() };
    assert!(gateway_class_needs_status_patch(&gc, &full_caps()));
}

#[test]
fn gateway_class_status_needs_patch_when_accepted_missing() {
    let gc = gc_with_status(1, None, Some(features(&all_feature_names())));
    assert!(gateway_class_needs_status_patch(&gc, &full_caps()));
}

#[test]
fn needs_patch_when_accepted_stale_generation() {
    let gc = gc_with_status(
        1,
        Some(vec![accepted_condition(0)]),
        Some(features(&all_feature_names())),
    );
    assert!(gateway_class_needs_status_patch(&gc, &full_caps()));
}

#[test]
fn needs_patch_when_supported_features_missing() {
    let gc = gc_with_status(1, Some(vec![accepted_condition(1)]), None);
    assert!(gateway_class_needs_status_patch(&gc, &full_caps()));
}

#[test]
fn needs_patch_when_supported_features_differ() {
    let gc =
        gc_with_status(1, Some(vec![accepted_condition(1)]), Some(features(&["Gateway"])));
    assert!(gateway_class_needs_status_patch(&gc, &full_caps()));
}

#[test]
fn gateway_class_status_no_patch_needed_when_fully_up_to_date() {
    let gc = gc_with_status(
        1,
        Some(vec![accepted_condition(1)]),
        Some(features(&all_feature_names())),
    );
    assert!(!gateway_class_needs_status_patch(&gc, &full_caps()));
}

#[test]
fn patch_body_includes_all_supported_features_sorted() {
    let patch = value(&build_gateway_class_status_patch(1, NOW, &full_caps()));
    let names = written_names(&patch);
    assert_eq!(names.len(), supported_features().len());
    let mut sorted = names.clone();
    sorted.sort_unstable();
    assert_eq!(names, sorted, "features must be sorted");
    assert_eq!(names, all_feature_names());
}

#[test]
fn patch_body_includes_accepted_condition() {
    let patch = value(&build_gateway_class_status_patch(2, NOW, &full_caps()));
    let conds = patch["status"]["conditions"].as_array().expect("conditions array");
    let accepted =
        conds.iter().find(|c| c["type"] == "Accepted").expect("Accepted condition");
    assert_eq!(accepted["status"], "True");
    assert_eq!(accepted["observedGeneration"], 2);
}

#[test]
fn v1_4_cluster_is_not_advertised_features_its_crds_cannot_express() {
    let patch = value(&build_gateway_class_status_patch(1, NOW, &v1_4_caps()));
    let names = written_names(&patch);
    for absent in [
        "ListenerSet",
        "TLSRoute",
        "TLSRouteModeMixed",
        "TLSRouteModeTerminate",
        "TCPRoute",
        "UDPRoute",
        "HTTPRouteCORS",
        "GatewayFrontendClientCertificateValidation",
        "GatewayFrontendClientCertificateValidationInsecureFallback",
    ] {
        assert!(
            !names.iter().any(|n| n == absent),
            "{absent} must not be advertised on a Gateway API v1.4 cluster"
        );
    }
    for present in ["Gateway", "HTTPRoute", "GRPCRoute", "ReferenceGrant"] {
        assert!(names.iter().any(|n| n == present), "{present} must be advertised");
    }
}

#[test]
fn filtered_features_stay_sorted() {
    let names = advertised_features(&v1_4_caps());
    let mut sorted = names.clone();
    sorted.sort_unstable();
    assert_eq!(names, sorted);
}

#[test]
fn differ_agrees_with_builder_on_a_downgraded_cluster() {
    let caps = v1_4_caps();
    let patch = value(&build_gateway_class_status_patch(1, NOW, &caps));
    let written = written_names(&patch);
    let gc = gc_with_status(1, Some(vec![accepted_condition(1)]), Some(written));
    assert!(
        !gateway_class_needs_status_patch(&gc, &caps),
        "a GatewayClass carrying exactly what the builder wrote must not need re-patching"
    );
}

#[test]
fn supported_features_omitted_when_the_crd_cannot_store_them() {
    let caps = GatewayApiCapabilities::from_vocabulary(all_kinds(), vec![]);
    let patch = value(&build_gateway_class_status_patch(1, NOW, &caps));
    assert!(patch["status"]["supportedFeatures"].is_null());
    assert!(patch["status"]["conditions"].is_array());

    let gc = gc_with_status(1, Some(vec![accepted_condition(1)]), None);
    assert!(
        !gateway_class_needs_status_patch(&gc, &caps),
        "the differ must not demand a field the CRD cannot store"
    );
}
