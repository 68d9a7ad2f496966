//! What the status of a GatewayClass says.

use vstd::prelude::*;

use crate::conditions::{condition_json, condition_json_carries_its_parts, states, true_at};
use crate::gateway_class_status::{
    advertised, advertised_exactly_what_is_met, class_condition, class_current, class_patch_json,
    feature_json, features, stores_features, FeatureView, GatewayApiCapabilities, GatewayApiField,
    GatewayApiKind,
};
use crate::json::{lemma_member_one, lemma_member_push, JsonView};
use crate::resources::GatewayClass;

verus! {

/// What needs the kind `BackendTLSPolicy` is advertised exactly if the cluster has it.
pub proof fn backend_tls_policy_features_are_advertised(caps: GatewayApiCapabilities)
    ensures
        advertised(caps).contains("BackendTLSPolicy"@) <==> caps.kinds@.contains(GatewayApiKind::BackendTlsPolicy),
        advertised(caps).contains("BackendTLSPolicySANValidation"@) <==> caps.kinds@.contains(GatewayApiKind::BackendTlsPolicy),
{
    assert(features()[0].name == "BackendTLSPolicy"@);
    advertised_exactly_what_is_met(caps, 0);
    assert(features()[1].name == "BackendTLSPolicySANValidation"@);
    advertised_exactly_what_is_met(caps, 1);
}

/// What needs the kind `GRPCRoute` is advertised exactly if the cluster has it.
pub proof fn grpc_route_features_are_advertised(caps: GatewayApiCapabilities)
    ensures
        advertised(caps).contains("GRPCRoute"@) <==> caps.kinds@.contains(GatewayApiKind::GrpcRoute),
        advertised(caps).contains("GRPCRouteNamedRouteRule"@) <==> caps.kinds@.contains(GatewayApiKind::GrpcRoute),
{
    assert(features()[2].name == "GRPCRoute"@);
    advertised_exactly_what_is_met(caps, 2);
    assert(features()[3].name == "GRPCRouteNamedRouteRule"@);
    advertised_exactly_what_is_met(caps, 3);
}

/// What needs the kind `Gateway` is advertised exactly if the cluster has it.
pub proof fn gateway_features_are_advertised(caps: GatewayApiCapabilities)
    ensures
        advertised(caps).contains("Gateway"@) <==> caps.kinds@.contains(GatewayApiKind::Gateway),
        advertised(caps).contains("GatewayAddressEmpty"@) <==> caps.kinds@.contains(GatewayApiKind::Gateway),
        advertised(caps).contains("GatewayBackendClientCertificate"@) <==> caps.kinds@.contains(GatewayApiKind::Gateway),
        advertised(caps).contains("GatewayHTTPListenerIsolation"@) <==> caps.kinds@.contains(GatewayApiKind::Gateway),
        advertised(caps).contains("GatewayHTTPSListenerDetectMisdirectedRequests"@) <==> caps.kinds@.contains(GatewayApiKind::Gateway),
        advertised(caps).contains("GatewayInfrastructurePropagation"@) <==> caps.kinds@.contains(GatewayApiKind::Gateway),
        advertised(caps).contains("GatewayPort8080"@) <==> caps.kinds@.contains(GatewayApiKind::Gateway),
        advertised(caps).contains("GatewayStaticAddresses"@) <==> caps.kinds@.contains(GatewayApiKind::Gateway),
{
    assert(features()[4].name == "Gateway"@);
    advertised_exactly_what_is_met(caps, 4);
    assert(features()[5].name == "GatewayAddressEmpty"@);
    advertised_exactly_what_is_met(caps, 5);
    assert(features()[6].name == "GatewayBackendClientCertificate"@);
    advertised_exactly_what_is_met(caps, 6);
    assert(features()[9].name == "GatewayHTTPListenerIsolation"@);
    advertised_exactly_what_is_met(caps, 9);
    assert(features()[10].name == "GatewayHTTPSListenerDetectMisdirectedRequests"@);
    advertised_exactly_what_is_met(caps, 10);
    assert(features()[11].name == "GatewayInfrastructurePropagation"@);
    advertised_exactly_what_is_met(caps, 11);
    assert(features()[12].name == "GatewayPort8080"@);
    advertised_exactly_what_is_met(caps, 12);
    assert(features()[13].name == "GatewayStaticAddresses"@);
    advertised_exactly_what_is_met(caps, 13);
}

/// What needs the TLS settings of a Gateway's frontend is advertised exactly if the cluster has it.
pub proof fn gateway_frontend_tls_features_are_advertised(caps: GatewayApiCapabilities)
    ensures
        advertised(caps).contains("GatewayFrontendClientCertificateValidation"@) <==> caps.fields@.contains(GatewayApiField::GatewayFrontendTls),
        advertised(caps).contains("GatewayFrontendClientCertificateValidationInsecureFallback"@) <==> caps.fields@.contains(GatewayApiField::GatewayFrontendTls),
{
    assert(features()[7].name == "GatewayFrontendClientCertificateValidation"@);
    advertised_exactly_what_is_met(caps, 7);
    assert(features()[8].name == "GatewayFrontendClientCertificateValidationInsecureFallback"@);
    advertised_exactly_what_is_met(caps, 8);
}

/// What needs the kind `HTTPRoute` is advertised exactly if the cluster has it.
pub proof fn http_route_features_are_advertised(caps: GatewayApiCapabilities)
    ensures
        advertised(caps).contains("HTTPRoute"@) <==> caps.kinds@.contains(GatewayApiKind::HttpRoute),
        advertised(caps).contains("HTTPRoute303RedirectStatusCode"@) <==> caps.kinds@.contains(GatewayApiKind::HttpRoute),
        advertised(caps).contains("HTTPRoute307RedirectStatusCode"@) <==> caps.kinds@.contains(GatewayApiKind::HttpRoute),
        advertised(caps).contains("HTTPRoute308RedirectStatusCode"@) <==> caps.kinds@.contains(GatewayApiKind::HttpRoute),
        advertised(caps).contains("HTTPRouteBackendProtocolH2C"@) <==> caps.kinds@.contains(GatewayApiKind::HttpRoute),
        advertised(caps).contains("HTTPRouteBackendProtocolWebSocket"@) <==> caps.kinds@.contains(GatewayApiKind::HttpRoute),
        advertised(caps).contains("HTTPRouteBackendRequestHeaderModification"@) <==> caps.kinds@.contains(GatewayApiKind::HttpRoute),
        advertised(caps).contains("HTTPRouteBackendTimeout"@) <==> caps.kinds@.contains(GatewayApiKind::HttpRoute),
        advertised(caps).contains("HTTPRouteDestinationPortMatching"@) <==> caps.kinds@.contains(GatewayApiKind::HttpRoute),
        advertised(caps).contains("HTTPRouteHostRewrite"@) <==> caps.kinds@.contains(GatewayApiKind::HttpRoute),
        advertised(caps).contains("HTTPRouteMethodMatching"@) <==> caps.kinds@.contains(GatewayApiKind::HttpRoute),
        advertised(caps).contains("HTTPRouteNamedRouteRule"@) <==> caps.kinds@.contains(GatewayApiKind::HttpRoute),
        advertised(caps).contains("HTTPRouteParentRefPort"@) <==> caps.kinds@.contains(GatewayApiKind::HttpRoute),
        advertised(caps).contains("HTTPRoutePathRedirect"@) <==> caps.kinds@.contains(GatewayApiKind::HttpRoute),
        advertised(caps).contains("HTTPRoutePathRewrite"@) <==> caps.kinds@.contains(GatewayApiKind::HttpRoute),
        advertised(caps).contains("HTTPRoutePortRedirect"@) <==> caps.kinds@.contains(GatewayApiKind::HttpRoute),
        advertised(caps).contains("HTTPRouteQueryParamMatching"@) <==> caps.kinds@.contains(GatewayApiKind::HttpRoute),
        advertised(caps).contains("HTTPRouteRequestMirror"@) <==> caps.kinds@.contains(GatewayApiKind::HttpRoute),
        advertised(caps).contains("HTTPRouteRequestMultipleMirrors"@) <==> caps.kinds@.contains(GatewayApiKind::HttpRoute),
        advertised(caps).contains("HTTPRouteRequestPercentageMirror"@) <==> caps.kinds@.contains(GatewayApiKind::HttpRoute),
        advertised(caps).contains("HTTPRouteRequestTimeout"@) <==> caps.kinds@.contains(GatewayApiKind::HttpRoute),
        advertised(caps).contains("HTTPRouteResponseHeaderModification"@) <==> caps.kinds@.contains(GatewayApiKind::HttpRoute),
        advertised(caps).contains("HTTPRouteSchemeRedirect"@) <==> caps.kinds@.contains(GatewayApiKind::HttpRoute),
{
    assert(features()[14].name == "HTTPRoute"@);
    advertised_exactly_what_is_met(caps, 14);
    assert(features()[15].name == "HTTPRoute303RedirectStatusCode"@);
    advertised_exactly_what_is_met(caps, 15);
    assert(features()[16].name == "HTTPRoute307RedirectStatusCode"@);
    advertised_exactly_what_is_met(caps, 16);
    assert(features()[17].name == "HTTPRoute308RedirectStatusCode"@);
    advertised_exactly_what_is_met(caps, 17);
    assert(features()[18].name == "HTTPRouteBackendProtocolH2C"@);
    advertised_exactly_what_is_met(caps, 18);
    assert(features()[19].name == "HTTPRouteBackendProtocolWebSocket"@);
    advertised_exactly_what_is_met(caps, 19);
    assert(features()[20].name == "HTTPRouteBackendRequestHeaderModification"@);
    advertised_exactly_what_is_met(caps, 20);
    assert(features()[21].name == "HTTPRouteBackendTimeout"@);
    advertised_exactly_what_is_met(caps, 21);
    assert(features()[23].name == "HTTPRouteDestinationPortMatching"@);
    advertised_exactly_what_is_met(caps, 23);
    assert(features()[24].name == "HTTPRouteHostRewrite"@);
    advertised_exactly_what_is_met(caps, 24);
    assert(features()[25].name == "HTTPRouteMethodMatching"@);
    advertised_exactly_what_is_met(caps, 25);
    assert(features()[26].name == "HTTPRouteNamedRouteRule"@);
    advertised_exactly_what_is_met(caps, 26);
    assert(features()[27].name == "HTTPRouteParentRefPort"@);
    advertised_exactly_what_is_met(caps, 27);
    assert(features()[28].name == "HTTPRoutePathRedirect"@);
    advertised_exactly_what_is_met(caps, 28);
    assert(features()[29].name == "HTTPRoutePathRewrite"@);
    advertised_exactly_what_is_met(caps, 29);
    assert(features()[30].name == "HTTPRoutePortRedirect"@);
    advertised_exactly_what_is_met(caps, 30);
    assert(features()[31].name == "HTTPRouteQueryParamMatching"@);
    advertised_exactly_what_is_met(caps, 31);
    assert(features()[32].name == "HTTPRouteRequestMirror"@);
    advertised_exactly_what_is_met(caps, 32);
    assert(features()[33].name == "HTTPRouteRequestMultipleMirrors"@);
    advertised_exactly_what_is_met(caps, 33);
    assert(features()[34].name == "HTTPRouteRequestPercentageMirror"@);
    advertised_exactly_what_is_met(caps, 34);
    assert(features()[35].name == "HTTPRouteRequestTimeout"@);
    advertised_exactly_what_is_met(caps, 35);
    assert(features()[36].name == "HTTPRouteResponseHeaderModification"@);
    advertised_exactly_what_is_met(caps, 36);
    assert(features()[37].name == "HTTPRouteSchemeRedirect"@);
    advertised_exactly_what_is_met(caps, 37);
}

/// What needs the CORS filter of an `HTTPRoute` is advertised exactly if the cluster has it.
pub proof fn http_route_cors_features_are_advertised(caps: GatewayApiCapabilities)
    ensures
        advertised(caps).contains("HTTPRouteCORS"@) <==> caps.fields@.contains(GatewayApiField::HttpRouteCors),
{
    assert(features()[22].name == "HTTPRouteCORS"@);
    advertised_exactly_what_is_met(caps, 22);
}

/// What needs the kind `ListenerSet` is advertised exactly if the cluster has it.
pub proof fn listener_set_features_are_advertised(caps: GatewayApiCapabilities)
    ensures
        advertised(caps).contains("ListenerSet"@) <==> caps.kinds@.contains(GatewayApiKind::ListenerSet),
{
    assert(features()[38].name == "ListenerSet"@);
    advertised_exactly_what_is_met(caps, 38);
}

/// What needs the kind `ReferenceGrant` is advertised exactly if the cluster has it.
pub proof fn reference_grant_features_are_advertised(caps: GatewayApiCapabilities)
    ensures
        advertised(caps).contains("ReferenceGrant"@) <==> caps.kinds@.contains(GatewayApiKind::ReferenceGrant),
{
    assert(features()[39].name == "ReferenceGrant"@);
    advertised_exactly_what_is_met(caps, 39);
}

/// What needs the kind `TCPRoute` is advertised exactly if the cluster has it.
pub proof fn tcp_route_features_are_advertised(caps: GatewayApiCapabilities)
    ensures
        advertised(caps).contains("TCPRoute"@) <==> caps.kinds@.contains(GatewayApiKind::TcpRoute),
{
    assert(features()[40].name == "TCPRoute"@);
    advertised_exactly_what_is_met(caps, 40);
}

/// What needs the kind `TLSRoute` is advertised exactly if the cluster has it.
pub proof fn tls_route_features_are_advertised(caps: GatewayApiCapabilities)
    ensures
        advertised(caps).contains("TLSRoute"@) <==> caps.kinds@.contains(GatewayApiKind::TlsRoute),
        advertised(caps).contains("TLSRouteModeMixed"@) <==> caps.kinds@.contains(GatewayApiKind::TlsRoute),
        advertised(caps).contains("TLSRouteModeTerminate"@) <==> caps.kinds@.contains(GatewayApiKind::TlsRoute),
{
    assert(features()[41].name == "TLSRoute"@);
    advertised_exactly_what_is_met(caps, 41);
    assert(features()[42].name == "TLSRouteModeMixed"@);
    advertised_exactly_what_is_met(caps, 42);
    assert(features()[43].name == "TLSRouteModeTerminate"@);
    advertised_exactly_what_is_met(caps, 43);
}

/// What needs the kind `UDPRoute` is advertised exactly if the cluster has it.
pub proof fn udp_route_features_are_advertised(caps: GatewayApiCapabilities)
    ensures
        advertised(caps).contains("UDPRoute"@) <==> caps.kinds@.contains(GatewayApiKind::UdpRoute),
{
    assert(features()[44].name == "UDPRoute"@);
    advertised_exactly_what_is_met(caps, 44);
}

/// Nothing else is advertised than features of this list.
pub proof fn only_listed_features_are_advertised(caps: GatewayApiCapabilities, i: int)
    requires
        0 <= i < advertised(caps).len(),
    ensures
        features().len() == 45,
        exists|k: int| 0 <= k < 45 && #[trigger] features()[k].name == advertised(caps)[i],
{
    let keep = |f: FeatureView| caps.meets(f.needs);
    let kept = features().filter(keep);
    assert(kept.contains(kept[i]));
    features().lemma_filter_contains_rev(keep, kept[i]);
    let k = choose|k: int| 0 <= k < features().len() && features()[k] == kept[i];
    assert(features()[k].name == advertised(caps)[i]);
}

/// The cluster stores the features of a class.
pub open spec fn can_store(caps: GatewayApiCapabilities) -> bool {
    caps.fields@.contains(GatewayApiField::GatewayClassSupportedFeatures)
}

/// The patch of a class accepts it at its generation and, where the cluster stores them, names the
/// advertised features in their order.
pub proof fn class_patch_names_the_features(
    generation: i64,
    now: Seq<char>,
    caps: GatewayApiCapabilities,
)
    ensures
        ({
            let j = class_patch_json(generation, now, caps).at("status"@);
            let c = j.at("conditions"@).elements();
            let f = j.at("supportedFeatures"@).elements();
            &&& c.len() == 1
            &&& states(c[0], "Accepted"@, "True"@, "Accepted"@, ""@, generation as int, now)
            &&& !can_store(caps) ==> j.at("supportedFeatures"@) is Null
            &&& can_store(caps) ==> f.len() == advertised(caps).len() && forall|i: int|
                0 <= i < f.len() ==> (#[trigger] f[i]).at("name"@) == JsonView::Str(
                    advertised(caps)[i],
                )
        }),
{
    reveal_strlit("conditions");
    reveal_strlit("supportedFeatures");
    assert("conditions"@.len() == 10 && "supportedFeatures"@.len() == 17);
    let cond = class_condition(generation, now);
    let a = advertised(caps);
    let x = ("conditions"@, JsonView::Arr(seq![condition_json(cond)]));
    let y = (
        "supportedFeatures"@,
        JsonView::Arr(Seq::new(a.len(), |i: int| feature_json(a[i]))),
    );
    let status = if stores_features(caps) {
        seq![x].push(y)
    } else {
        seq![x]
    };
    lemma_member_one(("status"@, JsonView::Obj(status)), "status"@);
    lemma_member_one(x, "conditions"@);
    lemma_member_one(x, "supportedFeatures"@);
    lemma_member_push(seq![x], y, "conditions"@);
    lemma_member_push(seq![x], y, "supportedFeatures"@);
    condition_json_carries_its_parts(cond);
    if can_store(caps) {
        let f = class_patch_json(generation, now, caps).at("status"@).at(
            "supportedFeatures"@,
        ).elements();
        assert forall|i: int| 0 <= i < f.len() implies (#[trigger] f[i]).at("name"@)
            == JsonView::Str(a[i]) by {
            lemma_member_one(("name"@, JsonView::Str(a[i])), "name"@);
            assert(f[i] == feature_json(a[i]));
        }
    }
}

/// A class that needs no patch is accepted at its generation and, where the cluster stores them,
/// names exactly the advertised features, in their order.
pub proof fn settled_class_names_the_features(gc: GatewayClass, caps: GatewayApiCapabilities)
    ensures
        class_current(gc, caps) <==> {
            &&& exists|i: int|
                0 <= i < gc.conds().len() && (#[trigger] gc.conds()[i]).type_ == "Accepted"@
                    && gc.conds()[i].status == "True"@ && gc.conds()[i].gen() >= gc.metadata.gen()
            &&& can_store(caps) ==> gc.named_features() == advertised(caps)
        },
{
    assert(true_at(gc.conds(), "Accepted"@, gc.metadata.gen() as int) <==> exists|i: int|
        0 <= i < gc.conds().len() && (#[trigger] gc.conds()[i]).type_ == "Accepted"@
            && gc.conds()[i].status == "True"@ && gc.conds()[i].gen() >= gc.metadata.gen());
}

} // verus!
