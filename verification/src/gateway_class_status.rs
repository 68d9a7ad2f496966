//! The status of a GatewayClass: acceptance and the features that the cluster can express.

use vstd::prelude::*;

use crate::conditions::{
    condition, condition_json, conds, gateway_class_accepted, make_condition, true_at,
    ConditionView,
};
use crate::json::{arr, items, text, Json, JsonView, Object};
use crate::resources::GatewayClass;
use crate::text::{less_at, str_eq, text_less, texts};

verus! {

/// The kinds of the Gateway API that a cluster may serve.
#[derive(Debug, Clone, Copy, PartialEq, Eq, Structural)]
pub enum GatewayApiKind {
    /// `GatewayClass`.
    GatewayClass,
    /// `Gateway`.
    Gateway,
    /// `HTTPRoute`.
    HttpRoute,
    /// `GRPCRoute`.
    GrpcRoute,
    /// `TLSRoute`.
    TlsRoute,
    /// `TCPRoute`.
    TcpRoute,
    /// `UDPRoute`.
    UdpRoute,
    /// `ListenerSet`.
    ListenerSet,
    /// `ReferenceGrant`.
    ReferenceGrant,
    /// `BackendTLSPolicy`.
    BackendTlsPolicy,
}

/// The fields of the Gateway API that a cluster may know.
#[derive(Debug, Clone, Copy, PartialEq, Eq, Structural)]
pub enum GatewayApiField {
    /// `Gateway.spec.tls.frontend`.
    GatewayFrontendTls,
    /// `HTTPRoute.spec.rules[].filters[].cors`.
    HttpRouteCors,
    /// `GatewayClass.status.supportedFeatures`.
    GatewayClassSupportedFeatures,
}

/// What a feature needs of the cluster.
#[derive(Debug, Clone, Copy, PartialEq, Eq, Structural)]
pub enum Requirement {
    /// A kind.
    Kind(GatewayApiKind),
    /// A field.
    Field(GatewayApiField),
}

/// What the cluster serves.
#[derive(Debug, Clone, Default, PartialEq, Eq)]
pub struct GatewayApiCapabilities {
    /// The kinds.
    pub kinds: Vec<GatewayApiKind>,
    /// The fields.
    pub fields: Vec<GatewayApiField>,
}

impl GatewayApiCapabilities {
    /// A cluster that serves these kinds and fields.
    pub fn from_vocabulary(kinds: Vec<GatewayApiKind>, fields: Vec<GatewayApiField>) -> (r: Self)
        ensures
            r.kinds@ == kinds@,
            r.fields@ == fields@,
    {
        GatewayApiCapabilities { kinds, fields }
    }

    /// The cluster meets the requirement.
    pub open spec fn meets(&self, req: Requirement) -> bool {
        match req {
            Requirement::Kind(k) => self.kinds@.contains(k),
            Requirement::Field(f) => self.fields@.contains(f),
        }
    }

    /// Whether the cluster knows the field.
    pub fn has_field(&self, field: GatewayApiField) -> (r: bool)
        ensures
            r == self.meets(Requirement::Field(field)),
    {
        let mut i: usize = 0;
        while i < self.fields.len()
            invariant
                i <= self.fields.len(),
                forall|j: int| 0 <= j < i ==> #[trigger] self.fields@[j] != field,
            decreases self.fields.len() - i,
        {
            if self.fields[i] == field {
                return true;
            }
            i = i + 1;
        }
        false
    }

    /// Whether the cluster serves the kind.
    pub fn has_kind(&self, kind: GatewayApiKind) -> (r: bool)
        ensures
            r == self.meets(Requirement::Kind(kind)),
    {
        let mut i: usize = 0;
        while i < self.kinds.len()
            invariant
                i <= self.kinds.len(),
                forall|j: int| 0 <= j < i ==> #[trigger] self.kinds@[j] != kind,
            decreases self.kinds.len() - i,
        {
            if self.kinds[i] == kind {
                return true;
            }
            i = i + 1;
        }
        false
    }

    /// Whether the cluster meets the requirement.
    pub fn satisfies(&self, req: Requirement) -> (r: bool)
        ensures
            r == self.meets(req),
    {
        match req {
            Requirement::Kind(k) => self.has_kind(k),
            Requirement::Field(f) => self.has_field(f),
        }
    }
}

/// A feature name and what it needs of the cluster.
#[derive(Debug, Clone, Copy)]
pub struct Feature {
    /// Name.
    pub name: &'static str,
    /// What it needs.
    pub needs: Requirement,
}

/// What a feature holds.
pub struct FeatureView {
    /// Name.
    pub name: Seq<char>,
    /// What it needs.
    pub needs: Requirement,
}

/// A feature.
pub open spec fn feature(name: Seq<char>, needs: Requirement) -> FeatureView {
    FeatureView { name, needs }
}

/// What a list of features holds.
pub open spec fn feature_views(v: Seq<Feature>) -> Seq<FeatureView> {
    Seq::new(v.len(), |i: int| feature(v[i].name@, v[i].needs))
}

/// All features that are implemented, in the order of their names.
pub open spec fn features() -> Seq<FeatureView> {
    seq![
        feature("BackendTLSPolicy"@, Requirement::Kind(GatewayApiKind::BackendTlsPolicy)),
        feature("BackendTLSPolicySANValidation"@, Requirement::Kind(GatewayApiKind::BackendTlsPolicy)),
        feature("GRPCRoute"@, Requirement::Kind(GatewayApiKind::GrpcRoute)),
        feature("GRPCRouteNamedRouteRule"@, Requirement::Kind(GatewayApiKind::GrpcRoute)),
        feature("Gateway"@, Requirement::Kind(GatewayApiKind::Gateway)),
        feature("GatewayAddressEmpty"@, Requirement::Kind(GatewayApiKind::Gateway)),
        feature("GatewayBackendClientCertificate"@, Requirement::Kind(GatewayApiKind::Gateway)),
        feature("GatewayFrontendClientCertificateValidation"@, Requirement::Field(GatewayApiField::GatewayFrontendTls)),
        feature("GatewayFrontendClientCertificateValidationInsecureFallback"@, Requirement::Field(GatewayApiField::GatewayFrontendTls)),
        feature("GatewayHTTPListenerIsolation"@, Requirement::Kind(GatewayApiKind::Gateway)),
        feature("GatewayHTTPSListenerDetectMisdirectedRequests"@, Requirement::Kind(GatewayApiKind::Gateway)),
        feature("GatewayInfrastructurePropagation"@, Requirement::Kind(GatewayApiKind::Gateway)),
        feature("GatewayPort8080"@, Requirement::Kind(GatewayApiKind::Gateway)),
        feature("GatewayStaticAddresses"@, Requirement::Kind(GatewayApiKind::Gateway)),
        feature("HTTPRoute"@, Requirement::Kind(GatewayApiKind::HttpRoute)),
        feature("HTTPRoute303RedirectStatusCode"@, Requirement::Kind(GatewayApiKind::HttpRoute)),
        feature("HTTPRoute307RedirectStatusCode"@, Requirement::Kind(GatewayApiKind::HttpRoute)),
        feature("HTTPRoute308RedirectStatusCode"@, Requirement::Kind(GatewayApiKind::HttpRoute)),
        feature("HTTPRouteBackendProtocolH2C"@, Requirement::Kind(GatewayApiKind::HttpRoute)),
        feature("HTTPRouteBackendProtocolWebSocket"@, Requirement::Kind(GatewayApiKind::HttpRoute)),
        feature("HTTPRouteBackendRequestHeaderModification"@, Requirement::Kind(GatewayApiKind::HttpRoute)),
        feature("HTTPRouteBackendTimeout"@, Requirement::Kind(GatewayApiKind::HttpRoute)),
        feature("HTTPRouteCORS"@, Requirement::Field(GatewayApiField::HttpRouteCors)),
        feature("HTTPRouteDestinationPortMatching"@, Requirement::Kind(GatewayApiKind::HttpRoute)),
        feature("HTTPRouteHostRewrite"@, Requirement::Kind(GatewayApiKind::HttpRoute)),
        feature("HTTPRouteMethodMatching"@, Requirement::Kind(GatewayApiKind::HttpRoute)),
        feature("HTTPRouteNamedRouteRule"@, Requirement::Kind(GatewayApiKind::HttpRoute)),
        feature("HTTPRouteParentRefPort"@, Requirement::Kind(GatewayApiKind::HttpRoute)),
        feature("HTTPRoutePathRedirect"@, Requirement::Kind(GatewayApiKind::HttpRoute)),
        feature("HTTPRoutePathRewrite"@, Requirement::Kind(GatewayApiKind::HttpRoute)),
        feature("HTTPRoutePortRedirect"@, Requirement::Kind(GatewayApiKind::HttpRoute)),
        feature("HTTPRouteQueryParamMatching"@, Requirement::Kind(GatewayApiKind::HttpRoute)),
        feature("HTTPRouteRequestMirror"@, Requirement::Kind(GatewayApiKind::HttpRoute)),
        feature("HTTPRouteRequestMultipleMirrors"@, Requirement::Kind(GatewayApiKind::HttpRoute)),
        feature("HTTPRouteRequestPercentageMirror"@, Requirement::Kind(GatewayApiKind::HttpRoute)),
        feature("HTTPRouteRequestTimeout"@, Requirement::Kind(GatewayApiKind::HttpRoute)),
        feature("HTTPRouteResponseHeaderModification"@, Requirement::Kind(GatewayApiKind::HttpRoute)),
        feature("HTTPRouteSchemeRedirect"@, Requirement::Kind(GatewayApiKind::HttpRoute)),
        feature("ListenerSet"@, Requirement::Kind(GatewayApiKind::ListenerSet)),
        feature("ReferenceGrant"@, Requirement::Kind(GatewayApiKind::ReferenceGrant)),
        feature("TCPRoute"@, Requirement::Kind(GatewayApiKind::TcpRoute)),
        feature("TLSRoute"@, Requirement::Kind(GatewayApiKind::TlsRoute)),
        feature("TLSRouteModeMixed"@, Requirement::Kind(GatewayApiKind::TlsRoute)),
        feature("TLSRouteModeTerminate"@, Requirement::Kind(GatewayApiKind::TlsRoute)),
        feature("UDPRoute"@, Requirement::Kind(GatewayApiKind::UdpRoute)),
    ]
}

/// All features that are implemented, in the order of their names.
pub fn supported_features() -> (r: Vec<Feature>)
    ensures
        feature_views(r@) == features(),
{
    let mut v: Vec<Feature> = Vec::new();
    v.push(Feature { name: "BackendTLSPolicy", needs: Requirement::Kind(GatewayApiKind::BackendTlsPolicy) });
    v.push(Feature { name: "BackendTLSPolicySANValidation", needs: Requirement::Kind(GatewayApiKind::BackendTlsPolicy) });
    v.push(Feature { name: "GRPCRoute", needs: Requirement::Kind(GatewayApiKind::GrpcRoute) });
    v.push(Feature { name: "GRPCRouteNamedRouteRule", needs: Requirement::Kind(GatewayApiKind::GrpcRoute) });
    v.push(Feature { name: "Gateway", needs: Requirement::Kind(GatewayApiKind::Gateway) });
    v.push(Feature { name: "GatewayAddressEmpty", needs: Requirement::Kind(GatewayApiKind::Gateway) });
    v.push(Feature { name: "GatewayBackendClientCertificate", needs: Requirement::Kind(GatewayApiKind::Gateway) });
    v.push(Feature { name: "GatewayFrontendClientCertificateValidation", needs: Requirement::Field(GatewayApiField::GatewayFrontendTls) });
    v.push(Feature { name: "GatewayFrontendClientCertificateValidationInsecureFallback", needs: Requirement::Field(GatewayApiField::GatewayFrontendTls) });
    v.push(Feature { name: "GatewayHTTPListenerIsolation", needs: Requirement::Kind(GatewayApiKind::Gateway) });
    v.push(Feature { name: "GatewayHTTPSListenerDetectMisdirectedRequests", needs: Requirement::Kind(GatewayApiKind::Gateway) });
    v.push(Feature { name: "GatewayInfrastructurePropagation", needs: Requirement::Kind(GatewayApiKind::Gateway) });
    v.push(Feature { name: "GatewayPort8080", needs: Requirement::Kind(GatewayApiKind::Gateway) });
    v.push(Feature { name: "GatewayStaticAddresses", needs: Requirement::Kind(GatewayApiKind::Gateway) });
    v.push(Feature { name: "HTTPRoute", needs: Requirement::Kind(GatewayApiKind::HttpRoute) });
    v.push(Feature { name: "HTTPRoute303RedirectStatusCode", needs: Requirement::Kind(GatewayApiKind::HttpRoute) });
    v.push(Feature { name: "HTTPRoute307RedirectStatusCode", needs: Requirement::Kind(GatewayApiKind::HttpRoute) });
    v.push(Feature { name: "HTTPRoute308RedirectStatusCode", needs: Requirement::Kind(GatewayApiKind::HttpRoute) });
    v.push(Feature { name: "HTTPRouteBackendProtocolH2C", needs: Requirement::Kind(GatewayApiKind::HttpRoute) });
    v.push(Feature { name: "HTTPRouteBackendProtocolWebSocket", needs: Requirement::Kind(GatewayApiKind::HttpRoute) });
    v.push(Feature { name: "HTTPRouteBackendRequestHeaderModification", needs: Requirement::Kind(GatewayApiKind::HttpRoute) });
    v.push(Feature { name: "HTTPRouteBackendTimeout", needs: Requirement::Kind(GatewayApiKind::HttpRoute) });
    v.push(Feature { name: "HTTPRouteCORS", needs: Requirement::Field(GatewayApiField::HttpRouteCors) });
    v.push(Feature { name: "HTTPRouteDestinationPortMatching", needs: Requirement::Kind(GatewayApiKind::HttpRoute) });
    v.push(Feature { name: "HTTPRouteHostRewrite", needs: Requirement::Kind(GatewayApiKind::HttpRoute) });
    v.push(Feature { name: "HTTPRouteMethodMatching", needs: Requirement::Kind(GatewayApiKind::HttpRoute) });
    v.push(Feature { name: "HTTPRouteNamedRouteRule", needs: Requirement::Kind(GatewayApiKind::HttpRoute) });
    v.push(Feature { name: "HTTPRouteParentRefPort", needs: Requirement::Kind(GatewayApiKind::HttpRoute) });
    v.push(Feature { name: "HTTPRoutePathRedirect", needs: Requirement::Kind(GatewayApiKind::HttpRoute) });
    v.push(Feature { name: "HTTPRoutePathRewrite", needs: Requirement::Kind(GatewayApiKind::HttpRoute) });
    v.push(Feature { name: "HTTPRoutePortRedirect", needs: Requirement::Kind(GatewayApiKind::HttpRoute) });
    v.push(Feature { name: "HTTPRouteQueryParamMatching", needs: Requirement::Kind(GatewayApiKind::HttpRoute) });
    v.push(Feature { name: "HTTPRouteRequestMirror", needs: Requirement::Kind(GatewayApiKind::HttpRoute) });
    v.push(Feature { name: "HTTPRouteRequestMultipleMirrors", needs: Requirement::Kind(GatewayApiKind::HttpRoute) });
    v.push(Feature { name: "HTTPRouteRequestPercentageMirror", needs: Requirement::Kind(GatewayApiKind::HttpRoute) });
    v.push(Feature { name: "HTTPRouteRequestTimeout", needs: Requirement::Kind(GatewayApiKind::HttpRoute) });
    v.push(Feature { name: "HTTPRouteResponseHeaderModification", needs: Requirement::Kind(GatewayApiKind::HttpRoute) });
    v.push(Feature { name: "HTTPRouteSchemeRedirect", needs: Requirement::Kind(GatewayApiKind::HttpRoute) });
    v.push(Feature { name: "ListenerSet", needs: Requirement::Kind(GatewayApiKind::ListenerSet) });
    v.push(Feature { name: "ReferenceGrant", needs: Requirement::Kind(GatewayApiKind::ReferenceGrant) });
    v.push(Feature { name: "TCPRoute", needs: Requirement::Kind(GatewayApiKind::TcpRoute) });
    v.push(Feature { name: "TLSRoute", needs: Requirement::Kind(GatewayApiKind::TlsRoute) });
    v.push(Feature { name: "TLSRouteModeMixed", needs: Requirement::Kind(GatewayApiKind::TlsRoute) });
    v.push(Feature { name: "TLSRouteModeTerminate", needs: Requirement::Kind(GatewayApiKind::TlsRoute) });
    v.push(Feature { name: "UDPRoute", needs: Requirement::Kind(GatewayApiKind::UdpRoute) });
    assert(feature_views(v@) =~= features());
    v
}

/// The names of the features that the cluster can express, in the order of their names.
pub open spec fn advertised(caps: GatewayApiCapabilities) -> Seq<Seq<char>> {
    features().filter(|f: FeatureView| caps.meets(f.needs)).map_values(|f: FeatureView| f.name)
}

/// The names of the features that the cluster can express, in the order of their names.
pub fn advertised_features(caps: &GatewayApiCapabilities) -> (r: Vec<String>)
    ensures
        texts(r@) == advertised(*caps),
{
    let all = supported_features();
    let ghost f = features();
    let ghost p = |x: FeatureView| caps.meets(x.needs);
    let ghost g = |x: FeatureView| x.name;
    let mut out: Vec<String> = Vec::new();
    let mut i: usize = 0;
    assert(f.take(0).filter(p).map_values(g) =~= Seq::<Seq<char>>::empty()) by {
        reveal_with_fuel(Seq::filter, 1);
    }
    assert(texts(out@) =~= Seq::<Seq<char>>::empty());
    while i < all.len()
        invariant
            i <= all.len(),
            feature_views(all@) == f,
            p == (|x: FeatureView| caps.meets(x.needs)),
            g == (|x: FeatureView| x.name),
            texts(out@) == f.take(i as int).filter(p).map_values(g),
        decreases all.len() - i,
    {
        let ghost before = out@;
        let ghost s = f.take(i as int);
        let ghost x = f[i as int];
        proof {
            assert(x == feature_views(all@)[i as int]);
            assert(f.take(i + 1) =~= s.push(x));
            s.lemma_filter_push(x, p);
        }
        if caps.satisfies(all[i].needs) {
            out.push(all[i].name.to_owned());
            assert(texts(out@) =~= texts(before).push(x.name));
            assert(s.filter(p).push(x).map_values(g) =~= s.filter(p).map_values(g).push(x.name));
        }
        i = i + 1;
    }
    assert(f.take(i as int) =~= f);
    out
}

impl GatewayClass {
    /// The features that the status names; none where it names none.
    pub open spec fn named_features(&self) -> Seq<Seq<char>> {
        match self.status {
            Some(s) => match s.supported_features {
                Some(f) => texts(f@),
                None => Seq::empty(),
            },
            None => Seq::empty(),
        }
    }
}

/// The cluster can store the list of features.
pub open spec fn stores_features(caps: GatewayApiCapabilities) -> bool {
    caps.meets(Requirement::Field(GatewayApiField::GatewayClassSupportedFeatures))
}

/// The status of the GatewayClass is what it should be: accepted at its generation and, where the
/// cluster can store them, naming exactly the advertised features.
pub open spec fn class_current(gc: GatewayClass, caps: GatewayApiCapabilities) -> bool {
    &&& true_at(gc.conds(), "Accepted"@, gc.metadata.gen() as int)
    &&& stores_features(caps) ==> gc.named_features() == advertised(caps)
}

fn same_texts(a: &Vec<String>, b: &Vec<String>) -> (r: bool)
    ensures
        r == (texts(a@) == texts(b@)),
{
    if a.len() != b.len() {
        assert(texts(a@).len() != texts(b@).len());
        return false;
    }
    let mut i: usize = 0;
    while i < a.len()
        invariant
            a.len() == b.len(),
            i <= a.len(),
            forall|j: int| 0 <= j < i ==> #[trigger] texts(a@)[j] == texts(b@)[j],
        decreases a.len() - i,
    {
        if !str_eq(a[i].as_str(), b[i].as_str()) {
            assert(texts(a@)[i as int] != texts(b@)[i as int]);
            return false;
        }
        i = i + 1;
    }
    assert(texts(a@) =~= texts(b@));
    true
}

/// Whether the status of the GatewayClass differs from what it should be.
pub fn gateway_class_needs_status_patch(gc: &GatewayClass, caps: &GatewayApiCapabilities) -> (r:
    bool)
    ensures
        r == !class_current(*gc, *caps),
{
    if !gateway_class_accepted(gc) {
        return true;
    }
    if !caps.has_field(GatewayApiField::GatewayClassSupportedFeatures) {
        return false;
    }
    let none: Vec<String> = Vec::new();
    let current: &Vec<String> = match &gc.status {
        Some(s) => match &s.supported_features {
            Some(f) => f,
            None => &none,
        },
        None => &none,
    };
    assert(texts(current@) =~= gc.named_features());
    let want = advertised_features(caps);
    !same_texts(current, &want)
}

/// The condition that the patch writes.
pub open spec fn class_condition(generation: i64, now: Seq<char>) -> ConditionView {
    condition("Accepted"@, "True"@, "Accepted"@, ""@, generation, now)
}

/// A feature name in JSON.
pub open spec fn feature_json(name: Seq<char>) -> JsonView {
    JsonView::Obj(seq![("name"@, JsonView::Str(name))])
}

/// The patch of a GatewayClass's status in JSON.
pub open spec fn class_patch_json(
    generation: i64,
    now: Seq<char>,
    caps: GatewayApiCapabilities,
) -> JsonView {
    let base = seq![
        ("conditions"@, JsonView::Arr(seq![condition_json(class_condition(generation, now))])),
    ];
    let a = advertised(caps);
    let status = if stores_features(caps) {
        base.push(
            ("supportedFeatures"@, JsonView::Arr(Seq::new(a.len(), |i: int| feature_json(a[i])))),
        )
    } else {
        base
    };
    JsonView::Obj(seq![("status"@, JsonView::Obj(status))])
}

/// The patch that brings the status of a GatewayClass to what it should be.
pub fn build_gateway_class_status_patch(
    generation: i64,
    now: &str,
    caps: &GatewayApiCapabilities,
) -> (r: Json)
    ensures
        r@ == class_patch_json(generation, now@, *caps),
{
    let c = make_condition("Accepted", "True", "Accepted", "", generation, now);
    let mut list: Vec<Json> = Vec::new();
    list.push(c.to_json());
    assert(items(list@) =~= seq![condition_json(class_condition(generation, now@))]);
    let o = Object::new().with("conditions", arr(list));
    let o = if caps.has_field(GatewayApiField::GatewayClassSupportedFeatures) {
        let names = advertised_features(caps);
        let ghost a = advertised(*caps);
        let mut out: Vec<Json> = Vec::new();
        let mut i: usize = 0;
        while i < names.len()
            invariant
                i <= names.len(),
                out.len() == i,
                texts(names@) == a,
                forall|j: int| 0 <= j < i ==> (#[trigger] out@[j])@ == feature_json(a[j]),
            decreases names.len() - i,
        {
            assert(texts(names@)[i as int] == names@[i as int]@);
            out.push(feature_to_json(names[i].as_str()));
            i = i + 1;
        }
        assert(items(out@) =~= Seq::new(a.len(), |i: int| feature_json(a[i])));
        o.with("supportedFeatures", arr(out))
    } else {
        o
    };
    let ghost status = o@;
    let r = Object::new().with("status", o.done()).done();
    let ghost want = class_patch_json(generation, now@, *caps);
    assert(want->Obj_0[0].1->Obj_0 =~= status);
    assert(r@->Obj_0 =~= want->Obj_0);
    r
}

fn feature_to_json(name: &str) -> (r: Json)
    ensures
        r@ == feature_json(name@),
{
    let r = Object::new().with("name", text(name)).done();
    assert(r@->Obj_0 =~= feature_json(name@)->Obj_0);
    r
}

/// The texts stand in strictly ascending order.
pub open spec fn ascending(s: Seq<Seq<char>>) -> bool {
    forall|i: int, j: int|
        0 <= i < j < s.len() ==> text_less(#[trigger] s[i], #[trigger] s[j])
}

proof fn lemma_less_is_transitive(a: Seq<char>, b: Seq<char>, c: Seq<char>)
    requires
        text_less(a, b),
        text_less(b, c),
    ensures
        text_less(a, c),
{
    let i = choose|i: int| #[trigger] less_at(a, b, i);
    let k = choose|k: int| #[trigger] less_at(b, c, k);
    let m = if i < k {
        i
    } else {
        k
    };
    assert(a.subrange(0, m) =~= c.subrange(0, m)) by {
        assert(a.subrange(0, m) =~= a.subrange(0, i).subrange(0, m));
        assert(b.subrange(0, m) =~= b.subrange(0, i).subrange(0, m));
        assert(b.subrange(0, m) =~= b.subrange(0, k).subrange(0, m));
        assert(c.subrange(0, m) =~= c.subrange(0, k).subrange(0, m));
    }
    if i < k {
        assert(b.subrange(0, k)[i] == c.subrange(0, k)[i]);
    } else if k < i {
        assert(a.subrange(0, i)[k] == b.subrange(0, i)[k]);
    }
    assert(less_at(a, c, m));
}

proof fn lemma_neighbours(s: Seq<Seq<char>>)
    requires
        forall|i: int| 0 <= i < s.len() - 1 ==> text_less(#[trigger] s[i], s[i + 1]),
    ensures
        ascending(s),
{
    assert forall|i: int, j: int| 0 <= i < j < s.len() implies text_less(
        #[trigger] s[i],
        #[trigger] s[j],
    ) by {
        lemma_reach(s, i, j);
    }
}

proof fn lemma_reach(s: Seq<Seq<char>>, i: int, j: int)
    requires
        forall|k: int| 0 <= k < s.len() - 1 ==> text_less(#[trigger] s[k], s[k + 1]),
        0 <= i < j < s.len(),
    ensures
        text_less(s[i], s[j]),
    decreases j - i,
{
    assert(text_less(s[j - 1], s[j - 1 + 1]));
    if i < j - 1 {
        lemma_reach(s, i, j - 1);
        lemma_less_is_transitive(s[i], s[j - 1], s[j]);
    }
}

proof fn lemma_names_a()
    ensures
        text_less("BackendTLSPolicy"@, "BackendTLSPolicySANValidation"@),
        text_less("BackendTLSPolicySANValidation"@, "GRPCRoute"@),
        text_less("GRPCRoute"@, "GRPCRouteNamedRouteRule"@),
        text_less("GRPCRouteNamedRouteRule"@, "Gateway"@),
        text_less("Gateway"@, "GatewayAddressEmpty"@),
        text_less("GatewayAddressEmpty"@, "GatewayBackendClientCertificate"@),
        text_less("GatewayBackendClientCertificate"@, "GatewayFrontendClientCertificateValidation"@),
        text_less("GatewayFrontendClientCertificateValidation"@, "GatewayFrontendClientCertificateValidationInsecureFallback"@),
        text_less("GatewayFrontendClientCertificateValidationInsecureFallback"@, "GatewayHTTPListenerIsolation"@),
        text_less("GatewayHTTPListenerIsolation"@, "GatewayHTTPSListenerDetectMisdirectedRequests"@),
        text_less("GatewayHTTPSListenerDetectMisdirectedRequests"@, "GatewayInfrastructurePropagation"@),
{
    assert(text_less("BackendTLSPolicy"@, "BackendTLSPolicySANValidation"@)) by {
        reveal_strlit("BackendTLSPolicy");
        reveal_strlit("BackendTLSPolicySANValidation");
        assert("BackendTLSPolicy"@.subrange(0, 16) =~= "BackendTLSPolicySANValidation"@.subrange(0, 16));
        assert(less_at("BackendTLSPolicy"@, "BackendTLSPolicySANValidation"@, 16));
    }
    assert(text_less("BackendTLSPolicySANValidation"@, "GRPCRoute"@)) by {
        reveal_strlit("BackendTLSPolicySANValidation");
        reveal_strlit("GRPCRoute");
        assert("BackendTLSPolicySANValidation"@.subrange(0, 0) =~= "GRPCRoute"@.subrange(0, 0));
        assert(less_at("BackendTLSPolicySANValidation"@, "GRPCRoute"@, 0));
    }
    assert(text_less("GRPCRoute"@, "GRPCRouteNamedRouteRule"@)) by {
        reveal_strlit("GRPCRoute");
        reveal_strlit("GRPCRouteNamedRouteRule");
        assert("GRPCRoute"@.subrange(0, 9) =~= "GRPCRouteNamedRouteRule"@.subrange(0, 9));
        assert(less_at("GRPCRoute"@, "GRPCRouteNamedRouteRule"@, 9));
    }
    assert(text_less("GRPCRouteNamedRouteRule"@, "Gateway"@)) by {
        reveal_strlit("GRPCRouteNamedRouteRule");
        reveal_strlit("Gateway");
        assert("GRPCRouteNamedRouteRule"@.subrange(0, 1) =~= "Gateway"@.subrange(0, 1));
        assert(less_at("GRPCRouteNamedRouteRule"@, "Gateway"@, 1));
    }
    assert(text_less("Gateway"@, "GatewayAddressEmpty"@)) by {
        reveal_strlit("Gateway");
        reveal_strlit("GatewayAddressEmpty");
        assert("Gateway"@.subrange(0, 7) =~= "GatewayAddressEmpty"@.subrange(0, 7));
        assert(less_at("Gateway"@, "GatewayAddressEmpty"@, 7));
    }
    assert(text_less("GatewayAddressEmpty"@, "GatewayBackendClientCertificate"@)) by {
        reveal_strlit("GatewayAddressEmpty");
        reveal_strlit("GatewayBackendClientCertificate");
        assert("GatewayAddressEmpty"@.subrange(0, 7) =~= "GatewayBackendClientCertificate"@.subrange(0, 7));
        assert(less_at("GatewayAddressEmpty"@, "GatewayBackendClientCertificate"@, 7));
    }
    assert(text_less("GatewayBackendClientCertificate"@, "GatewayFrontendClientCertificateValidation"@)) by {
        reveal_strlit("GatewayBackendClientCertificate");
        reveal_strlit("GatewayFrontendClientCertificateValidation");
        assert("GatewayBackendClientCertificate"@.subrange(0, 7) =~= "GatewayFrontendClientCertificateValidation"@.subrange(0, 7));
        assert(less_at("GatewayBackendClientCertificate"@, "GatewayFrontendClientCertificateValidation"@, 7));
    }
    assert(text_less("GatewayFrontendClientCertificateValidation"@, "GatewayFrontendClientCertificateValidationInsecureFallback"@)) by {
        reveal_strlit("GatewayFrontendClientCertificateValidation");
        reveal_strlit("GatewayFrontendClientCertificateValidationInsecureFallback");
        assert("GatewayFrontendClientCertificateValidation"@.subrange(0, 42) =~= "GatewayFrontendClientCertificateValidationInsecureFallback"@.subrange(0, 42));
        assert(less_at("GatewayFrontendClientCertificateValidation"@, "GatewayFrontendClientCertificateValidationInsecureFallback"@, 42));
    }
    assert(text_less("GatewayFrontendClientCertificateValidationInsecureFallback"@, "GatewayHTTPListenerIsolation"@)) by {
        reveal_strlit("GatewayFrontendClientCertificateValidationInsecureFallback");
        reveal_strlit("GatewayHTTPListenerIsolation");
        assert("GatewayFrontendClientCertificateValidationInsecureFallback"@.subrange(0, 7) =~= "GatewayHTTPListenerIsolation"@.subrange(0, 7));
        assert(less_at("GatewayFrontendClientCertificateValidationInsecureFallback"@, "GatewayHTTPListenerIsolation"@, 7));
    }
    assert(text_less("GatewayHTTPListenerIsolation"@, "GatewayHTTPSListenerDetectMisdirectedRequests"@)) by {
        reveal_strlit("GatewayHTTPListenerIsolation");
        reveal_strlit("GatewayHTTPSListenerDetectMisdirectedRequests");
        assert("GatewayHTTPListenerIsolation"@.subrange(0, 11) =~= "GatewayHTTPSListenerDetectMisdirectedRequests"@.subrange(0, 11));
        assert(less_at("GatewayHTTPListenerIsolation"@, "GatewayHTTPSListenerDetectMisdirectedRequests"@, 11));
    }
    assert(text_less("GatewayHTTPSListenerDetectMisdirectedRequests"@, "GatewayInfrastructurePropagation"@)) by {
        reveal_strlit("GatewayHTTPSListenerDetectMisdirectedRequests");
        reveal_strlit("GatewayInfrastructurePropagation");
        assert("GatewayHTTPSListenerDetectMisdirectedRequests"@.subrange(0, 7) =~= "GatewayInfrastructurePropagation"@.subrange(0, 7));
        assert(less_at("GatewayHTTPSListenerDetectMisdirectedRequests"@, "GatewayInfrastructurePropagation"@, 7));
    }
}

proof fn lemma_names_b()
    ensures
        text_less("GatewayInfrastructurePropagation"@, "GatewayPort8080"@),
        text_less("GatewayPort8080"@, "GatewayStaticAddresses"@),
        text_less("GatewayStaticAddresses"@, "HTTPRoute"@),
        text_less("HTTPRoute"@, "HTTPRoute303RedirectStatusCode"@),
        text_less("HTTPRoute303RedirectStatusCode"@, "HTTPRoute307RedirectStatusCode"@),
        text_less("HTTPRoute307RedirectStatusCode"@, "HTTPRoute308RedirectStatusCode"@),
        text_less("HTTPRoute308RedirectStatusCode"@, "HTTPRouteBackendProtocolH2C"@),
        text_less("HTTPRouteBackendProtocolH2C"@, "HTTPRouteBackendProtocolWebSocket"@),
        text_less("HTTPRouteBackendProtocolWebSocket"@, "HTTPRouteBackendRequestHeaderModification"@),
        text_less("HTTPRouteBackendRequestHeaderModification"@, "HTTPRouteBackendTimeout"@),
        text_less("HTTPRouteBackendTimeout"@, "HTTPRouteCORS"@),
{
    assert(text_less("GatewayInfrastructurePropagation"@, "GatewayPort8080"@)) by {
        reveal_strlit("GatewayInfrastructurePropagation");
        reveal_strlit("GatewayPort8080");
        assert("GatewayInfrastructurePropagation"@.subrange(0, 7) =~= "GatewayPort8080"@.subrange(0, 7));
        assert(less_at("GatewayInfrastructurePropagation"@, "GatewayPort8080"@, 7));
    }
    assert(text_less("GatewayPort8080"@, "GatewayStaticAddresses"@)) by {
        reveal_strlit("GatewayPort8080");
        reveal_strlit("GatewayStaticAddresses");
        assert("GatewayPort8080"@.subrange(0, 7) =~= "GatewayStaticAddresses"@.subrange(0, 7));
        assert(less_at("GatewayPort8080"@, "GatewayStaticAddresses"@, 7));
    }
    assert(text_less("GatewayStaticAddresses"@, "HTTPRoute"@)) by {
        reveal_strlit("GatewayStaticAddresses");
        reveal_strlit("HTTPRoute");
        assert("GatewayStaticAddresses"@.subrange(0, 0) =~= "HTTPRoute"@.subrange(0, 0));
        assert(less_at("GatewayStaticAddresses"@, "HTTPRoute"@, 0));
    }
    assert(text_less("HTTPRoute"@, "HTTPRoute303RedirectStatusCode"@)) by {
        reveal_strlit("HTTPRoute");
        reveal_strlit("HTTPRoute303RedirectStatusCode");
        assert("HTTPRoute"@.subrange(0, 9) =~= "HTTPRoute303RedirectStatusCode"@.subrange(0, 9));
        assert(less_at("HTTPRoute"@, "HTTPRoute303RedirectStatusCode"@, 9));
    }
    assert(text_less("HTTPRoute303RedirectStatusCode"@, "HTTPRoute307RedirectStatusCode"@)) by {
        reveal_strlit("HTTPRoute303RedirectStatusCode");
        reveal_strlit("HTTPRoute307RedirectStatusCode");
        assert("HTTPRoute303RedirectStatusCode"@.subrange(0, 11) =~= "HTTPRoute307RedirectStatusCode"@.subrange(0, 11));
        assert(less_at("HTTPRoute303RedirectStatusCode"@, "HTTPRoute307RedirectStatusCode"@, 11));
    }
    assert(text_less("HTTPRoute307RedirectStatusCode"@, "HTTPRoute308RedirectStatusCode"@)) by {
        reveal_strlit("HTTPRoute307RedirectStatusCode");
        reveal_strlit("HTTPRoute308RedirectStatusCode");
        assert("HTTPRoute307RedirectStatusCode"@.subrange(0, 11) =~= "HTTPRoute308RedirectStatusCode"@.subrange(0, 11));
        assert(less_at("HTTPRoute307RedirectStatusCode"@, "HTTPRoute308RedirectStatusCode"@, 11));
    }
    assert(text_less("HTTPRoute308RedirectStatusCode"@, "HTTPRouteBackendProtocolH2C"@)) by {
        reveal_strlit("HTTPRoute308RedirectStatusCode");
        reveal_strlit("HTTPRouteBackendProtocolH2C");
        assert("HTTPRoute308RedirectStatusCode"@.subrange(0, 9) =~= "HTTPRouteBackendProtocolH2C"@.subrange(0, 9));
        assert(less_at("HTTPRoute308RedirectStatusCode"@, "HTTPRouteBackendProtocolH2C"@, 9));
    }
    assert(text_less("HTTPRouteBackendProtocolH2C"@, "HTTPRouteBackendProtocolWebSocket"@)) by {
        reveal_strlit("HTTPRouteBackendProtocolH2C");
        reveal_strlit("HTTPRouteBackendProtocolWebSocket");
        assert("HTTPRouteBackendProtocolH2C"@.subrange(0, 24) =~= "HTTPRouteBackendProtocolWebSocket"@.subrange(0, 24));
        assert(less_at("HTTPRouteBackendProtocolH2C"@, "HTTPRouteBackendProtocolWebSocket"@, 24));
    }
    assert(text_less("HTTPRouteBackendProtocolWebSocket"@, "HTTPRouteBackendRequestHeaderModification"@)) by {
        reveal_strlit("HTTPRouteBackendProtocolWebSocket");
        reveal_strlit("HTTPRouteBackendRequestHeaderModification");
        assert("HTTPRouteBackendProtocolWebSocket"@.subrange(0, 16) =~= "HTTPRouteBackendRequestHeaderModification"@.subrange(0, 16));
        assert(less_at("HTTPRouteBackendProtocolWebSocket"@, "HTTPRouteBackendRequestHeaderModification"@, 16));
    }
    assert(text_less("HTTPRouteBackendRequestHeaderModification"@, "HTTPRouteBackendTimeout"@)) by {
        reveal_strlit("HTTPRouteBackendRequestHeaderModification");
        reveal_strlit("HTTPRouteBackendTimeout");
        assert("HTTPRouteBackendRequestHeaderModification"@.subrange(0, 16) =~= "HTTPRouteBackendTimeout"@.subrange(0, 16));
        assert(less_at("HTTPRouteBackendRequestHeaderModification"@, "HTTPRouteBackendTimeout"@, 16));
    }
    assert(text_less("HTTPRouteBackendTimeout"@, "HTTPRouteCORS"@)) by {
        reveal_strlit("HTTPRouteBackendTimeout");
        reveal_strlit("HTTPRouteCORS");
        assert("HTTPRouteBackendTimeout"@.subrange(0, 9) =~= "HTTPRouteCORS"@.subrange(0, 9));
        assert(less_at("HTTPRouteBackendTimeout"@, "HTTPRouteCORS"@, 9));
    }
}

proof fn lemma_names_c()
    ensures
        text_less("HTTPRouteCORS"@, "HTTPRouteDestinationPortMatching"@),
        text_less("HTTPRouteDestinationPortMatching"@, "HTTPRouteHostRewrite"@),
        text_less("HTTPRouteHostRewrite"@, "HTTPRouteMethodMatching"@),
        text_less("HTTPRouteMethodMatching"@, "HTTPRouteNamedRouteRule"@),
        text_less("HTTPRouteNamedRouteRule"@, "HTTPRouteParentRefPort"@),
        text_less("HTTPRouteParentRefPort"@, "HTTPRoutePathRedirect"@),
        text_less("HTTPRoutePathRedirect"@, "HTTPRoutePathRewrite"@),
        text_less("HTTPRoutePathRewrite"@, "HTTPRoutePortRedirect"@),
        text_less("HTTPRoutePortRedirect"@, "HTTPRouteQueryParamMatching"@),
        text_less("HTTPRouteQueryParamMatching"@, "HTTPRouteRequestMirror"@),
        text_less("HTTPRouteRequestMirror"@, "HTTPRouteRequestMultipleMirrors"@),
{
    assert(text_less("HTTPRouteCORS"@, "HTTPRouteDestinationPortMatching"@)) by {
        reveal_strlit("HTTPRouteCORS");
        reveal_strlit("HTTPRouteDestinationPortMatching");
        assert("HTTPRouteCORS"@.subrange(0, 9) =~= "HTTPRouteDestinationPortMatching"@.subrange(0, 9));
        assert(less_at("HTTPRouteCORS"@, "HTTPRouteDestinationPortMatching"@, 9));
    }
    assert(text_less("HTTPRouteDestinationPortMatching"@, "HTTPRouteHostRewrite"@)) by {
        reveal_strlit("HTTPRouteDestinationPortMatching");
        reveal_strlit("HTTPRouteHostRewrite");
        assert("HTTPRouteDestinationPortMatching"@.subrange(0, 9) =~= "HTTPRouteHostRewrite"@.subrange(0, 9));
        assert(less_at("HTTPRouteDestinationPortMatching"@, "HTTPRouteHostRewrite"@, 9));
    }
    assert(text_less("HTTPRouteHostRewrite"@, "HTTPRouteMethodMatching"@)) by {
        reveal_strlit("HTTPRouteHostRewrite");
        reveal_strlit("HTTPRouteMethodMatching");
        assert("HTTPRouteHostRewrite"@.subrange(0, 9) =~= "HTTPRouteMethodMatching"@.subrange(0, 9));
        assert(less_at("HTTPRouteHostRewrite"@, "HTTPRouteMethodMatching"@, 9));
    }
    assert(text_less("HTTPRouteMethodMatching"@, "HTTPRouteNamedRouteRule"@)) by {
        reveal_strlit("HTTPRouteMethodMatching");
        reveal_strlit("HTTPRouteNamedRouteRule");
        assert("HTTPRouteMethodMatching"@.subrange(0, 9) =~= "HTTPRouteNamedRouteRule"@.subrange(0, 9));
        assert(less_at("HTTPRouteMethodMatching"@, "HTTPRouteNamedRouteRule"@, 9));
    }
    assert(text_less("HTTPRouteNamedRouteRule"@, "HTTPRouteParentRefPort"@)) by {
        reveal_strlit("HTTPRouteNamedRouteRule");
        reveal_strlit("HTTPRouteParentRefPort");
        assert("HTTPRouteNamedRouteRule"@.subrange(0, 9) =~= "HTTPRouteParentRefPort"@.subrange(0, 9));
        assert(less_at("HTTPRouteNamedRouteRule"@, "HTTPRouteParentRefPort"@, 9));
    }
    assert(text_less("HTTPRouteParentRefPort"@, "HTTPRoutePathRedirect"@)) by {
        reveal_strlit("HTTPRouteParentRefPort");
        reveal_strlit("HTTPRoutePathRedirect");
        assert("HTTPRouteParentRefPort"@.subrange(0, 11) =~= "HTTPRoutePathRedirect"@.subrange(0, 11));
        assert(less_at("HTTPRouteParentRefPort"@, "HTTPRoutePathRedirect"@, 11));
    }
    assert(text_less("HTTPRoutePathRedirect"@, "HTTPRoutePathRewrite"@)) by {
        reveal_strlit("HTTPRoutePathRedirect");
        reveal_strlit("HTTPRoutePathRewrite");
        assert("HTTPRoutePathRedirect"@.subrange(0, 15) =~= "HTTPRoutePathRewrite"@.subrange(0, 15));
        assert(less_at("HTTPRoutePathRedirect"@, "HTTPRoutePathRewrite"@, 15));
    }
    assert(text_less("HTTPRoutePathRewrite"@, "HTTPRoutePortRedirect"@)) by {
        reveal_strlit("HTTPRoutePathRewrite");
        reveal_strlit("HTTPRoutePortRedirect");
        assert("HTTPRoutePathRewrite"@.subrange(0, 10) =~= "HTTPRoutePortRedirect"@.subrange(0, 10));
        assert(less_at("HTTPRoutePathRewrite"@, "HTTPRoutePortRedirect"@, 10));
    }
    assert(text_less("HTTPRoutePortRedirect"@, "HTTPRouteQueryParamMatching"@)) by {
        reveal_strlit("HTTPRoutePortRedirect");
        reveal_strlit("HTTPRouteQueryParamMatching");
        assert("HTTPRoutePortRedirect"@.subrange(0, 9) =~= "HTTPRouteQueryParamMatching"@.subrange(0, 9));
        assert(less_at("HTTPRoutePortRedirect"@, "HTTPRouteQueryParamMatching"@, 9));
    }
    assert(text_less("HTTPRouteQueryParamMatching"@, "HTTPRouteRequestMirror"@)) by {
        reveal_strlit("HTTPRouteQueryParamMatching");
        reveal_strlit("HTTPRouteRequestMirror");
        assert("HTTPRouteQueryParamMatching"@.subrange(0, 9) =~= "HTTPRouteRequestMirror"@.subrange(0, 9));
        assert(less_at("HTTPRouteQueryParamMatching"@, "HTTPRouteRequestMirror"@, 9));
    }
    assert(text_less("HTTPRouteRequestMirror"@, "HTTPRouteRequestMultipleMirrors"@)) by {
        reveal_strlit("HTTPRouteRequestMirror");
        reveal_strlit("HTTPRouteRequestMultipleMirrors");
        assert("HTTPRouteRequestMirror"@.subrange(0, 17) =~= "HTTPRouteRequestMultipleMirrors"@.subrange(0, 17));
        assert(less_at("HTTPRouteRequestMirror"@, "HTTPRouteRequestMultipleMirrors"@, 17));
    }
}

proof fn lemma_names_d()
    ensures
        text_less("HTTPRouteRequestMultipleMirrors"@, "HTTPRouteRequestPercentageMirror"@),
        text_less("HTTPRouteRequestPercentageMirror"@, "HTTPRouteRequestTimeout"@),
        text_less("HTTPRouteRequestTimeout"@, "HTTPRouteResponseHeaderModification"@),
        text_less("HTTPRouteResponseHeaderModification"@, "HTTPRouteSchemeRedirect"@),
        text_less("HTTPRouteSchemeRedirect"@, "ListenerSet"@),
        text_less("ListenerSet"@, "ReferenceGrant"@),
        text_less("ReferenceGrant"@, "TCPRoute"@),
        text_less("TCPRoute"@, "TLSRoute"@),
        text_less("TLSRoute"@, "TLSRouteModeMixed"@),
        text_less("TLSRouteModeMixed"@, "TLSRouteModeTerminate"@),
        text_less("TLSRouteModeTerminate"@, "UDPRoute"@),
{
    assert(text_less("HTTPRouteRequestMultipleMirrors"@, "HTTPRouteRequestPercentageMirror"@)) by {
        reveal_strlit("HTTPRouteRequestMultipleMirrors");
        reveal_strlit("HTTPRouteRequestPercentageMirror");
        assert("HTTPRouteRequestMultipleMirrors"@.subrange(0, 16) =~= "HTTPRouteRequestPercentageMirror"@.subrange(0, 16));
        assert(less_at("HTTPRouteRequestMultipleMirrors"@, "HTTPRouteRequestPercentageMirror"@, 16));
    }
    assert(text_less("HTTPRouteRequestPercentageMirror"@, "HTTPRouteRequestTimeout"@)) by {
        reveal_strlit("HTTPRouteRequestPercentageMirror");
        reveal_strlit("HTTPRouteRequestTimeout");
        assert("HTTPRouteRequestPercentageMirror"@.subrange(0, 16) =~= "HTTPRouteRequestTimeout"@.subrange(0, 16));
        assert(less_at("HTTPRouteRequestPercentageMirror"@, "HTTPRouteRequestTimeout"@, 16));
    }
    assert(text_less("HTTPRouteRequestTimeout"@, "HTTPRouteResponseHeaderModification"@)) by {
        reveal_strlit("HTTPRouteRequestTimeout");
        reveal_strlit("HTTPRouteResponseHeaderModification");
        assert("HTTPRouteRequestTimeout"@.subrange(0, 11) =~= "HTTPRouteResponseHeaderModification"@.subrange(0, 11));
        assert(less_at("HTTPRouteRequestTimeout"@, "HTTPRouteResponseHeaderModification"@, 11));
    }
    assert(text_less("HTTPRouteResponseHeaderModification"@, "HTTPRouteSchemeRedirect"@)) by {
        reveal_strlit("HTTPRouteResponseHeaderModification");
        reveal_strlit("HTTPRouteSchemeRedirect");
        assert("HTTPRouteResponseHeaderModification"@.subrange(0, 9) =~= "HTTPRouteSchemeRedirect"@.subrange(0, 9));
        assert(less_at("HTTPRouteResponseHeaderModification"@, "HTTPRouteSchemeRedirect"@, 9));
    }
    assert(text_less("HTTPRouteSchemeRedirect"@, "ListenerSet"@)) by {
        reveal_strlit("HTTPRouteSchemeRedirect");
        reveal_strlit("ListenerSet");
        assert("HTTPRouteSchemeRedirect"@.subrange(0, 0) =~= "ListenerSet"@.subrange(0, 0));
        assert(less_at("HTTPRouteSchemeRedirect"@, "ListenerSet"@, 0));
    }
    assert(text_less("ListenerSet"@, "ReferenceGrant"@)) by {
        reveal_strlit("ListenerSet");
        reveal_strlit("ReferenceGrant");
        assert("ListenerSet"@.subrange(0, 0) =~= "ReferenceGrant"@.subrange(0, 0));
        assert(less_at("ListenerSet"@, "ReferenceGrant"@, 0));
    }
    assert(text_less("ReferenceGrant"@, "TCPRoute"@)) by {
        reveal_strlit("ReferenceGrant");
        reveal_strlit("TCPRoute");
        assert("ReferenceGrant"@.subrange(0, 0) =~= "TCPRoute"@.subrange(0, 0));
        assert(less_at("ReferenceGrant"@, "TCPRoute"@, 0));
    }
    assert(text_less("TCPRoute"@, "TLSRoute"@)) by {
        reveal_strlit("TCPRoute");
        reveal_strlit("TLSRoute");
        assert("TCPRoute"@.subrange(0, 1) =~= "TLSRoute"@.subrange(0, 1));
        assert(less_at("TCPRoute"@, "TLSRoute"@, 1));
    }
    assert(text_less("TLSRoute"@, "TLSRouteModeMixed"@)) by {
        reveal_strlit("TLSRoute");
        reveal_strlit("TLSRouteModeMixed");
        assert("TLSRoute"@.subrange(0, 8) =~= "TLSRouteModeMixed"@.subrange(0, 8));
        assert(less_at("TLSRoute"@, "TLSRouteModeMixed"@, 8));
    }
    assert(text_less("TLSRouteModeMixed"@, "TLSRouteModeTerminate"@)) by {
        reveal_strlit("TLSRouteModeMixed");
        reveal_strlit("TLSRouteModeTerminate");
        assert("TLSRouteModeMixed"@.subrange(0, 12) =~= "TLSRouteModeTerminate"@.subrange(0, 12));
        assert(less_at("TLSRouteModeMixed"@, "TLSRouteModeTerminate"@, 12));
    }
    assert(text_less("TLSRouteModeTerminate"@, "UDPRoute"@)) by {
        reveal_strlit("TLSRouteModeTerminate");
        reveal_strlit("UDPRoute");
        assert("TLSRouteModeTerminate"@.subrange(0, 0) =~= "UDPRoute"@.subrange(0, 0));
        assert(less_at("TLSRouteModeTerminate"@, "UDPRoute"@, 0));
    }
}

/// The names of all features, in order.
pub open spec fn feature_names() -> Seq<Seq<char>> {
    features().map_values(|f: FeatureView| f.name)
}

proof fn lemma_features_ascend()
    ensures
        ascending(feature_names()),
{
    lemma_names_a();
    lemma_names_b();
    lemma_names_c();
    lemma_names_d();
    let s = feature_names();
    assert(s.len() == 45);
    assert forall|i: int| 0 <= i < s.len() - 1 implies text_less(#[trigger] s[i], s[i + 1]) by {
        assert(s[0] == "BackendTLSPolicy"@);
        assert(s[1] == "BackendTLSPolicySANValidation"@);
        assert(s[2] == "GRPCRoute"@);
        assert(s[3] == "GRPCRouteNamedRouteRule"@);
        assert(s[4] == "Gateway"@);
        assert(s[5] == "GatewayAddressEmpty"@);
        assert(s[6] == "GatewayBackendClientCertificate"@);
        assert(s[7] == "GatewayFrontendClientCertificateValidation"@);
        assert(s[8] == "GatewayFrontendClientCertificateValidationInsecureFallback"@);
        assert(s[9] == "GatewayHTTPListenerIsolation"@);
        assert(s[10] == "GatewayHTTPSListenerDetectMisdirectedRequests"@);
        assert(s[11] == "GatewayInfrastructurePropagation"@);
        assert(s[12] == "GatewayPort8080"@);
        assert(s[13] == "GatewayStaticAddresses"@);
        assert(s[14] == "HTTPRoute"@);
        assert(s[15] == "HTTPRoute303RedirectStatusCode"@);
        assert(s[16] == "HTTPRoute307RedirectStatusCode"@);
        assert(s[17] == "HTTPRoute308RedirectStatusCode"@);
        assert(s[18] == "HTTPRouteBackendProtocolH2C"@);
        assert(s[19] == "HTTPRouteBackendProtocolWebSocket"@);
        assert(s[20] == "HTTPRouteBackendRequestHeaderModification"@);
        assert(s[21] == "HTTPRouteBackendTimeout"@);
        assert(s[22] == "HTTPRouteCORS"@);
        assert(s[23] == "HTTPRouteDestinationPortMatching"@);
        assert(s[24] == "HTTPRouteHostRewrite"@);
        assert(s[25] == "HTTPRouteMethodMatching"@);
        assert(s[26] == "HTTPRouteNamedRouteRule"@);
        assert(s[27] == "HTTPRouteParentRefPort"@);
        assert(s[28] == "HTTPRoutePathRedirect"@);
        assert(s[29] == "HTTPRoutePathRewrite"@);
        assert(s[30] == "HTTPRoutePortRedirect"@);
        assert(s[31] == "HTTPRouteQueryParamMatching"@);
        assert(s[32] == "HTTPRouteRequestMirror"@);
        assert(s[33] == "HTTPRouteRequestMultipleMirrors"@);
        assert(s[34] == "HTTPRouteRequestPercentageMirror"@);
        assert(s[35] == "HTTPRouteRequestTimeout"@);
        assert(s[36] == "HTTPRouteResponseHeaderModification"@);
        assert(s[37] == "HTTPRouteSchemeRedirect"@);
        assert(s[38] == "ListenerSet"@);
        assert(s[39] == "ReferenceGrant"@);
        assert(s[40] == "TCPRoute"@);
        assert(s[41] == "TLSRoute"@);
        assert(s[42] == "TLSRouteModeMixed"@);
        assert(s[43] == "TLSRouteModeTerminate"@);
        assert(s[44] == "UDPRoute"@);
    }
    lemma_neighbours(s);
}

proof fn lemma_filter_ascends(s: Seq<FeatureView>, p: spec_fn(FeatureView) -> bool)
    requires
        ascending(s.map_values(|f: FeatureView| f.name)),
    ensures
        ascending(s.filter(p).map_values(|f: FeatureView| f.name)),
        forall|i: int| 0 <= i < s.filter(p).len() ==> s.contains(#[trigger] s.filter(p)[i]),
    decreases s.len(),
{
    reveal_with_fuel(Seq::filter, 1);
    let g = |f: FeatureView| f.name;
    if s.len() > 0 {
        let d = s.drop_last();
        let sn = s.map_values(g);
        let dn = d.map_values(g);
        assert(forall|i: int| 0 <= i < d.len() ==> #[trigger] dn[i] == sn[i]);
        assert(ascending(dn));
        lemma_filter_ascends(d, p);
        let df = d.filter(p);
        let sf = s.filter(p);
        let r = sf.map_values(g);
        assert forall|i: int| 0 <= i < sf.len() implies s.contains(#[trigger] sf[i]) by {
            if i < df.len() {
                assert(sf[i] == df[i]);
                let k = choose|k: int| 0 <= k < d.len() && d[k] == df[i];
                assert(s[k] == sf[i]);
            } else {
                assert(s[s.len() - 1] == sf[i]);
            }
        }
        assert forall|i: int, j: int| 0 <= i < j < r.len() implies text_less(
            #[trigger] r[i],
            #[trigger] r[j],
        ) by {
            if j < df.len() {
                assert(df.map_values(g)[i] == r[i]);
                assert(df.map_values(g)[j] == r[j]);
            } else {
                assert(d.contains(df[i]));
                let k = choose|k: int| 0 <= k < d.len() && d[k] == df[i];
                assert(sn[k] == r[i]);
                assert(sn[s.len() - 1] == r[j]);
            }
        }
    }
}

/// Whatever the cluster can express, the advertised names stand in strictly ascending order.
pub proof fn advertised_names_ascend(caps: GatewayApiCapabilities)
    ensures
        ascending(advertised(caps)),
{
    lemma_features_ascend();
    lemma_filter_ascends(features(), |f: FeatureView| caps.meets(f.needs));
}

/// A feature is advertised exactly where the cluster meets what it needs.
pub proof fn advertised_exactly_what_is_met(caps: GatewayApiCapabilities, i: int)
    requires
        0 <= i < features().len(),
    ensures
        advertised(caps).contains(features()[i].name) <==> caps.meets(features()[i].needs),
{
    let p = |f: FeatureView| caps.meets(f.needs);
    let g = |f: FeatureView| f.name;
    let f = features();
    let kept = f.filter(p);
    let a = advertised(caps);
    if p(f[i]) {
        f.lemma_filter_contains(p, i);
        let k = choose|k: int| 0 <= k < kept.len() && kept[k] == f[i];
        assert(a[k] == f[i].name);
    }
    if a.contains(f[i].name) {
        let k = choose|k: int| 0 <= k < a.len() && a[k] == f[i].name;
        assert(kept[k].name == f[i].name);
        f.lemma_filter_pred(p, k);
        lemma_features_ascend();
        lemma_filter_ascends(f, p);
        assert(f.contains(kept[k]));
        let m = choose|m: int| 0 <= m < f.len() && f[m] == kept[k];
        let n = feature_names();
        assert(n[m] == n[i]);
        if m != i {
            lemma_not_less_than_itself(n[i]);
            if m < i {
                assert(text_less(n[m], n[i]));
            } else {
                assert(text_less(n[i], n[m]));
            }
        }
    }
}

proof fn lemma_not_less_than_itself(a: Seq<char>)
    ensures
        !text_less(a, a),
{
    if text_less(a, a) {
        let i = choose|i: int| #[trigger] less_at(a, a, i);
    }
}

/// Once the patch has been applied there is nothing left to patch.
pub proof fn gateway_class_patch_settles(
    gc: GatewayClass,
    now: Seq<char>,
    caps: GatewayApiCapabilities,
)
    requires
        gc.conds() == seq![class_condition(gc.metadata.gen(), now)],
        stores_features(caps) ==> gc.named_features() == advertised(caps),
    ensures
        class_current(gc, caps),
{
    assert(gc.conds()[0].status == "True"@);
}

} // verus!
