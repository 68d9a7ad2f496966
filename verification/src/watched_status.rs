//! The configuration of the watching controller, and the statuses that it writes.

use vstd::prelude::*;

use crate::conditions::{
    condition, conds, has_condition_at_gen, make_condition, true_at, Condition, ConditionView,
    GW_GROUP,
};
use crate::config::{
    blank, read_status_address, reads_as, show, shown, AddressText, IngressPorts, LeaseSettings,
    Period, StatusAddress,
};
use crate::gateway_status::{
    find_listener, first_named, gateway_patch_json, GatewayPatchView, GatewayStatusPatch,
};
use crate::ingress_status::{entry_json, ingress_patch, Ingress};
use crate::json::Json;
use crate::resources::{
    address_views, kinds, listener_views, AddressView, Gateway, GatewayAddress, Listener,
    ListenerStatus, ListenerStatusView, RouteKind, RouteKindView,
};
use crate::table::Table;
use crate::text::{cat, opt_is, opt_text, str_eq};
use crate::write::{opt_write, write_status, write_to, StatusWrite, WriteView};

verus! {

/// Configuration of the watching controller.
#[derive(Debug, Clone, PartialEq, Eq)]
pub struct ControllerConfig {
    /// The controller name that this instance claims.
    pub controller_name: String,
    /// Pod name, the identity of the lease holder.
    pub pod_name: String,
    /// Namespace of the leader lease.
    pub pod_namespace: String,
    /// How long the lease stays valid without renewal.
    pub lease_ttl: Period,
    /// How often the lease is renewed.
    pub lease_renew_interval: Period,
    /// The namespace that watches are limited to; the whole cluster where there is none.
    pub watch_namespace: Option<String>,
    /// The address written to the status of owned Ingresses and Gateways.
    pub status_address: Option<StatusAddress>,
}

/// What is said of a lease that is renewed too slowly.
pub open spec fn slow_renewal(renew: Period, ttl: Period) -> Seq<char> {
    "lease_renew_interval ("@ + shown(renew) + ") must be at most 1/3 of lease_ttl ("@ + shown(ttl)
        + ")"@
}

impl ControllerConfig {
    /// Check the settings and put them together.
    ///
    /// The renewal interval may be at most a third of the lease's lifetime; that is looked at
    /// first. A status address, where one is given, must hold more than white space.
    pub fn new(
        controller_name: String,
        pod_name: String,
        pod_namespace: String,
        lease_ttl: Period,
        lease_renew_interval: Period,
        watch_namespace: Option<String>,
        status_address: Option<AddressText>,
    ) -> (r: Result<Self, String>)
        requires
            (LeaseSettings { ttl: lease_ttl, renew_interval: lease_renew_interval }).valid(),
        ensures
            match r {
                Err(e) => if lease_renew_interval.nanos * 3 > lease_ttl.nanos {
                    e@ == slow_renewal(lease_renew_interval, lease_ttl)
                } else {
                    &&& status_address is Some
                    &&& blank(status_address->0)
                    &&& e@ == "status_address must not be empty"@
                },
                Ok(c) => {
                    &&& lease_renew_interval.nanos * 3 <= lease_ttl.nanos
                    &&& c.controller_name == controller_name
                    &&& c.pod_name == pod_name
                    &&& c.pod_namespace == pod_namespace
                    &&& c.lease_ttl == lease_ttl
                    &&& c.lease_renew_interval == lease_renew_interval
                    &&& c.watch_namespace == watch_namespace
                    &&& match status_address {
                        Some(t) => !blank(t) && c.status_address is Some && reads_as(
                            t,
                            c.status_address->0,
                        ),
                        None => c.status_address is None,
                    }
                },
            },
    {
        if lease_renew_interval.nanos * 3 > lease_ttl.nanos {
            let mut s = cat("lease_renew_interval (", show(lease_renew_interval).as_str());
            s.append(") must be at most 1/3 of lease_ttl (");
            s.append(show(lease_ttl).as_str());
            s.append(")");
            return Err(s);
        }
        let address = match status_address {
            Some(t) => match read_status_address(t) {
                Some(a) => Some(a),
                None => {
                    return Err("status_address must not be empty".to_owned());
                },
            },
            None => None,
        };
        Ok(
            ControllerConfig {
                controller_name,
                pod_name,
                pod_namespace,
                lease_ttl,
                lease_renew_interval,
                watch_namespace,
                status_address: address,
            },
        )
    }
}

/// The first entry already publishes the address.
pub open spec fn address_current(ing: Ingress, addr: StatusAddress) -> bool {
    &&& ing.load_balancer is Some
    &&& ing.load_balancer->0@.len() > 0
    &&& match addr {
        StatusAddress::Ip(ip) => opt_text(ing.load_balancer->0@[0].ip) == Some(ip@),
        StatusAddress::Hostname(h) => opt_text(ing.load_balancer->0@[0].hostname) == Some(h@),
    }
}

/// Whether the first entry already publishes the address.
pub fn ingress_lb_already_matches(ingress: &Ingress, addr: &StatusAddress) -> (r: bool)
    ensures
        r == address_current(*ingress, *addr),
{
    match &ingress.load_balancer {
        Some(entries) => {
            if entries.len() == 0 {
                return false;
            }
            match addr {
                StatusAddress::Ip(ip) => opt_is(&entries[0].ip, ip.as_str()),
                StatusAddress::Hostname(h) => opt_is(&entries[0].hostname, h.as_str()),
            }
        },
        None => false,
    }
}

/// No ports at all.
pub open spec fn no_ports() -> IngressPorts {
    IngressPorts { http: None, https: None }
}

/// The patch that publishes the address, without ports.
pub fn build_ingress_status_patch(addr: &StatusAddress) -> (r: Json)
    ensures
        r@ == ingress_patch(entry_json(*addr, no_ports())),
{
    crate::ingress_status::build_ingress_status_patch(addr, IngressPorts::new(None, None))
}

/// Some condition of type `t` is `True`, whenever it was observed.
pub open spec fn is_true(c: Seq<ConditionView>, t: Seq<char>) -> bool {
    exists|i: int| 0 <= i < c.len() && (#[trigger] c[i]).type_ == t && c[i].status == "True"@
}

/// Whether a condition of the type is `True`, whenever it was observed.
pub fn has_condition(conditions: Option<&[Condition]>, type_: &str) -> (r: bool)
    ensures
        r == match conditions {
            Some(c) => is_true(conds(c@), type_@),
            None => false,
        },
{
    proof {
        if let Some(c) = conditions {
            assert(true_at(conds(c@), type_@, i64::MIN as int) == is_true(conds(c@), type_@));
        }
    }
    has_condition_at_gen(conditions, type_, i64::MIN)
}

/// How the TLS settings of a listener came out.
#[derive(Debug, Clone, Default, PartialEq, Eq)]
pub struct ListenerTlsOutcome {
    /// Whether the listener can serve.
    pub healthy: bool,
    /// Why not.
    pub reason: String,
    /// In words.
    pub message: String,
}

/// How the listeners of a Gateway are doing.
pub struct GatewayListenerHealth {
    /// By name of the listener; one that is not listed is healthy.
    pub by_listener: Table<String, ListenerTlsOutcome>,
    /// Attached routes by name of the listener; none for one that is not listed.
    pub attached_routes: Table<String, i32>,
}

impl GatewayListenerHealth {
    /// Nothing is known.
    pub fn unknown() -> (r: Self)
        ensures
            r.by_listener@ == Map::<Seq<char>, ListenerTlsOutcome>::empty(),
            r.attached_routes@ == Map::<Seq<char>, i32>::empty(),
    {
        GatewayListenerHealth { by_listener: Table::new(), attached_routes: Table::new() }
    }
}

/// The outcome of the listener, where there is one.
pub open spec fn outcome_of(
    m: Map<Seq<char>, ListenerTlsOutcome>,
    name: Seq<char>,
) -> Option<ListenerTlsOutcome> {
    if m.contains_key(name) {
        Some(m[name])
    } else {
        None
    }
}

/// The listener can serve; one without an outcome can.
pub open spec fn serves(o: Option<ListenerTlsOutcome>) -> bool {
    o matches Some(x) ==> x.healthy
}

/// How many routes are attached to the listener.
pub open spec fn routes_on(m: Map<Seq<char>, i32>, name: Seq<char>) -> i32 {
    if m.contains_key(name) {
        m[name]
    } else {
        0
    }
}

/// The kind is `HTTPRoute` of the Gateway API.
pub open spec fn is_http(k: RouteKindView) -> bool {
    k.kind == "HTTPRoute"@ && match k.group {
        Some(g) => g.len() == 0 || g == GW_GROUP@,
        None => true,
    }
}

/// `HTTPRoute`.
pub open spec fn http_kind() -> RouteKindView {
    RouteKindView { group: Some(GW_GROUP@), kind: "HTTPRoute"@ }
}

/// The kinds that the listener lists; none where it lists none.
pub open spec fn listed_kinds(l: Listener) -> Seq<RouteKindView> {
    match l.allowed_kinds {
        Some(k) => kinds(k@),
        None => Seq::empty(),
    }
}

/// Some listed kind is not `HTTPRoute`.
pub open spec fn lists_foreign_kind(l: Listener) -> bool {
    exists|i: int| 0 <= i < listed_kinds(l).len() && !is_http(#[trigger] listed_kinds(l)[i])
}

/// Some listed kind is `HTTPRoute`, or none is listed.
pub open spec fn carries_http(l: Listener) -> bool {
    listed_kinds(l).len() == 0 || exists|i: int|
        0 <= i < listed_kinds(l).len() && is_http(#[trigger] listed_kinds(l)[i])
}

/// The listed kinds that are supported.
pub open spec fn carried_kinds(l: Listener) -> Seq<RouteKindView> {
    if carries_http(l) {
        seq![http_kind()]
    } else {
        Seq::empty()
    }
}

fn check_http(k: &RouteKind) -> (r: bool)
    ensures
        r == is_http(k@),
{
    str_eq(k.kind.as_str(), "HTTPRoute") && match &k.group {
        Some(g) => g.as_str().is_empty() || str_eq(g.as_str(), GW_GROUP),
        None => true,
    }
}

/// Whether the listener lists a kind that is not supported, and the listed kinds that are.
pub fn listener_route_kind_info(listener: &Listener) -> (r: (bool, Vec<RouteKind>))
    ensures
        r.0 == lists_foreign_kind(*listener),
        kinds(r.1@) == carried_kinds(*listener),
{
    let none: Vec<RouteKind> = Vec::new();
    let allowed: &Vec<RouteKind> = match &listener.allowed_kinds {
        Some(k) => k,
        None => &none,
    };
    let ghost listed = listed_kinds(*listener);
    assert(kinds(allowed@) =~= listed);
    let mut has_invalid = false;
    let mut includes_http_route = allowed.len() == 0;
    let mut i: usize = 0;
    while i < allowed.len()
        invariant
            i <= allowed.len(),
            listed == kinds(allowed@),
            has_invalid == exists|j: int| 0 <= j < i && !is_http(#[trigger] listed[j]),
            includes_http_route == (listed.len() == 0 || exists|j: int|
                0 <= j < i && is_http(#[trigger] listed[j])),
        decreases allowed.len() - i,
    {
        assert(listed[i as int] == allowed@[i as int]@);
        if check_http(&allowed[i]) {
            includes_http_route = true;
        } else {
            has_invalid = true;
        }
        i = i + 1;
    }
    let mut supported: Vec<RouteKind> = Vec::new();
    if includes_http_route {
        supported.push(
            RouteKind { group: Some(GW_GROUP.to_owned()), kind: "HTTPRoute".to_owned() },
        );
    }
    assert(kinds(supported@) =~= carried_kinds(*listener));
    (has_invalid, supported)
}

/// The reported status of the listener agrees with its health.
pub open spec fn listener_settled(
    statuses: Seq<ListenerStatusView>,
    l: Listener,
    health: GatewayListenerHealth,
) -> bool {
    let entry = first_named(statuses, l.name@);
    let resolved = entry matches Some(e) && is_true(e.conditions, "ResolvedRefs"@);
    let attached = match entry {
        Some(e) => e.attached_routes,
        None => 0,
    };
    &&& resolved == (!lists_foreign_kind(l) && serves(outcome_of(health.by_listener@, l.name@)))
    &&& attached == routes_on(health.attached_routes@, l.name@)
}

/// The status of the Gateway agrees with the health of its listeners.
pub open spec fn gateway_settled(gw: Gateway, health: GatewayListenerHealth) -> bool {
    &&& is_true(gw.conds(), "Accepted"@)
    &&& is_true(gw.conds(), "Programmed"@)
    &&& gw.listener_statuses().len() == gw.spec.listeners@.len()
    &&& forall|i: int|
        0 <= i < gw.spec.listeners@.len() ==> listener_settled(
            gw.listener_statuses(),
            #[trigger] gw.spec.listeners@[i],
            health,
        )
}

fn check_settled(
    statuses: &[ListenerStatus],
    l: &Listener,
    health: &GatewayListenerHealth,
) -> (r: bool)
    ensures
        r == listener_settled(listener_views(statuses@), *l, *health),
{
    let kind_info = listener_route_kind_info(l);
    let healthy = match health.by_listener.get(&l.name) {
        Some(o) => o.healthy,
        None => true,
    };
    let desired_attached: i32 = match health.attached_routes.get(&l.name) {
        Some(n) => *n,
        None => 0,
    };
    let entry = find_listener(statuses, l.name.as_str());
    let resolved = match entry {
        Some(e) => has_condition(Some(e.conditions.as_slice()), "ResolvedRefs"),
        None => false,
    };
    let attached: i32 = match entry {
        Some(e) => e.attached_routes,
        None => 0,
    };
    resolved == (!kind_info.0 && healthy) && attached == desired_attached
}

/// Whether the Gateway is accepted, whenever that was observed.
pub fn gateway_accepted(gw: &Gateway) -> (r: bool)
    ensures
        r == is_true(gw.conds(), "Accepted"@),
{
    has_condition(gw.status_conditions(), "Accepted")
}

/// Whether the Gateway is programmed, whenever that was observed.
pub fn gateway_programmed(gw: &Gateway) -> (r: bool)
    ensures
        r == is_true(gw.conds(), "Programmed"@),
{
    has_condition(gw.status_conditions(), "Programmed")
}

/// Whether the status of the Gateway does not agree with the health of its listeners.
pub fn gateway_needs_status_patch(gw: &Gateway, health: &GatewayListenerHealth) -> (r: bool)
    ensures
        r == !gateway_settled(*gw, *health),
{
    if !gateway_accepted(gw) || !gateway_programmed(gw) {
        return true;
    }
    let none: Vec<ListenerStatus> = Vec::new();
    let current: &Vec<ListenerStatus> = match &gw.status {
        Some(s) => match &s.listeners {
            Some(l) => l,
            None => &none,
        },
        None => &none,
    };
    assert(listener_views(current@) =~= gw.listener_statuses());
    if current.len() != gw.spec.listeners.len() {
        return true;
    }
    let mut i: usize = 0;
    while i < gw.spec.listeners.len()
        invariant
            i <= gw.spec.listeners.len(),
            listener_views(current@) == gw.listener_statuses(),
            forall|j: int|
                0 <= j < i ==> listener_settled(
                    gw.listener_statuses(),
                    #[trigger] gw.spec.listeners@[j],
                    *health,
                ),
        decreases gw.spec.listeners.len() - i,
    {
        if !check_settled(current.as_slice(), &gw.spec.listeners[i], health) {
            assert(!listener_settled(
                gw.listener_statuses(),
                gw.spec.listeners@[i as int],
                *health,
            ));
            return true;
        }
        i = i + 1;
    }
    false
}

/// What is said of a listener's references: status, reason and message.
pub open spec fn refs_verdict(l: Listener, o: Option<ListenerTlsOutcome>) -> (
    Seq<char>,
    Seq<char>,
    Seq<char>,
) {
    if lists_foreign_kind(l) {
        (
            "False"@,
            "InvalidRouteKinds"@,
            "One or more specified route kinds are not supported by this implementation"@,
        )
    } else {
        match o {
            Some(x) => if x.healthy {
                ("True"@, "ResolvedRefs"@, ""@)
            } else {
                ("False"@, x.reason@, x.message@)
            },
            None => ("True"@, "ResolvedRefs"@, ""@),
        }
    }
}

/// What is said of a listener's service: status, reason and message.
pub open spec fn service_verdict(o: Option<ListenerTlsOutcome>) -> (
    Seq<char>,
    Seq<char>,
    Seq<char>,
) {
    match o {
        Some(x) => if x.healthy {
            ("True"@, "Programmed"@, ""@)
        } else {
            ("False"@, x.reason@, x.message@)
        },
        None => ("True"@, "Programmed"@, ""@),
    }
}

/// The status that a listener should have.
pub open spec fn listener_report(
    l: Listener,
    health: GatewayListenerHealth,
    generation: i64,
    now: Seq<char>,
) -> ListenerStatusView {
    let o = outcome_of(health.by_listener@, l.name@);
    let refs = refs_verdict(l, o);
    let service = service_verdict(o);
    ListenerStatusView {
        name: l.name@,
        attached_routes: routes_on(health.attached_routes@, l.name@),
        supported_kinds: Some(carried_kinds(l)),
        conditions: seq![
            condition("Accepted"@, "True"@, "Accepted"@, ""@, generation, now),
            condition("ResolvedRefs"@, refs.0, refs.1, refs.2, generation, now),
            condition("Programmed"@, service.0, service.1, service.2, generation, now),
        ],
    }
}

/// The conditions that a Gateway should have.
pub open spec fn gateway_report(generation: i64, now: Seq<char>) -> Seq<ConditionView> {
    seq![
        condition("Accepted"@, "True"@, "Accepted"@, ""@, generation, now),
        condition("Programmed"@, "True"@, "Programmed"@, ""@, generation, now),
    ]
}

/// The status that a Gateway should have.
pub open spec fn gateway_status_report(
    gw: Gateway,
    health: GatewayListenerHealth,
    generation: i64,
    now: Seq<char>,
    addr: Option<StatusAddress>,
) -> GatewayPatchView {
    GatewayPatchView {
        conditions: gateway_report(generation, now),
        listeners: Seq::new(
            gw.spec.listeners@.len(),
            |i: int| listener_report(gw.spec.listeners@[i], health, generation, now),
        ),
        attached_listener_sets: None,
        addresses: match addr {
            Some(a) => Some(seq![AddressView { type_: Some(a.tag()), value: a.value() }]),
            None => None,
        },
    }
}

fn report_listener(
    l: &Listener,
    health: &GatewayListenerHealth,
    generation: i64,
    now: &str,
) -> (r: ListenerStatus)
    ensures
        r@ == listener_report(*l, *health, generation, now@),
{
    let outcome = health.by_listener.get(&l.name);
    let kind_info = listener_route_kind_info(l);
    let service: (&str, &str, &str) = match outcome {
        Some(o) => if o.healthy {
            ("True", "Programmed", "")
        } else {
            ("False", o.reason.as_str(), o.message.as_str())
        },
        None => ("True", "Programmed", ""),
    };
    let refs: (&str, &str, &str) = if kind_info.0 {
        (
            "False",
            "InvalidRouteKinds",
            "One or more specified route kinds are not supported by this implementation",
        )
    } else {
        match outcome {
            Some(o) => if o.healthy {
                ("True", "ResolvedRefs", "")
            } else {
                ("False", o.reason.as_str(), o.message.as_str())
            },
            None => ("True", "ResolvedRefs", ""),
        }
    };
    let attached: i32 = match health.attached_routes.get(&l.name) {
        Some(n) => *n,
        None => 0,
    };
    let mut c: Vec<Condition> = Vec::new();
    c.push(make_condition("Accepted", "True", "Accepted", "", generation, now));
    c.push(make_condition("ResolvedRefs", refs.0, refs.1, refs.2, generation, now));
    c.push(make_condition("Programmed", service.0, service.1, service.2, generation, now));
    let r = ListenerStatus {
        name: l.name.clone(),
        attached_routes: attached,
        supported_kinds: Some(kind_info.1),
        conditions: c,
    };
    assert(r@ =~= listener_report(*l, *health, generation, now@));
    r
}

/// The patch that brings the status of a Gateway to what it should be.
pub fn build_gateway_status_patch(
    gw: &Gateway,
    health: &GatewayListenerHealth,
    generation: i64,
    now: &str,
    addr: Option<&StatusAddress>,
) -> (r: Json)
    ensures
        r@ == gateway_patch_json(
            gateway_status_report(
                *gw,
                *health,
                generation,
                now@,
                match addr {
                    Some(a) => Some(*a),
                    None => None,
                },
            ),
        ),
{
    let ghost address = match addr {
        Some(a) => Some(*a),
        None => None,
    };
    let ghost want = gateway_status_report(*gw, *health, generation, now@, address);
    let mut listeners: Vec<ListenerStatus> = Vec::new();
    let mut i: usize = 0;
    while i < gw.spec.listeners.len()
        invariant
            i <= gw.spec.listeners.len(),
            listeners.len() == i,
            want == gateway_status_report(*gw, *health, generation, now@, address),
            forall|j: int| 0 <= j < i ==> (#[trigger] listeners@[j])@ == want.listeners[j],
        decreases gw.spec.listeners.len() - i,
    {
        listeners.push(report_listener(&gw.spec.listeners[i], health, generation, now));
        i = i + 1;
    }
    let mut c: Vec<Condition> = Vec::new();
    c.push(make_condition("Accepted", "True", "Accepted", "", generation, now));
    c.push(make_condition("Programmed", "True", "Programmed", "", generation, now));
    let addresses: Option<Vec<GatewayAddress>> = match addr {
        Some(a) => {
            let mut v: Vec<GatewayAddress> = Vec::new();
            v.push(
                GatewayAddress {
                    type_: Some(a.type_tag().to_owned()),
                    value: a.text().to_owned(),
                },
            );
            assert(address_views(v@) =~= want.addresses->0);
            Some(v)
        },
        None => None,
    };
    let patch = GatewayStatusPatch {
        conditions: c,
        listeners,
        attached_listener_sets: None,
        addresses,
    };
    assert(patch@ =~= want);
    patch.to_json()
}

/// The write of a Gateway's status; none for one without a name.
pub open spec fn gateway_write(
    gw: Gateway,
    health: GatewayListenerHealth,
    now: Seq<char>,
    addr: Option<StatusAddress>,
) -> Option<WriteView> {
    if gw.metadata.name is None {
        None
    } else {
        Some(
            write_to(
                gw.metadata,
                gateway_patch_json(
                    gateway_status_report(gw, health, gw.metadata.gen(), now, addr),
                ),
            ),
        )
    }
}

/// The write of a Gateway's status.
pub fn patch_gateway_status(
    gw: &Gateway,
    health: &GatewayListenerHealth,
    now: &str,
    addr: &Option<StatusAddress>,
) -> (r: Option<StatusWrite>)
    ensures
        opt_write(r) == gateway_write(*gw, *health, now@, *addr),
{
    if gw.metadata.name.is_none() {
        return None;
    }
    let a: Option<&StatusAddress> = match addr {
        Some(x) => Some(x),
        None => None,
    };
    let patch = build_gateway_status_patch(
        gw,
        health,
        gw.metadata.generation_or_zero(),
        now,
        a,
    );
    Some(write_status(&gw.metadata, patch))
}

/// The write of an Ingress's status; none for one without a name.
pub open spec fn ingress_write(ing: Ingress, addr: StatusAddress) -> Option<WriteView> {
    if ing.metadata.name is None {
        None
    } else {
        Some(write_to(ing.metadata, ingress_patch(entry_json(addr, no_ports()))))
    }
}

/// The write of an Ingress's status.
pub fn patch_ingress_status(ing: &Ingress, addr: &StatusAddress) -> (r: Option<StatusWrite>)
    ensures
        opt_write(r) == ingress_write(*ing, *addr),
{
    if ing.metadata.name.is_none() {
        return None;
    }
    Some(write_status(&ing.metadata, build_ingress_status_patch(addr)))
}

/// No two listeners of the Gateway have the same name.
pub open spec fn listener_names_apart(gw: Gateway) -> bool {
    forall|i: int, j: int|
        0 <= i < j < gw.spec.listeners@.len() ==> (#[trigger] gw.spec.listeners@[i]).name@ != (
        #[trigger] gw.spec.listeners@[j]).name@
}

/// Once the status of a Gateway has been written, it needs no patch, provided that no two of its
/// listeners have the same name.
pub proof fn watched_gateway_patch_settles(
    gw: Gateway,
    health: GatewayListenerHealth,
    generation: i64,
    now: Seq<char>,
    addr: Option<StatusAddress>,
)
    requires
        listener_names_apart(gw),
        gw.conds() == gateway_status_report(gw, health, generation, now, addr).conditions,
        gw.listener_statuses() == gateway_status_report(
            gw,
            health,
            generation,
            now,
            addr,
        ).listeners,
    ensures
        gateway_settled(gw, health),
{
    assert(gw.conds()[0].type_ == "Accepted"@);
    assert(gw.conds()[1].type_ == "Programmed"@);
    let s = gw.listener_statuses();
    reveal_strlit("Accepted");
    reveal_strlit("ResolvedRefs");
    reveal_strlit("Programmed");
    reveal_strlit("True");
    reveal_strlit("False");
    assert("Accepted"@.len() == 8 && "ResolvedRefs"@.len() == 12 && "Programmed"@.len() == 10);
    assert("True"@.len() == 4 && "False"@.len() == 5);
    assert forall|i: int| 0 <= i < gw.spec.listeners@.len() implies listener_settled(
        s,
        #[trigger] gw.spec.listeners@[i],
        health,
    ) by {
        let l = gw.spec.listeners@[i];
        assert forall|j: int| 0 <= j < i implies (#[trigger] s[j]).name != l.name@ by {
            assert(s[j].name == gw.spec.listeners@[j].name@);
        }
        crate::gateway_status::lemma_first_named(s, l.name@, i);
        let c = s[i].conditions;
        assert(c[1].type_ == "ResolvedRefs"@);
        assert(c[0].type_ != "ResolvedRefs"@);
        assert(c[2].type_ != "ResolvedRefs"@);
        assert(c.len() == 3);
        assert(is_true(c, "ResolvedRefs"@) == (c[1].status == "True"@));
    }
}

} // verus!
