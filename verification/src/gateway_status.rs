//! The status of a shared Gateway: what it should be, whether it already is, and the patch.

use vstd::prelude::*;

use crate::conditions::{
    any_condition_stale, condition, conditions_json, conditions_to_json, conds, find_condition,
    first_of, has_condition, make_condition, stale, true_at, Condition, ConditionView,
};
use crate::config::StatusAddress;
use crate::json::{arr, items, number, text, Json, JsonView, Object};
use crate::listener_status::{
    accepted, attached_sets, count_attached_sets, gateway_listener, listener_is_accepted, lookup,
    GatewayListenerStatus, ListenerInfo,
};
use crate::resources::{
    address_views, kinds, listener_views, AddressView, Gateway, GatewayAddress, Listener,
    ListenerStatus, ListenerStatusView, RouteKind, RouteKindView,
};
use crate::text::{has_prefix, starts_with, str_eq};

verus! {

/// Conditions whose type starts so belong to the provisioning operator.
pub const OPERATOR_PREFIX: &'static str = "gateway.coxswain-labs.dev/";

/// The message of the condition that reports insecure client-certificate checks.
pub const INSECURE_MESSAGE: &'static str =
    "Gateway spec.tls.frontend.default.validation.mode is AllowInsecureFallback; client certificates are requested but not enforced. Authorization is delegated to backends.";

/// Reasons of the conditions of a Gateway.
#[derive(Debug, Clone, Copy, PartialEq, Eq, Structural)]
pub enum GatewayConditionReason {
    /// The data plane serves the Gateway.
    Programmed,
    /// The spec cannot be served.
    Invalid,
    /// There are not enough resources.
    NoResources,
    /// No address was assigned.
    AddressNotAssigned,
    /// A requested address cannot be used.
    AddressNotUsable,
    /// The Gateway is accepted.
    Accepted,
    /// Some listener is not accepted.
    ListenersNotValid,
    /// The outcome is still open.
    Pending,
    /// A requested address has a type that is not supported.
    UnsupportedAddress,
    /// The parameters reference is not supported.
    InvalidParameters,
    /// The Gateway is ready.
    Ready,
    /// Some listener is not ready.
    ListenersNotReady,
    /// The configuration changed.
    ConfigurationChanged,
}

impl GatewayConditionReason {
    /// The reason as it is written in a condition.
    pub open spec fn text(self) -> Seq<char> {
        match self {
            GatewayConditionReason::Programmed => "Programmed"@,
            GatewayConditionReason::Invalid => "Invalid"@,
            GatewayConditionReason::NoResources => "NoResources"@,
            GatewayConditionReason::AddressNotAssigned => "AddressNotAssigned"@,
            GatewayConditionReason::AddressNotUsable => "AddressNotUsable"@,
            GatewayConditionReason::Accepted => "Accepted"@,
            GatewayConditionReason::ListenersNotValid => "ListenersNotValid"@,
            GatewayConditionReason::Pending => "Pending"@,
            GatewayConditionReason::UnsupportedAddress => "UnsupportedAddress"@,
            GatewayConditionReason::InvalidParameters => "InvalidParameters"@,
            GatewayConditionReason::Ready => "Ready"@,
            GatewayConditionReason::ListenersNotReady => "ListenersNotReady"@,
            GatewayConditionReason::ConfigurationChanged => "ConfigurationChanged"@,
        }
    }

    /// The reason as it is written in a condition.
    pub fn as_str(self) -> (r: &'static str)
        ensures
            r@ == self.text(),
    {
        match self {
            GatewayConditionReason::Programmed => "Programmed",
            GatewayConditionReason::Invalid => "Invalid",
            GatewayConditionReason::NoResources => "NoResources",
            GatewayConditionReason::AddressNotAssigned => "AddressNotAssigned",
            GatewayConditionReason::AddressNotUsable => "AddressNotUsable",
            GatewayConditionReason::Accepted => "Accepted",
            GatewayConditionReason::ListenersNotValid => "ListenersNotValid",
            GatewayConditionReason::Pending => "Pending",
            GatewayConditionReason::UnsupportedAddress => "UnsupportedAddress",
            GatewayConditionReason::InvalidParameters => "InvalidParameters",
            GatewayConditionReason::Ready => "Ready",
            GatewayConditionReason::ListenersNotReady => "ListenersNotReady",
            GatewayConditionReason::ConfigurationChanged => "ConfigurationChanged",
        }
    }
}

/// The message that goes with a reason; empty where all is well.
pub open spec fn reason_message(reason: GatewayConditionReason) -> Seq<char> {
    match reason {
        GatewayConditionReason::InvalidParameters =>
            "spec.infrastructure.parametersRef targets a kind this implementation does not support"@,
        GatewayConditionReason::ListenersNotValid =>
            "one or more listeners are not accepted; see the per-listener conditions"@,
        GatewayConditionReason::UnsupportedAddress =>
            "spec.addresses contains an address type this implementation does not support"@,
        GatewayConditionReason::AddressNotUsable =>
            "one or more requested spec.addresses could not be assigned to the Gateway"@,
        GatewayConditionReason::Invalid =>
            "Gateway spec is invalid; see the Accepted condition for details"@,
        _ => ""@,
    }
}

/// The message that goes with a reason; empty where all is well.
pub fn static_address_message(reason: GatewayConditionReason) -> (r: &'static str)
    ensures
        r@ == reason_message(reason),
{
    match reason {
        GatewayConditionReason::InvalidParameters =>
            "spec.infrastructure.parametersRef targets a kind this implementation does not support",
        GatewayConditionReason::ListenersNotValid =>
            "one or more listeners are not accepted; see the per-listener conditions",
        GatewayConditionReason::UnsupportedAddress =>
            "spec.addresses contains an address type this implementation does not support",
        GatewayConditionReason::AddressNotUsable =>
            "one or more requested spec.addresses could not be assigned to the Gateway",
        GatewayConditionReason::Invalid =>
            "Gateway spec is invalid; see the Accepted condition for details",
        _ => "",
    }
}

/// The address types that can be requested and published.
#[derive(Debug, Clone, Copy, PartialEq, Eq, Structural)]
pub enum SupportedAddressType {
    /// An IP address.
    IpAddress,
    /// A DNS name.
    Hostname,
}

impl SupportedAddressType {
    /// The type tag.
    pub open spec fn tag(self) -> Seq<char> {
        match self {
            SupportedAddressType::IpAddress => "IPAddress"@,
            SupportedAddressType::Hostname => "Hostname"@,
        }
    }

    /// The type tag.
    pub fn as_str(self) -> (r: &'static str)
        ensures
            r@ == self.tag(),
    {
        match self {
            SupportedAddressType::IpAddress => "IPAddress",
            SupportedAddressType::Hostname => "Hostname",
        }
    }
}

/// An address with its type.
#[derive(Debug, Clone, PartialEq, Eq)]
pub struct TypedAddress {
    /// Type.
    pub type_: SupportedAddressType,
    /// The address.
    pub value: String,
}

/// Type tag and value of an address.
pub open spec fn typed_pair(a: TypedAddress) -> (Seq<char>, Seq<char>) {
    (a.type_.tag(), a.value@)
}

/// Type tags and values of a list of addresses.
pub open spec fn typed_pairs(v: Seq<TypedAddress>) -> Seq<(Seq<char>, Seq<char>)> {
    Seq::new(v.len(), |i: int| typed_pair(v[i]))
}

/// Type tag and value of a published address; the tag is empty where there is none.
pub open spec fn address_pair(a: AddressView) -> (Seq<char>, Seq<char>) {
    (
        match a.type_ {
            Some(t) => t,
            None => ""@,
        },
        a.value,
    )
}

/// Type tags and values of the published addresses.
pub open spec fn address_pairs(v: Seq<AddressView>) -> Seq<(Seq<char>, Seq<char>)> {
    Seq::new(v.len(), |i: int| address_pair(v[i]))
}

/// The outcome of checking the addresses that a Gateway requests.
#[derive(Debug, Clone, Default, PartialEq, Eq)]
pub struct StaticAddressOutcome {
    /// Why the Gateway is not accepted, where a request rules that out.
    pub accepted_override: Option<GatewayConditionReason>,
    /// Why the Gateway is not programmed, where a request rules that out.
    pub programmed_override: Option<GatewayConditionReason>,
    /// The requested addresses that are usable.
    pub status_addresses: Vec<TypedAddress>,
    /// Whether the Gateway requests any address at all.
    pub feature_engaged: bool,
    /// Whether it requests an IP address that a Service can be pinned to.
    pub requests_pinnable_ip: bool,
}

impl StaticAddressOutcome {
    /// The outcome for a Gateway that requests no address.
    pub fn not_engaged() -> (r: Self)
        ensures
            r.accepted_override is None,
            r.programmed_override is None,
            r.status_addresses@ == Seq::<TypedAddress>::empty(),
            !r.feature_engaged,
            !r.requests_pinnable_ip,
    {
        StaticAddressOutcome {
            accepted_override: None,
            programmed_override: None,
            status_addresses: Vec::new(),
            feature_engaged: false,
            requests_pinnable_ip: false,
        }
    }

    /// Whether the outcome settled on an address that cannot be used.
    pub fn is_address_not_usable(&self) -> (r: bool)
        ensures
            r == (self.programmed_override == Some(GatewayConditionReason::AddressNotUsable)),
    {
        match self.programmed_override {
            Some(reason) => reason == GatewayConditionReason::AddressNotUsable,
            None => false,
        }
    }
}

/// Everything about addresses and convergence that the status of one Gateway depends on.
#[derive(Debug, Clone, PartialEq, Eq)]
pub struct SharedAddressDecision {
    /// The address that the Gateway advertises where it requests none.
    pub legacy_addr: Option<StatusAddress>,
    /// The outcome of checking the addresses that it requests.
    pub static_outcome: StaticAddressOutcome,
    /// Whether it carries a parameters reference that is not supported.
    pub params_ref_unsupported: bool,
    /// Whether it is fully served at its current generation.
    pub converged: bool,
    /// Whether it is already certain that it never will be served.
    pub settled_negative: bool,
    /// What a Gateway that is not yet served is waiting for.
    pub pending_detail: Option<String>,
}

impl SharedAddressDecision {
    /// `Programmed` is held back: nothing is settled against it, and it is not yet served.
    pub open spec fn pending(&self) -> bool {
        self.static_outcome.programmed_override is None && !self.converged
    }

    /// Whether `Programmed` is held back.
    pub fn programmed_pending(&self) -> (r: bool)
        ensures
            r == self.pending(),
    {
        self.static_outcome.programmed_override.is_none() && !self.converged
    }

    /// Status and reason that `Programmed` should have.
    pub open spec fn programmed(&self) -> (Seq<char>, GatewayConditionReason) {
        match self.static_outcome.programmed_override {
            Some(reason) => ("False"@, reason),
            None => if self.settled_negative {
                ("False"@, GatewayConditionReason::Invalid)
            } else if !self.converged {
                ("False"@, GatewayConditionReason::Pending)
            } else {
                ("True"@, GatewayConditionReason::Programmed)
            },
        }
    }

    /// Status and reason that `Programmed` should have.
    pub fn desired_programmed(&self) -> (r: (&'static str, GatewayConditionReason))
        ensures
            r.0@ == self.programmed().0,
            r.1 == self.programmed().1,
    {
        match self.static_outcome.programmed_override {
            Some(reason) => ("False", reason),
            None => if self.settled_negative {
                ("False", GatewayConditionReason::Invalid)
            } else if !self.converged {
                ("False", GatewayConditionReason::Pending)
            } else {
                ("True", GatewayConditionReason::Programmed)
            },
        }
    }
}

/// The listener `l` is accepted, as far as `health` knows.
pub open spec fn is_accepted(health: GatewayListenerStatus, l: Listener) -> bool {
    accepted(lookup(health.listeners@, None, l.name@))
}

/// Status and reason that `Accepted` should have.
///
/// A parameters reference that is not supported comes first, then a requested address of a type
/// that is not supported, then the listeners: one that is not accepted changes the reason, and
/// the status too where no listener is accepted.
pub open spec fn gateway_acceptance(
    gw: Gateway,
    health: GatewayListenerStatus,
    d: SharedAddressDecision,
) -> (Seq<char>, GatewayConditionReason) {
    let listeners = gw.spec.listeners@;
    if d.params_ref_unsupported {
        ("False"@, GatewayConditionReason::InvalidParameters)
    } else if d.static_outcome.accepted_override is Some {
        ("False"@, d.static_outcome.accepted_override->0)
    } else if exists|i: int|
        0 <= i < listeners.len() && !is_accepted(health, #[trigger] listeners[i]) {
        if exists|i: int|
            0 <= i < listeners.len() && is_accepted(health, #[trigger] listeners[i]) {
            ("True"@, GatewayConditionReason::ListenersNotValid)
        } else {
            ("False"@, GatewayConditionReason::ListenersNotValid)
        }
    } else {
        ("True"@, GatewayConditionReason::Accepted)
    }
}

/// Status and reason that `Accepted` should have.
pub fn desired_gateway_accepted(
    gw: &Gateway,
    health: &GatewayListenerStatus,
    decision: &SharedAddressDecision,
) -> (r: (&'static str, GatewayConditionReason))
    ensures
        r.0@ == gateway_acceptance(*gw, *health, *decision).0,
        r.1 == gateway_acceptance(*gw, *health, *decision).1,
{
    if decision.params_ref_unsupported {
        return ("False", GatewayConditionReason::InvalidParameters);
    }
    if let Some(reason) = decision.static_outcome.accepted_override {
        return ("False", reason);
    }
    let mut any_accepted = false;
    let mut any_unaccepted = false;
    let listeners = &gw.spec.listeners;
    let mut i: usize = 0;
    while i < listeners.len()
        invariant
            listeners@ == gw.spec.listeners@,
            i <= listeners.len(),
            any_accepted ==> exists|j: int|
                0 <= j < listeners@.len() && is_accepted(*health, #[trigger] listeners@[j]),
            !any_accepted ==> forall|j: int|
                0 <= j < i ==> !is_accepted(*health, #[trigger] listeners@[j]),
            any_unaccepted ==> exists|j: int|
                0 <= j < listeners@.len() && !is_accepted(*health, #[trigger] listeners@[j]),
            !any_unaccepted ==> forall|j: int|
                0 <= j < i ==> is_accepted(*health, #[trigger] listeners@[j]),
        decreases listeners.len() - i,
    {
        let info = gateway_listener(&health.listeners, listeners[i].name.as_str());
        if listener_is_accepted(info) {
            assert(is_accepted(*health, listeners@[i as int]));
            any_accepted = true;
        } else {
            assert(!is_accepted(*health, listeners@[i as int]));
            any_unaccepted = true;
        }
        i = i + 1;
    }
    if any_unaccepted {
        if any_accepted {
            ("True", GatewayConditionReason::ListenersNotValid)
        } else {
            ("False", GatewayConditionReason::ListenersNotValid)
        }
    } else {
        ("True", GatewayConditionReason::Accepted)
    }
}

/// The first condition of type `t` has this status and reason.
pub open spec fn reads(
    c: Seq<ConditionView>,
    t: Seq<char>,
    status: Seq<char>,
    reason: Seq<char>,
) -> bool {
    match first_of(c, t) {
        Some(x) => x.status == status && x.reason == reason,
        None => false,
    }
}

/// Whether the first condition of the type has the wanted status and reason.
pub fn condition_matches(gw: &Gateway, type_: &str, want_status: &str, want_reason: &str) -> (r:
    bool)
    ensures
        r == reads(gw.conds(), type_@, want_status@, want_reason@),
{
    match gw.status_conditions() {
        Some(c) => match find_condition(c, type_) {
            Some(x) => str_eq(x.status.as_str(), want_status) && str_eq(
                x.reason.as_str(),
                want_reason,
            ),
            None => false,
        },
        None => false,
    }
}

/// The published addresses are the wanted ones: where the Gateway requests addresses, the same
/// set; otherwise the first one is the advertised address, if there is one.
pub open spec fn addresses_current(a: Seq<AddressView>, d: SharedAddressDecision) -> bool {
    if d.static_outcome.feature_engaged {
        address_pairs(a).to_set() == typed_pairs(d.static_outcome.status_addresses@).to_set()
    } else {
        match d.legacy_addr {
            Some(want) => a.len() > 0 && a[0].value == want.value() && a[0].type_ == Some(
                want.tag(),
            ),
            None => true,
        }
    }
}

fn same_pair(a: &GatewayAddress, t: &TypedAddress) -> (r: bool)
    ensures
        r == (address_pair(a@) == typed_pair(*t)),
{
    let type_ok = match &a.type_ {
        Some(x) => str_eq(x.as_str(), t.type_.as_str()),
        None => str_eq("", t.type_.as_str()),
    };
    type_ok && str_eq(a.value.as_str(), t.value.as_str())
}

fn same_addresses(a: &Vec<GatewayAddress>, t: &Vec<TypedAddress>) -> (r: bool)
    ensures
        r == (address_pairs(address_views(a@)).to_set() == typed_pairs(t@).to_set()),
{
    let ghost x = address_pairs(address_views(a@));
    let ghost y = typed_pairs(t@);
    let mut i: usize = 0;
    while i < a.len()
        invariant
            i <= a.len(),
            x == address_pairs(address_views(a@)),
            y == typed_pairs(t@),
            forall|j: int| 0 <= j < i ==> y.contains(#[trigger] x[j]),
        decreases a.len() - i,
    {
        let mut found = false;
        let mut k: usize = 0;
        while k < t.len()
            invariant
                i < a.len(),
                k <= t.len(),
                x == address_pairs(address_views(a@)),
                y == typed_pairs(t@),
                found ==> y.contains(x[i as int]),
                !found ==> forall|j: int| 0 <= j < k ==> #[trigger] y[j] != x[i as int],
            decreases t.len() - k,
        {
            if same_pair(&a[i], &t[k]) {
                assert(y[k as int] == x[i as int]);
                found = true;
            }
            k = k + 1;
        }
        if !found {
            assert(!y.contains(x[i as int]));
            assert(x.to_set().contains(x[i as int]));
            assert(!y.to_set().contains(x[i as int]));
            return false;
        }
        i = i + 1;
    }
    let mut i: usize = 0;
    while i < t.len()
        invariant
            i <= t.len(),
            x == address_pairs(address_views(a@)),
            y == typed_pairs(t@),
            forall|j: int| 0 <= j < i ==> x.contains(#[trigger] y[j]),
        decreases t.len() - i,
    {
        let mut found = false;
        let mut k: usize = 0;
        while k < a.len()
            invariant
                i < t.len(),
                k <= a.len(),
                x == address_pairs(address_views(a@)),
                y == typed_pairs(t@),
                found ==> x.contains(y[i as int]),
                !found ==> forall|j: int| 0 <= j < k ==> #[trigger] x[j] != y[i as int],
            decreases a.len() - k,
        {
            if same_pair(&a[k], &t[i]) {
                assert(x[k as int] == y[i as int]);
                found = true;
            }
            k = k + 1;
        }
        if !found {
            assert(!x.contains(y[i as int]));
            assert(y.to_set().contains(y[i as int]));
            assert(!x.to_set().contains(y[i as int]));
            return false;
        }
        i = i + 1;
    }
    assert(x.to_set() =~= y.to_set());
    true
}

/// Whether the published addresses are the wanted ones.
pub fn gateway_addresses_up_to_date(gw: &Gateway, decision: &SharedAddressDecision) -> (r: bool)
    ensures
        r == addresses_current(gw.addresses(), *decision),
{
    let none: Vec<GatewayAddress> = Vec::new();
    let current: &Vec<GatewayAddress> = match &gw.status {
        Some(s) => match &s.addresses {
            Some(a) => a,
            None => &none,
        },
        None => &none,
    };
    assert(address_views(current@) =~= gw.addresses());
    if decision.static_outcome.feature_engaged {
        return same_addresses(current, &decision.static_outcome.status_addresses);
    }
    match &decision.legacy_addr {
        Some(want) => {
            if current.len() == 0 {
                return false;
            }
            let type_ok = match &current[0].type_ {
                Some(t) => str_eq(t.as_str(), want.type_tag()),
                None => false,
            };
            str_eq(current[0].value.as_str(), want.text()) && type_ok
        },
        None => true,
    }
}

/// Client certificates are checked insecurely.
pub open spec fn insecure(health: GatewayListenerStatus) -> bool {
    health.frontend_validation is Some && health.frontend_validation->0.insecure_fallback
}

/// The `ResolvedRefs` condition agrees with how the backend client certificate resolved.
pub open spec fn client_cert_current(c: Seq<ConditionView>, health: GatewayListenerStatus) -> bool {
    match health.backend_client_cert {
        Some(o) => reads(c, "ResolvedRefs"@, o.resolved_refs_status@, o.resolved_refs_reason@),
        None => first_of(c, "ResolvedRefs"@) is None,
    }
}

/// The first listener status with this name.
pub open spec fn first_named(s: Seq<ListenerStatusView>, name: Seq<char>) -> Option<
    ListenerStatusView,
>
    decreases s.len(),
{
    if s.len() == 0 {
        None
    } else if s[0].name == name {
        Some(s[0])
    } else {
        first_named(s.drop_first(), name)
    }
}

/// The first listener status with a name is the first at which the name occurs.
pub proof fn lemma_first_named(s: Seq<ListenerStatusView>, name: Seq<char>, i: int)
    requires
        0 <= i <= s.len(),
        forall|j: int| 0 <= j < i ==> (#[trigger] s[j]).name != name,
        i < s.len() ==> s[i].name == name,
    ensures
        first_named(s, name) == if i < s.len() {
            Some(s[i])
        } else {
            None
        },
    decreases i,
{
    if i > 0 {
        assert(s[0].name != name);
        let d = s.drop_first();
        assert(forall|j: int| 0 <= j < d.len() ==> #[trigger] d[j] == s[j + 1]);
        lemma_first_named(d, name, i - 1);
    }
}

/// The first listener status with this name.
pub fn find_listener<'a>(s: &'a [ListenerStatus], name: &str) -> (r: Option<&'a ListenerStatus>)
    ensures
        match r {
            Some(x) => first_named(listener_views(s@), name@) == Some(x@),
            None => first_named(listener_views(s@), name@) is None,
        },
{
    let mut i: usize = 0;
    while i < s.len()
        invariant
            i <= s.len(),
            forall|j: int| 0 <= j < i ==> (#[trigger] listener_views(s@)[j]).name != name@,
        decreases s.len() - i,
    {
        if str_eq(s[i].name.as_str(), name) {
            proof {
                lemma_first_named(listener_views(s@), name@, i as int);
            }
            return Some(&s[i]);
        }
        i = i + 1;
    }
    proof {
        lemma_first_named(listener_views(s@), name@, i as int);
    }
    None
}

/// The references of the listener resolve: its route kinds are ones that it can carry, its health
/// is good, and so is its check of client certificates.
pub open spec fn listener_resolves(l: Listener, info: Option<ListenerInfo>) -> bool {
    &&& !l.invalid_kinds
    &&& (info matches Some(i) ==> i.healthy && !i.frontend_failed)
}

/// How many routes are attached to the listener.
pub open spec fn attached(info: Option<ListenerInfo>) -> i32 {
    match info {
        Some(i) => i.attached_routes,
        None => 0,
    }
}

/// A listener's status entry, if any, agrees with its health.
pub open spec fn entry_current(
    entry: Option<ListenerStatusView>,
    l: Listener,
    info: Option<ListenerInfo>,
) -> bool {
    let reported: (bool, bool, i32) = match entry {
        Some(e) => (
            true_at(e.conditions, "ResolvedRefs"@, 0),
            match first_of(e.conditions, "Accepted"@) {
                Some(c) => c.status != "True"@,
                None => false,
            },
            e.attached_routes,
        ),
        None => (false, false, 0),
    };
    reported == (listener_resolves(l, info), !accepted(info), attached(info))
}

/// The status entry of the listener `l` agrees with its health.
pub open spec fn listener_current(
    entries: Seq<ListenerStatusView>,
    l: Listener,
    health: GatewayListenerStatus,
) -> bool {
    entry_current(
        first_named(entries, l.name@),
        l,
        lookup(health.listeners@, None, l.name@),
    )
}

fn check_listener(entries: &[ListenerStatus], l: &Listener, health: &GatewayListenerStatus) -> (r:
    bool)
    ensures
        r == listener_current(listener_views(entries@), *l, *health),
{
    let info = gateway_listener(&health.listeners, l.name.as_str());
    let current = find_listener(entries, l.name.as_str());
    let frontend_impacts = match info {
        Some(i) => i.frontend_failed,
        None => false,
    };
    let healthy = match info {
        Some(i) => i.healthy,
        None => true,
    };
    let desired_healthy = !l.invalid_kinds && healthy && !frontend_impacts;
    let current_resolved = match current {
        Some(e) => has_condition(Some(e.conditions.as_slice()), "ResolvedRefs"),
        None => false,
    };
    if desired_healthy != current_resolved {
        return false;
    }
    let desired_unaccepted = !listener_is_accepted(info);
    let current_unaccepted = match current {
        Some(e) => match find_condition(e.conditions.as_slice(), "Accepted") {
            Some(c) => !str_eq(c.status.as_str(), "True"),
            None => false,
        },
        None => false,
    };
    if desired_unaccepted != current_unaccepted {
        return false;
    }
    let desired_attached: i32 = match info {
        Some(i) => i.attached_routes,
        None => 0,
    };
    let current_attached: i32 = match current {
        Some(e) => e.attached_routes,
        None => 0,
    };
    desired_attached == current_attached
}

/// The condition is written by the operator.
pub open spec fn operator_owned(c: ConditionView) -> bool {
    has_prefix(c.type_, OPERATOR_PREFIX@)
}

/// Some condition that the operator does not write was observed before `generation`.
pub open spec fn stale_here(c: Seq<ConditionView>, generation: int) -> bool {
    exists|i: int|
        0 <= i < c.len() && !operator_owned(#[trigger] c[i]) && c[i].gen() < generation
}

/// Whether some condition that the operator does not write was observed before `expected_gen`.
pub fn any_status_writer_owned_condition_stale(c: &[Condition], expected_gen: i64) -> (r: bool)
    ensures
        r == stale_here(conds(c@), expected_gen as int),
{
    let mut i: usize = 0;
    while i < c.len()
        invariant
            i <= c.len(),
            forall|j: int|
                0 <= j < i ==> operator_owned(#[trigger] conds(c@)[j]) || conds(c@)[j].gen()
                    >= expected_gen,
        decreases c.len() - i,
    {
        if !starts_with(c[i].type_.as_str(), OPERATOR_PREFIX) && c[i].generation_or_zero()
            < expected_gen {
            assert(!operator_owned(conds(c@)[i as int]));
            return true;
        }
        i = i + 1;
    }
    false
}

/// The status of the Gateway is what it should be.
pub open spec fn gateway_current(
    gw: Gateway,
    health: GatewayListenerStatus,
    d: SharedAddressDecision,
) -> bool {
    let acc = gateway_acceptance(gw, health, d);
    let prog = d.programmed();
    let generation = gw.metadata.gen() as int;
    &&& reads(gw.conds(), "Accepted"@, acc.0, acc.1.text())
    &&& reads(gw.conds(), "Programmed"@, prog.0, prog.1.text())
    &&& addresses_current(gw.addresses(), d)
    &&& insecure(health) == true_at(gw.conds(), "InsecureFrontendValidationMode"@, 0)
    &&& client_cert_current(gw.conds(), health)
    &&& gw.reported_sets() == attached_sets(health.listeners@).len() as i32
    &&& gw.listener_statuses().len() == gw.spec.listeners@.len()
    &&& forall|i: int|
        0 <= i < gw.spec.listeners@.len() ==> listener_current(
            gw.listener_statuses(),
            #[trigger] gw.spec.listeners@[i],
            health,
        )
    &&& !stale_here(gw.conds(), generation)
    &&& forall|i: int|
        0 <= i < gw.listener_statuses().len() ==> !stale(
            (#[trigger] gw.listener_statuses()[i]).conditions,
            generation,
        )
}

/// Whether the status of the Gateway differs from what it should be.
pub fn gateway_needs_status_patch(
    gw: &Gateway,
    health: &GatewayListenerStatus,
    decision: &SharedAddressDecision,
) -> (r: bool)
    ensures
        r == !gateway_current(*gw, *health, *decision),
{
    let (acc_status, acc_reason) = desired_gateway_accepted(gw, health, decision);
    if !condition_matches(gw, "Accepted", acc_status, acc_reason.as_str()) {
        return true;
    }
    let (prog_status, prog_reason) = decision.desired_programmed();
    if !condition_matches(gw, "Programmed", prog_status, prog_reason.as_str()) {
        return true;
    }
    if !gateway_addresses_up_to_date(gw, decision) {
        return true;
    }
    let desired_insecure = match &health.frontend_validation {
        Some(fv) => fv.insecure_fallback,
        None => false,
    };
    let current_insecure = has_condition(
        gw.status_conditions(),
        "InsecureFrontendValidationMode",
    );
    if desired_insecure != current_insecure {
        return true;
    }
    let current_resolved_refs = match gw.status_conditions() {
        Some(c) => find_condition(c, "ResolvedRefs"),
        None => None,
    };
    match &health.backend_client_cert {
        Some(outcome) => {
            let up_to_date = match current_resolved_refs {
                Some(c) => str_eq(c.status.as_str(), outcome.resolved_refs_status.as_str())
                    && str_eq(c.reason.as_str(), outcome.resolved_refs_reason.as_str()),
                None => false,
            };
            if !up_to_date {
                return true;
            }
        },
        None => {
            if current_resolved_refs.is_some() {
                return true;
            }
        },
    }
    let desired_attached: i32 = count_attached_sets(&health.listeners);
    let current_attached: i32 = match &gw.status {
        Some(s) => match s.attached_listener_sets {
            Some(n) => n,
            None => 0,
        },
        None => 0,
    };
    if current_attached != desired_attached {
        return true;
    }
    let none: Vec<ListenerStatus> = Vec::new();
    let current_listeners: &Vec<ListenerStatus> = match &gw.status {
        Some(s) => match &s.listeners {
            Some(l) => l,
            None => &none,
        },
        None => &none,
    };
    assert(listener_views(current_listeners@) =~= gw.listener_statuses());
    if current_listeners.len() != gw.spec.listeners.len() {
        return true;
    }
    let mut i: usize = 0;
    while i < gw.spec.listeners.len()
        invariant
            i <= gw.spec.listeners.len(),
            listener_views(current_listeners@) == gw.listener_statuses(),
            forall|j: int|
                0 <= j < i ==> listener_current(
                    gw.listener_statuses(),
                    #[trigger] gw.spec.listeners@[j],
                    *health,
                ),
        decreases gw.spec.listeners.len() - i,
    {
        if !check_listener(current_listeners.as_slice(), &gw.spec.listeners[i], health) {
            assert(!listener_current(gw.listener_statuses(), gw.spec.listeners@[i as int], *health));
            return true;
        }
        i = i + 1;
    }
    let expected_gen: i64 = gw.metadata.generation_or_zero();
    if let Some(c) = gw.status_conditions() {
        if any_status_writer_owned_condition_stale(c, expected_gen) {
            return true;
        }
    }
    let mut i: usize = 0;
    while i < current_listeners.len()
        invariant
            i <= current_listeners.len(),
            expected_gen == gw.metadata.gen(),
            listener_views(current_listeners@) == gw.listener_statuses(),
            forall|j: int|
                0 <= j < i ==> !stale(
                    (#[trigger] gw.listener_statuses()[j]).conditions,
                    expected_gen as int,
                ),
        decreases current_listeners.len() - i,
    {
        if any_condition_stale(current_listeners[i].conditions.as_slice(), expected_gen) {
            assert(stale(gw.listener_statuses()[i as int].conditions, expected_gen as int));
            return true;
        }
        i = i + 1;
    }
    false
}

/// The generation that `Programmed` is stamped with: one below while it is held back.
pub open spec fn programmed_generation(generation: i64, d: SharedAddressDecision) -> i64 {
    if d.pending() && generation > i64::MIN {
        (generation - 1) as i64
    } else {
        generation
    }
}

/// The message of `Programmed`: what the Gateway waits for while it is held back and that is
/// known, else the message of the reason.
pub open spec fn programmed_message(d: SharedAddressDecision) -> Seq<char> {
    if d.pending() && d.pending_detail is Some {
        d.pending_detail->0@
    } else {
        reason_message(d.programmed().1)
    }
}

/// The conditions that this controller writes.
pub open spec fn written_conditions(
    gw: Gateway,
    health: GatewayListenerStatus,
    generation: i64,
    now: Seq<char>,
    d: SharedAddressDecision,
) -> Seq<ConditionView> {
    let acc = gateway_acceptance(gw, health, d);
    let prog = d.programmed();
    let base = seq![
        condition("Accepted"@, acc.0, acc.1.text(), reason_message(acc.1), generation, now),
        condition(
            "Programmed"@,
            prog.0,
            prog.1.text(),
            programmed_message(d),
            programmed_generation(generation, d),
            now,
        ),
    ];
    let with_mode = if insecure(health) {
        base.push(
            condition(
                "InsecureFrontendValidationMode"@,
                "True"@,
                "ConfigurationChanged"@,
                INSECURE_MESSAGE@,
                generation,
                now,
            ),
        )
    } else {
        base
    };
    match health.backend_client_cert {
        Some(o) => with_mode.push(
            condition(
                "ResolvedRefs"@,
                o.resolved_refs_status@,
                o.resolved_refs_reason@,
                o.message@,
                generation,
                now,
            ),
        ),
        None => with_mode,
    }
}

/// The conditions of the patch: the written ones, then those of the operator as they stand.
pub open spec fn desired_conditions(
    gw: Gateway,
    health: GatewayListenerStatus,
    generation: i64,
    now: Seq<char>,
    d: SharedAddressDecision,
) -> Seq<ConditionView> {
    written_conditions(gw, health, generation, now, d) + gw.conds().filter(
        |c: ConditionView| operator_owned(c),
    )
}

/// The addresses of the patch; none where the patch leaves them alone.
pub open spec fn desired_addresses(d: SharedAddressDecision) -> Option<Seq<AddressView>> {
    if d.static_outcome.feature_engaged {
        let t = d.static_outcome.status_addresses@;
        Some(
            Seq::new(
                t.len(),
                |i: int| AddressView { type_: Some(t[i].type_.tag()), value: t[i].value@ },
            ),
        )
    } else {
        match d.legacy_addr {
            Some(a) => Some(seq![AddressView { type_: Some(a.tag()), value: a.value() }]),
            None => None,
        }
    }
}

/// A patch of a Gateway's status.
#[derive(Debug, Clone, Default, PartialEq, Eq)]
pub struct GatewayStatusPatch {
    /// Top-level conditions.
    pub conditions: Vec<Condition>,
    /// One entry for each listener.
    pub listeners: Vec<ListenerStatus>,
    /// How many ListenerSets are attached, where the patch says so.
    pub attached_listener_sets: Option<i32>,
    /// Addresses, where the patch sets them.
    pub addresses: Option<Vec<GatewayAddress>>,
}

/// What a patch of a Gateway's status holds.
#[verifier::ext_equal]
pub struct GatewayPatchView {
    /// Top-level conditions.
    pub conditions: Seq<ConditionView>,
    /// One entry for each listener.
    pub listeners: Seq<ListenerStatusView>,
    /// How many ListenerSets are attached, where the patch says so.
    pub attached_listener_sets: Option<i32>,
    /// Addresses, where the patch sets them.
    pub addresses: Option<Seq<AddressView>>,
}

impl View for GatewayStatusPatch {
    type V = GatewayPatchView;

    open spec fn view(&self) -> GatewayPatchView {
        GatewayPatchView {
            conditions: conds(self.conditions@),
            listeners: listener_views(self.listeners@),
            attached_listener_sets: self.attached_listener_sets,
            addresses: match self.addresses {
                Some(a) => Some(address_views(a@)),
                None => None,
            },
        }
    }
}

/// The patch that brings the status of a Gateway to what it should be.
pub open spec fn desired_patch(
    gw: Gateway,
    health: GatewayListenerStatus,
    listeners: Seq<ListenerStatusView>,
    generation: i64,
    now: Seq<char>,
    d: SharedAddressDecision,
) -> GatewayPatchView {
    GatewayPatchView {
        conditions: desired_conditions(gw, health, generation, now, d),
        listeners,
        attached_listener_sets: Some(attached_sets(health.listeners@).len() as i32),
        addresses: desired_addresses(d),
    }
}

/// The conditions of the list that belong to the operator.
fn operator_conditions(c: &[Condition]) -> (r: Vec<Condition>)
    ensures
        conds(r@) == conds(c@).filter(|x: ConditionView| operator_owned(x)),
{
    let ghost p = |x: ConditionView| operator_owned(x);
    let mut out: Vec<Condition> = Vec::new();
    let mut i: usize = 0;
    assert(conds(c@).take(0).filter(p) =~= Seq::<ConditionView>::empty()) by {
        reveal_with_fuel(Seq::filter, 1);
    }
    assert(conds(out@) =~= Seq::<ConditionView>::empty());
    while i < c.len()
        invariant
            i <= c.len(),
            p == (|x: ConditionView| operator_owned(x)),
            conds(out@) == conds(c@).take(i as int).filter(p),
        decreases c.len() - i,
    {
        let ghost before = out@;
        proof {
            let s = conds(c@).take(i as int);
            assert(conds(c@).take(i + 1) =~= s.push(conds(c@)[i as int]));
            s.lemma_filter_push(conds(c@)[i as int], p);
        }
        if starts_with(c[i].type_.as_str(), OPERATOR_PREFIX) {
            out.push(c[i].copy());
            assert(conds(out@) =~= conds(before).push(conds(c@)[i as int]));
        }
        i = i + 1;
    }
    assert(conds(c@).take(i as int) =~= conds(c@));
    out
}

/// The addresses of the patch; none where the patch leaves them alone.
fn patch_addresses(d: &SharedAddressDecision) -> (r: Option<Vec<GatewayAddress>>)
    ensures
        match r {
            Some(a) => desired_addresses(*d) == Some(address_views(a@)),
            None => desired_addresses(*d) is None,
        },
{
    if d.static_outcome.feature_engaged {
        let t = &d.static_outcome.status_addresses;
        let mut out: Vec<GatewayAddress> = Vec::new();
        let mut i: usize = 0;
        while i < t.len()
            invariant
                t == d.static_outcome.status_addresses,
                i <= t.len(),
                out.len() == i,
                forall|j: int|
                    0 <= j < i ==> (#[trigger] out@[j])@ == (AddressView {
                        type_: Some(t@[j].type_.tag()),
                        value: t@[j].value@,
                    }),
            decreases t.len() - i,
        {
            out.push(
                GatewayAddress {
                    type_: Some(t[i].type_.as_str().to_owned()),
                    value: t[i].value.clone(),
                },
            );
            i = i + 1;
        }
        assert(address_views(out@) =~= desired_addresses(*d)->0);
        Some(out)
    } else {
        match &d.legacy_addr {
            Some(a) => {
                let mut out: Vec<GatewayAddress> = Vec::new();
                out.push(
                    GatewayAddress {
                        type_: Some(a.type_tag().to_owned()),
                        value: a.text().to_owned(),
                    },
                );
                assert(address_views(out@) =~= desired_addresses(*d)->0);
                Some(out)
            },
            None => None,
        }
    }
}

/// The patch that brings the status of a Gateway to what it should be.
///
/// `listeners` holds the status entries of the listeners.
pub fn desired_gateway_status(
    gw: &Gateway,
    health: &GatewayListenerStatus,
    listeners: Vec<ListenerStatus>,
    generation: i64,
    now: &str,
    decision: &SharedAddressDecision,
) -> (r: GatewayStatusPatch)
    ensures
        r@ == desired_patch(
            *gw,
            *health,
            listener_views(listeners@),
            generation,
            now@,
            *decision,
        ),
{
    let (acc_status, acc_reason) = desired_gateway_accepted(gw, health, decision);
    let (prog_status, prog_reason) = decision.desired_programmed();
    let pending = decision.programmed_pending();
    let prog_generation: i64 = if pending && generation > i64::MIN {
        generation - 1
    } else {
        generation
    };
    let prog_message: &str = match &decision.pending_detail {
        Some(detail) => if pending {
            detail.as_str()
        } else {
            static_address_message(prog_reason)
        },
        None => static_address_message(prog_reason),
    };
    let mut conditions: Vec<Condition> = Vec::new();
    conditions.push(
        make_condition(
            "Accepted",
            acc_status,
            acc_reason.as_str(),
            static_address_message(acc_reason),
            generation,
            now,
        ),
    );
    conditions.push(
        make_condition(
            "Programmed",
            prog_status,
            prog_reason.as_str(),
            prog_message,
            prog_generation,
            now,
        ),
    );
    if let Some(fv) = &health.frontend_validation {
        if fv.insecure_fallback {
            conditions.push(
                make_condition(
                    "InsecureFrontendValidationMode",
                    "True",
                    GatewayConditionReason::ConfigurationChanged.as_str(),
                    INSECURE_MESSAGE,
                    generation,
                    now,
                ),
            );
        }
    }
    if let Some(o) = &health.backend_client_cert {
        conditions.push(
            make_condition(
                "ResolvedRefs",
                o.resolved_refs_status.as_str(),
                o.resolved_refs_reason.as_str(),
                o.message.as_str(),
                generation,
                now,
            ),
        );
    }
    let ghost written = written_conditions(*gw, *health, generation, now@, *decision);
    assert(conds(conditions@) =~= written);
    let ghost kept = gw.conds().filter(|c: ConditionView| operator_owned(c));
    match gw.status_conditions() {
        Some(c) => {
            let mut own = operator_conditions(c);
            let ghost front = conditions@;
            let ghost back = own@;
            conditions.append(&mut own);
            assert(conds(conditions@) =~= conds(front) + conds(back));
        },
        None => {
            assert(kept =~= Seq::<ConditionView>::empty()) by {
                reveal_with_fuel(Seq::filter, 1);
            }
            assert(conds(conditions@) =~= written + kept);
        },
    }
    GatewayStatusPatch {
        conditions,
        listeners,
        attached_listener_sets: Some(count_attached_sets(&health.listeners)),
        addresses: patch_addresses(decision),
    }
}

/// A route kind in JSON, without the group where there is none.
pub open spec fn kind_json(k: RouteKindView) -> JsonView {
    JsonView::Obj(
        match k.group {
            Some(g) => seq![("group"@, JsonView::Str(g)), ("kind"@, JsonView::Str(k.kind))],
            None => seq![("kind"@, JsonView::Str(k.kind))],
        },
    )
}

/// A listener status in JSON, without the supported kinds where there are none.
pub open spec fn listener_json(l: ListenerStatusView) -> JsonView {
    let base = seq![
        ("attachedRoutes"@, JsonView::Int(l.attached_routes as int)),
        ("conditions"@, conditions_json(l.conditions)),
        ("name"@, JsonView::Str(l.name)),
    ];
    JsonView::Obj(
        match l.supported_kinds {
            Some(k) => base.push(
                ("supportedKinds"@, JsonView::Arr(Seq::new(k.len(), |i: int| kind_json(k[i])))),
            ),
            None => base,
        },
    )
}

/// An address in JSON, without the type where there is none.
pub open spec fn address_json(a: AddressView) -> JsonView {
    JsonView::Obj(
        match a.type_ {
            Some(t) => seq![("type"@, JsonView::Str(t)), ("value"@, JsonView::Str(a.value))],
            None => seq![("value"@, JsonView::Str(a.value))],
        },
    )
}

/// A patch of a Gateway's status in JSON.
pub open spec fn gateway_patch_json(p: GatewayPatchView) -> JsonView {
    let base = seq![
        ("conditions"@, conditions_json(p.conditions)),
        (
            "listeners"@,
            JsonView::Arr(Seq::new(p.listeners.len(), |i: int| listener_json(p.listeners[i]))),
        ),
    ];
    let with_sets = match p.attached_listener_sets {
        Some(n) => base.push(("attachedListenerSets"@, JsonView::Int(n as int))),
        None => base,
    };
    let status = match p.addresses {
        Some(a) => with_sets.push(
            ("addresses"@, JsonView::Arr(Seq::new(a.len(), |i: int| address_json(a[i])))),
        ),
        None => with_sets,
    };
    JsonView::Obj(seq![("status"@, JsonView::Obj(status))])
}

impl RouteKind {
    /// The route kind in JSON.
    pub fn to_json(&self) -> (r: Json)
        ensures
            r@ == kind_json(self@),
    {
        let o = match &self.group {
            Some(g) => Object::new().with("group", text(g.as_str())),
            None => Object::new(),
        };
        let r = o.with("kind", text(self.kind.as_str())).done();
        assert(r@->Obj_0 =~= kind_json(self@)->Obj_0);
        r
    }
}

impl ListenerStatus {
    /// The listener status in JSON.
    pub fn to_json(&self) -> (r: Json)
        ensures
            r@ == listener_json(self@),
    {
        let o = Object::new().with("attachedRoutes", number(self.attached_routes as i64)).with(
            "conditions",
            conditions_to_json(&self.conditions),
        ).with("name", text(self.name.as_str()));
        let o = match &self.supported_kinds {
            Some(k) => {
                let mut out: Vec<Json> = Vec::new();
                let mut i: usize = 0;
                while i < k.len()
                    invariant
                        i <= k.len(),
                        out.len() == i,
                        forall|j: int| 0 <= j < i ==> (#[trigger] out@[j])@ == kind_json(k@[j]@),
                    decreases k.len() - i,
                {
                    out.push(k[i].to_json());
                    i = i + 1;
                }
                assert(items(out@) =~= Seq::new(
                    kinds(k@).len(),
                    |i: int| kind_json(kinds(k@)[i]),
                ));
                o.with("supportedKinds", arr(out))
            },
            None => o,
        };
        let r = o.done();
        assert(r@->Obj_0 =~= listener_json(self@)->Obj_0);
        r
    }
}

/// A list of listener statuses in JSON.
pub fn listeners_to_json(l: &Vec<ListenerStatus>) -> (r: Json)
    ensures
        r@ == JsonView::Arr(
            Seq::new(listener_views(l@).len(), |i: int| listener_json(listener_views(l@)[i])),
        ),
{
    let mut out: Vec<Json> = Vec::new();
    let mut i: usize = 0;
    while i < l.len()
        invariant
            i <= l.len(),
            out.len() == i,
            forall|j: int| 0 <= j < i ==> (#[trigger] out@[j])@ == listener_json(l@[j]@),
        decreases l.len() - i,
    {
        out.push(l[i].to_json());
        i = i + 1;
    }
    assert(items(out@) =~= Seq::new(
        listener_views(l@).len(),
        |i: int| listener_json(listener_views(l@)[i]),
    ));
    arr(out)
}

impl GatewayAddress {
    /// The address in JSON.
    pub fn to_json(&self) -> (r: Json)
        ensures
            r@ == address_json(self@),
    {
        let o = match &self.type_ {
            Some(t) => Object::new().with("type", text(t.as_str())),
            None => Object::new(),
        };
        let r = o.with("value", text(self.value.as_str())).done();
        assert(r@->Obj_0 =~= address_json(self@)->Obj_0);
        r
    }
}

impl GatewayStatusPatch {
    /// The patch in JSON.
    pub fn to_json(&self) -> (r: Json)
        ensures
            r@ == gateway_patch_json(self@),
    {
        let o = Object::new().with("conditions", conditions_to_json(&self.conditions)).with(
            "listeners",
            listeners_to_json(&self.listeners),
        );
        let o = match self.attached_listener_sets {
            Some(n) => o.with("attachedListenerSets", number(n as i64)),
            None => o,
        };
        let o = match &self.addresses {
            Some(a) => {
                let mut out: Vec<Json> = Vec::new();
                let mut i: usize = 0;
                while i < a.len()
                    invariant
                        i <= a.len(),
                        out.len() == i,
                        forall|j: int| 0 <= j < i ==> (#[trigger] out@[j])@ == address_json(a@[j]@),
                    decreases a.len() - i,
                {
                    out.push(a[i].to_json());
                    i = i + 1;
                }
                assert(items(out@) =~= Seq::new(
                    address_views(a@).len(),
                    |i: int| address_json(address_views(a@)[i]),
                ));
                o.with("addresses", arr(out))
            },
            None => o,
        };
        let ghost status = o@;
        let r = Object::new().with("status", o.done()).done();
        assert(gateway_patch_json(self@)->Obj_0[0].1->Obj_0 =~= status);
        assert(r@->Obj_0 =~= gateway_patch_json(self@)->Obj_0);
        r
    }
}

/// The patch that brings the status of a Gateway to what it should be, in JSON.
pub fn build_gateway_status_patch(
    gw: &Gateway,
    health: &GatewayListenerStatus,
    listeners: Vec<ListenerStatus>,
    generation: i64,
    now: &str,
    decision: &SharedAddressDecision,
) -> (r: Json)
    ensures
        r@ == gateway_patch_json(
            desired_patch(
                *gw,
                *health,
                listener_views(listeners@),
                generation,
                now@,
                *decision,
            ),
        ),
{
    desired_gateway_status(gw, health, listeners, generation, now, decision).to_json()
}

} // verus!
