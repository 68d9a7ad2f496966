//! Plain views of the Kubernetes objects whose status this controller decides.

use vstd::prelude::*;

use crate::conditions::{conds, Condition, ConditionView};
use crate::table::Same;
use crate::text::{opt_text, str_eq};

verus! {

/// Namespace and name of an object.
#[derive(Debug, Clone, Default, PartialEq, Eq, Hash)]
pub struct ObjectKey {
    /// Namespace.
    pub ns: String,
    /// Name.
    pub name: String,
}

impl View for ObjectKey {
    type V = (Seq<char>, Seq<char>);

    open spec fn view(&self) -> (Seq<char>, Seq<char>) {
        (self.ns@, self.name@)
    }
}

impl ObjectKey {
    /// The key of the object `name` in the namespace `ns`.
    pub fn new(ns: &str, name: &str) -> (r: Self)
        ensures
            r@ == (ns@, name@),
    {
        ObjectKey { ns: ns.to_owned(), name: name.to_owned() }
    }

    /// A copy of the key.
    pub fn copy(&self) -> (r: Self)
        ensures
            r@ == self@,
    {
        ObjectKey { ns: self.ns.clone(), name: self.name.clone() }
    }
}

impl Same for ObjectKey {
    fn same(&self, other: &Self) -> (r: bool) {
        str_eq(self.ns.as_str(), other.ns.as_str()) && str_eq(
            self.name.as_str(),
            other.name.as_str(),
        )
    }
}

/// The metadata of an object, as far as decisions read it.
#[derive(Debug, Clone, Default, PartialEq, Eq)]
pub struct ObjectMeta {
    /// `metadata.name`.
    pub name: Option<String>,
    /// `metadata.namespace`.
    pub namespace: Option<String>,
    /// `metadata.generation`.
    pub generation: Option<i64>,
    /// `metadata.resourceVersion`.
    pub resource_version: Option<String>,
}

/// `o`, or the fallback where there is none.
pub open spec fn text_or(o: Option<String>, fallback: Seq<char>) -> Seq<char> {
    match o {
        Some(s) => s@,
        None => fallback,
    }
}

/// `o`, or the fallback where there is none.
pub fn str_or<'a>(o: &'a Option<String>, fallback: &'a str) -> (r: &'a str)
    ensures
        r@ == text_or(*o, fallback@),
{
    match o {
        Some(s) => s.as_str(),
        None => fallback,
    }
}

impl ObjectMeta {
    /// The generation, where an object without one counts as generation zero.
    pub open spec fn gen(&self) -> i64 {
        match self.generation {
            Some(g) => g,
            None => 0,
        }
    }

    /// The generation, where an object without one counts as generation zero.
    pub fn generation_or_zero(&self) -> (r: i64)
        ensures
            r == self.gen(),
    {
        match self.generation {
            Some(g) => g,
            None => 0,
        }
    }

    /// Namespace and name, each empty where the object has none.
    pub open spec fn key_view(&self) -> (Seq<char>, Seq<char>) {
        (text_or(self.namespace, ""@), text_or(self.name, ""@))
    }

    /// Namespace and name, each empty where the object has none.
    pub fn key(&self) -> (r: ObjectKey)
        ensures
            r@ == self.key_view(),
    {
        ObjectKey::new(str_or(&self.namespace, ""), str_or(&self.name, ""))
    }
}

/// A reference to an object that holds parameters.
#[derive(Debug, Clone, Default, PartialEq, Eq)]
pub struct ParamsRef {
    /// API group.
    pub group: String,
    /// Kind.
    pub kind: String,
    /// Name.
    pub name: String,
}

/// A route kind, as a listener allows or supports it.
#[derive(Debug, Clone, Default, PartialEq, Eq)]
pub struct RouteKind {
    /// API group; the Gateway API group where it is not given.
    pub group: Option<String>,
    /// Kind.
    pub kind: String,
}

/// What a route kind holds.
pub struct RouteKindView {
    /// API group.
    pub group: Option<Seq<char>>,
    /// Kind.
    pub kind: Seq<char>,
}

impl View for RouteKind {
    type V = RouteKindView;

    open spec fn view(&self) -> RouteKindView {
        RouteKindView { group: opt_text(self.group), kind: self.kind@ }
    }
}

/// What a list of route kinds holds.
pub open spec fn kinds(v: Seq<RouteKind>) -> Seq<RouteKindView> {
    Seq::new(v.len(), |i: int| v[i]@)
}

/// A listener of a Gateway or of a ListenerSet.
#[derive(Debug, Clone, Default, PartialEq, Eq)]
pub struct Listener {
    /// Name, unique within its parent.
    pub name: String,
    /// Port.
    pub port: i32,
    /// Protocol, as written in the spec.
    pub protocol: String,
    /// Whether `tls.mode` is `Passthrough`.
    pub tls_passthrough: bool,
    /// `allowedRoutes.kinds`.
    pub allowed_kinds: Option<Vec<RouteKind>>,
    /// Whether `allowedRoutes.kinds` names a kind that such a listener cannot carry.
    pub invalid_kinds: bool,
}

/// The status of one listener.
#[derive(Debug, Clone, Default, PartialEq, Eq)]
pub struct ListenerStatus {
    /// Name of the listener.
    pub name: String,
    /// How many routes are attached.
    pub attached_routes: i32,
    /// The route kinds it carries.
    pub supported_kinds: Option<Vec<RouteKind>>,
    /// Its conditions.
    pub conditions: Vec<Condition>,
}

/// What the status of a listener holds.
#[verifier::ext_equal]
pub struct ListenerStatusView {
    /// Name of the listener.
    pub name: Seq<char>,
    /// How many routes are attached.
    pub attached_routes: i32,
    /// The route kinds it carries.
    pub supported_kinds: Option<Seq<RouteKindView>>,
    /// Its conditions.
    pub conditions: Seq<ConditionView>,
}

impl View for ListenerStatus {
    type V = ListenerStatusView;

    open spec fn view(&self) -> ListenerStatusView {
        ListenerStatusView {
            name: self.name@,
            attached_routes: self.attached_routes,
            supported_kinds: match self.supported_kinds {
                Some(k) => Some(kinds(k@)),
                None => None,
            },
            conditions: conds(self.conditions@),
        }
    }
}

/// What a list of listener statuses holds.
pub open spec fn listener_views(v: Seq<ListenerStatus>) -> Seq<ListenerStatusView> {
    Seq::new(v.len(), |i: int| v[i]@)
}

/// An address in the status of a Gateway.
#[derive(Debug, Clone, Default, PartialEq, Eq)]
pub struct GatewayAddress {
    /// Type tag.
    pub type_: Option<String>,
    /// The address.
    pub value: String,
}

/// What an address holds.
pub struct AddressView {
    /// Type tag.
    pub type_: Option<Seq<char>>,
    /// The address.
    pub value: Seq<char>,
}

impl View for GatewayAddress {
    type V = AddressView;

    open spec fn view(&self) -> AddressView {
        AddressView { type_: opt_text(self.type_), value: self.value@ }
    }
}

/// What a list of addresses holds.
pub open spec fn address_views(v: Seq<GatewayAddress>) -> Seq<AddressView> {
    Seq::new(v.len(), |i: int| v[i]@)
}

/// The spec of a Gateway.
#[derive(Debug, Clone, Default, PartialEq, Eq)]
pub struct GatewaySpec {
    /// Name of its GatewayClass.
    pub gateway_class_name: String,
    /// Its listeners.
    pub listeners: Vec<Listener>,
    /// `infrastructure.parametersRef`.
    pub parameters_ref: Option<ParamsRef>,
}

/// The status of a Gateway.
#[derive(Debug, Clone, Default, PartialEq, Eq)]
pub struct GatewayStatus {
    /// Top-level conditions.
    pub conditions: Option<Vec<Condition>>,
    /// Published addresses.
    pub addresses: Option<Vec<GatewayAddress>>,
    /// One entry for each listener.
    pub listeners: Option<Vec<ListenerStatus>>,
    /// How many ListenerSets are attached.
    pub attached_listener_sets: Option<i32>,
}

/// A Gateway.
#[derive(Debug, Clone, Default, PartialEq, Eq)]
pub struct Gateway {
    /// Metadata.
    pub metadata: ObjectMeta,
    /// Spec.
    pub spec: GatewaySpec,
    /// Status.
    pub status: Option<GatewayStatus>,
}

impl Gateway {
    /// The top-level conditions; none where the status has none.
    pub open spec fn conds(&self) -> Seq<ConditionView> {
        match self.status {
            Some(s) => match s.conditions {
                Some(c) => conds(c@),
                None => Seq::empty(),
            },
            None => Seq::empty(),
        }
    }

    /// The published addresses; none where the status has none.
    pub open spec fn addresses(&self) -> Seq<AddressView> {
        match self.status {
            Some(s) => match s.addresses {
                Some(a) => address_views(a@),
                None => Seq::empty(),
            },
            None => Seq::empty(),
        }
    }

    /// The listener statuses; none where the status has none.
    pub open spec fn listener_statuses(&self) -> Seq<ListenerStatusView> {
        match self.status {
            Some(s) => match s.listeners {
                Some(l) => listener_views(l@),
                None => Seq::empty(),
            },
            None => Seq::empty(),
        }
    }

    /// The number of attached ListenerSets that the status reports; zero where it reports none.
    pub open spec fn reported_sets(&self) -> i32 {
        match self.status {
            Some(s) => match s.attached_listener_sets {
                Some(n) => n,
                None => 0,
            },
            None => 0,
        }
    }

    /// The top-level conditions.
    pub fn status_conditions(&self) -> (r: Option<&[Condition]>)
        ensures
            match r {
                Some(c) => conds(c@) == self.conds(),
                None => self.conds() == Seq::<ConditionView>::empty(),
            },
            r is None <==> (self.status is None || self.status->0.conditions is None),
    {
        match &self.status {
            Some(s) => match &s.conditions {
                Some(c) => Some(c.as_slice()),
                None => None,
            },
            None => None,
        }
    }
}

/// The status of a GatewayClass.
#[derive(Debug, Clone, Default, PartialEq, Eq)]
pub struct GatewayClassStatus {
    /// Conditions.
    pub conditions: Option<Vec<Condition>>,
    /// Names of the supported features.
    pub supported_features: Option<Vec<String>>,
}

/// A GatewayClass.
#[derive(Debug, Clone, Default, PartialEq, Eq)]
pub struct GatewayClass {
    /// Metadata.
    pub metadata: ObjectMeta,
    /// `spec.controllerName`.
    pub controller_name: String,
    /// `spec.parametersRef`.
    pub parameters_ref: Option<ParamsRef>,
    /// Status.
    pub status: Option<GatewayClassStatus>,
}

/// A reference from a route to a parent.
#[derive(Debug, Clone, Default, PartialEq, Eq)]
pub struct ParentRef {
    /// API group.
    pub group: Option<String>,
    /// Kind.
    pub kind: Option<String>,
    /// Namespace.
    pub namespace: Option<String>,
    /// Name.
    pub name: String,
    /// Listener name.
    pub section_name: Option<String>,
    /// Port.
    pub port: Option<i32>,
}

/// What a parent reference holds.
pub struct ParentRefView {
    /// API group.
    pub group: Option<Seq<char>>,
    /// Kind.
    pub kind: Option<Seq<char>>,
    /// Namespace.
    pub namespace: Option<Seq<char>>,
    /// Name.
    pub name: Seq<char>,
    /// Listener name.
    pub section_name: Option<Seq<char>>,
    /// Port.
    pub port: Option<i32>,
}

impl View for ParentRef {
    type V = ParentRefView;

    open spec fn view(&self) -> ParentRefView {
        ParentRefView {
            group: opt_text(self.group),
            kind: opt_text(self.kind),
            namespace: opt_text(self.namespace),
            name: self.name@,
            section_name: opt_text(self.section_name),
            port: self.port,
        }
    }
}

/// What a list of parent references holds.
pub open spec fn parents(v: Seq<ParentRef>) -> Seq<ParentRefView> {
    Seq::new(v.len(), |i: int| v[i]@)
}

} // verus!
