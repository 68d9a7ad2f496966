//! The address of a shared Gateway, and the pool of proxies behind it.

use vstd::prelude::*;

use crate::config::{AddressText, StatusAddress};
use crate::gateway_status::{typed_pairs, SupportedAddressType, TypedAddress};
use crate::ports::{listing, PortSet};
use crate::resources::{AddressView, Gateway, GatewayAddress};
use crate::text::{cat, decimal, decimal_text, join, joined, opt_is, opt_text, str_eq, texts};

verus! {

/// How far the Service with a shared Gateway's own address has come.
pub enum VipAddress {
    /// There is no such Service, or it could not be read.
    NotProvisioned,
    /// The Service has no address yet.
    Pending,
    /// The Service has this address.
    Resolved(StatusAddress),
}

/// Type tag and value of an address, where there is one.
pub open spec fn opt_address(a: Option<StatusAddress>) -> Option<(Seq<char>, Seq<char>)> {
    match a {
        Some(x) => Some((x.tag(), x.value())),
        None => None,
    }
}

/// The address that a shared Gateway advertises: its own once it has one. The global address only
/// where Gateways have none of their own and there is no Service.
pub open spec fn advertised(
    vip: VipAddress,
    shared_vip_addressing: bool,
    global: Option<StatusAddress>,
) -> Option<(Seq<char>, Seq<char>)> {
    match vip {
        VipAddress::Resolved(a) => Some((a.tag(), a.value())),
        VipAddress::Pending => None,
        VipAddress::NotProvisioned => if shared_vip_addressing {
            None
        } else {
            opt_address(global)
        },
    }
}

/// The address that a shared Gateway advertises.
pub fn select_shared_gateway_address(
    vip: &VipAddress,
    shared_vip_addressing: bool,
    global_status_address: Option<&StatusAddress>,
) -> (r: Option<StatusAddress>)
    ensures
        opt_address(r) == advertised(
            *vip,
            shared_vip_addressing,
            match global_status_address {
                Some(a) => Some(*a),
                None => None,
            },
        ),
{
    match vip {
        VipAddress::Resolved(a) => Some(a.copy()),
        VipAddress::Pending => None,
        VipAddress::NotProvisioned => if shared_vip_addressing {
            None
        } else {
            match global_status_address {
                Some(a) => Some(a.copy()),
                None => None,
            }
        },
    }
}

/// Where Gateways have addresses of their own, a Gateway advertises its own address or none.
pub proof fn global_address_is_never_borrowed(vip: VipAddress, global: Option<StatusAddress>)
    ensures
        advertised(vip, true, global) is Some ==> vip is Resolved && advertised(vip, true, global)
            == opt_address(Some(vip->Resolved_0)),
{
}

/// A port of a Service, as far as its target goes.
#[derive(Debug, Clone, PartialEq, Eq)]
pub enum TargetPort {
    /// A number.
    Number(i32),
    /// A name.
    Name(String),
}

/// An entry of a Service's load-balancer status.
#[derive(Debug, Clone, Default, PartialEq, Eq)]
pub struct ServiceIngress {
    /// IP address, as written and as read.
    pub ip: Option<AddressText>,
    /// Host name.
    pub hostname: Option<String>,
}

/// The spec of a Service.
#[derive(Debug, Clone, Default, PartialEq, Eq)]
pub struct ServiceSpec {
    /// `type`.
    pub type_: Option<String>,
    /// `clusterIP`, as written and as read.
    pub cluster_ip: Option<AddressText>,
    /// The `targetPort` of each port.
    pub target_ports: Option<Vec<Option<TargetPort>>>,
}

/// A Service.
#[derive(Debug, Clone, Default, PartialEq, Eq)]
pub struct Service {
    /// Spec.
    pub spec: Option<ServiceSpec>,
    /// `status.loadBalancer.ingress`.
    pub load_balancer: Option<Vec<ServiceIngress>>,
}

/// The target of a port is the number `p`.
pub open spec fn targets(t: Option<TargetPort>, p: u16) -> bool {
    t matches Some(TargetPort::Number(n)) && n == p
}

/// The targets of the Service's ports; none where it has no ports.
pub open spec fn targets_of(svc: Service) -> Seq<Option<TargetPort>> {
    match svc.spec {
        Some(s) => match s.target_ports {
            Some(v) => v@,
            None => Seq::empty(),
        },
        None => Seq::empty(),
    }
}

/// The numeric targets of the Service's ports.
pub open spec fn internal_ports(t: Seq<Option<TargetPort>>) -> Set<u16> {
    Set::new(|p: u16| exists|i: int| 0 <= i < t.len() && targets(#[trigger] t[i], p))
}

/// The numeric targets of the Service's ports: what the shared pool has to bind. Names, and numbers
/// that are no ports, are left out.
pub fn service_internal_ports(svc: &Service) -> (r: PortSet)
    ensures
        r@ == internal_ports(targets_of(*svc)),
{
    let none: Vec<Option<TargetPort>> = Vec::new();
    let t: &Vec<Option<TargetPort>> = match &svc.spec {
        Some(s) => match &s.target_ports {
            Some(v) => v,
            None => &none,
        },
        None => &none,
    };
    assert(t@ =~= targets_of(*svc));
    let ghost all = t@;
    let mut out = PortSet::new();
    let mut i: usize = 0;
    assert(out@ =~= internal_ports(all.take(0)));
    while i < t.len()
        invariant
            i <= t.len(),
            all == t@,
            out@ == internal_ports(all.take(i as int)),
        decreases t.len() - i,
    {
        let ghost before = out@;
        let ghost a = all.take(i as int);
        let ghost b = all.take(i + 1);
        if let Some(TargetPort::Number(n)) = &t[i] {
            if 0 <= *n && *n <= 65535 {
                let port: u16 = *n as u16;
                let fresh = out.insert(port);
            }
        }
        proof {
            assert(forall|j: int| 0 <= j < i ==> #[trigger] a[j] == b[j]);
            assert(b[i as int] == all[i as int]);
            assert forall|p: u16| out@.contains(p) <==> internal_ports(b).contains(p) by {
                if before.contains(p) {
                    let j = choose|j: int| 0 <= j < a.len() && targets(#[trigger] a[j], p);
                    assert(targets(b[j], p));
                }
                if targets(all[i as int], p) {
                    assert(targets(b[i as int], p));
                }
                if internal_ports(b).contains(p) {
                    let j = choose|j: int| 0 <= j < b.len() && targets(#[trigger] b[j], p);
                    if j < i {
                        assert(targets(a[j], p));
                    }
                }
            }
            assert(out@ =~= internal_ports(b));
        }
        i = i + 1;
    }
    assert(all.take(i as int) =~= all);
    out
}

/// The address of one load-balancer entry: its IP address where it has one, which has to read as
/// such; else its host name.
pub open spec fn entry_address(e: ServiceIngress) -> Option<(Seq<char>, Seq<char>)> {
    if e.ip is Some && e.ip->0.raw@.len() > 0 {
        match e.ip->0.ip {
            Some(ip) => Some(("IPAddress"@, ip@)),
            None => None,
        }
    } else if e.hostname is Some && e.hostname->0@.len() > 0 {
        Some(("Hostname"@, e.hostname->0@))
    } else {
        None
    }
}

/// The address of the first entry that has one.
pub open spec fn first_address(v: Seq<ServiceIngress>) -> Option<(Seq<char>, Seq<char>)>
    decreases v.len(),
{
    if v.len() == 0 {
        None
    } else if entry_address(v[0]) is Some {
        entry_address(v[0])
    } else {
        first_address(v.drop_first())
    }
}

/// The address of a Service, by its type: that of its load balancer, or its cluster IP. Services of
/// another type have none here.
pub open spec fn vip_of(svc: Service) -> Option<(Seq<char>, Seq<char>)> {
    match svc.spec {
        None => None,
        Some(s) => {
            let t = opt_text(s.type_);
            if t == Some("LoadBalancer"@) {
                match svc.load_balancer {
                    Some(v) => first_address(v@),
                    None => None,
                }
            } else if t is None || t == Some("ClusterIP"@) || t->0.len() == 0 {
                match s.cluster_ip {
                    Some(c) => if c.raw@.len() == 0 || c.raw@ == "None"@ {
                        None
                    } else {
                        match c.ip {
                            Some(ip) => Some(("IPAddress"@, ip@)),
                            None => None,
                        }
                    },
                    None => None,
                }
            } else {
                None
            }
        },
    }
}

fn read_entry(e: &ServiceIngress) -> (r: Option<StatusAddress>)
    ensures
        opt_address(r) == entry_address(*e),
{
    if let Some(t) = &e.ip {
        if !t.raw.as_str().is_empty() {
            return match &t.ip {
                Some(ip) => Some(StatusAddress::Ip(ip.clone())),
                None => None,
            };
        }
    }
    match &e.hostname {
        Some(h) => if h.as_str().is_empty() {
            None
        } else {
            Some(StatusAddress::Hostname(h.clone()))
        },
        None => None,
    }
}

fn find_address(v: &Vec<ServiceIngress>) -> (r: Option<StatusAddress>)
    ensures
        opt_address(r) == first_address(v@),
{
    let mut i: usize = 0;
    assert(v@.skip(0) =~= v@);
    while i < v.len()
        invariant
            i <= v.len(),
            first_address(v@.skip(i as int)) == first_address(v@),
        decreases v.len() - i,
    {
        let r = read_entry(&v[i]);
        assert(v@.skip(i as int)[0] == v@[i as int]);
        assert(v@.skip(i as int).drop_first() =~= v@.skip(i + 1));
        if r.is_some() {
            return r;
        }
        i = i + 1;
    }
    None
}

/// The address of a Service, by its type.
pub fn service_vip_address(svc: &Service) -> (r: Option<StatusAddress>)
    ensures
        opt_address(r) == vip_of(*svc),
{
    let s: &ServiceSpec = match &svc.spec {
        Some(s) => s,
        None => {
            return None;
        },
    };
    let cluster = match &s.type_ {
        Some(t) => {
            if str_eq(t.as_str(), "LoadBalancer") {
                return match &svc.load_balancer {
                    Some(v) => find_address(v),
                    None => None,
                };
            }
            str_eq(t.as_str(), "ClusterIP") || t.as_str().is_empty()
        },
        None => true,
    };
    if !cluster {
        return None;
    }
    match &s.cluster_ip {
        Some(c) => if c.raw.as_str().is_empty() || str_eq(c.raw.as_str(), "None") {
            None
        } else {
            match &c.ip {
                Some(ip) => Some(StatusAddress::Ip(ip.clone())),
                None => None,
            }
        },
        None => None,
    }
}

/// The Service behind a shared Gateway: its address, and what the pool has to bind for it.
pub struct SharedVip {
    /// Its address.
    pub address: VipAddress,
    /// The ports to bind; none where there is no Service.
    pub internal_ports: PortSet,
}

/// What has been read of the Service comes out as this.
pub open spec fn vip_read(svc: Option<Service>, r: SharedVip) -> bool {
    match svc {
        None => r.address is NotProvisioned && r.internal_ports@ == Set::<u16>::empty(),
        Some(s) => {
            &&& match vip_of(s) {
                Some(a) => r.address is Resolved && opt_address(Some(r.address->Resolved_0))
                    == Some(a),
                None => r.address is Pending,
            }
            &&& r.internal_ports@ == internal_ports(targets_of(s))
        },
    }
}

impl SharedVip {
    /// There is no Service, or it was not looked for, or could not be read.
    pub fn not_provisioned() -> (r: Self)
        ensures
            vip_read(None, r),
    {
        SharedVip { address: VipAddress::NotProvisioned, internal_ports: PortSet::new() }
    }

    /// What the Service says, where there is one.
    pub fn read(svc: Option<&Service>) -> (r: Self)
        ensures
            vip_read(
                match svc {
                    Some(s) => Some(*s),
                    None => None,
                },
                r,
            ),
    {
        match svc {
            None => SharedVip::not_provisioned(),
            Some(s) => {
                let address = match service_vip_address(s) {
                    Some(a) => VipAddress::Resolved(a),
                    None => VipAddress::Pending,
                };
                SharedVip { address, internal_ports: service_internal_ports(s) }
            },
        }
    }
}

/// Whether the Service of a Gateway has to be looked for at all: addresses per Gateway are switched
/// on, and the Gateway has a name and a namespace to look under.
pub fn vip_lookup_needed(gw: &Gateway, enabled: bool) -> (r: bool)
    ensures
        r == (enabled && gw.metadata.namespace is Some && gw.metadata.name is Some),
{
    enabled && gw.metadata.namespace.is_some() && gw.metadata.name.is_some()
}

/// A connected proxy.
#[derive(Debug, Default, PartialEq, Eq)]
pub struct NodeEntry {
    /// Whether it belongs to the shared pool.
    pub shared_pool: bool,
    /// The ports that it reported as bound, once it reported.
    pub bound_ports: Option<PortSet>,
}

/// The proxies of the shared pool.
pub open spec fn pool(nodes: Seq<NodeEntry>) -> Seq<NodeEntry> {
    nodes.filter(|n: NodeEntry| n.shared_pool)
}

/// The proxy has not bound all required ports.
pub open spec fn lags(n: NodeEntry, required: Set<u16>) -> bool {
    !(n.bound_ports matches Some(b) && required.subset_of(b@))
}

/// How many proxies of the shared pool have not bound all required ports.
pub open spec fn lagging(nodes: Seq<NodeEntry>, required: Set<u16>) -> nat {
    pool(nodes).filter(|n: NodeEntry| lags(n, required)).len()
}

/// The ports in decimal.
pub open spec fn port_texts(s: Seq<u16>) -> Seq<Seq<char>> {
    Seq::new(s.len(), |i: int| decimal(s[i] as nat))
}

/// Whom the Gateway is waiting for.
pub open spec fn bind_detail(nodes: Seq<NodeEntry>, required: Set<u16>) -> Seq<char> {
    if pool(nodes).len() == 0 {
        "no shared proxy nodes connected; waiting for the pool before declaring the Gateway programmed"@
    } else {
        "waiting for "@ + decimal(lagging(nodes, required)) + "/"@ + decimal(pool(nodes).len())
            + " connected shared proxy node(s) to bind internal port(s) ["@ + joined(
            port_texts(listing(required)),
            ", "@,
        ) + "]"@
    }
}

fn decimals(v: &Vec<u16>) -> (r: Vec<String>)
    ensures
        texts(r@) == port_texts(v@),
{
    let mut out: Vec<String> = Vec::new();
    let mut i: usize = 0;
    while i < v.len()
        invariant
            i <= v.len(),
            out.len() == i,
            forall|j: int| 0 <= j < i ==> (#[trigger] out@[j])@ == decimal(v@[j] as nat),
        decreases v.len() - i,
    {
        out.push(decimal_text(v[i] as u64));
        i = i + 1;
    }
    assert(texts(out@) =~= port_texts(v@));
    out
}

fn node_lags(n: &NodeEntry, required: &PortSet) -> (r: bool)
    ensures
        r == lags(*n, required@),
{
    match &n.bound_ports {
        Some(b) => !required.is_subset(b),
        None => true,
    }
}

/// Whom the Gateway is waiting for.
pub fn proxy_bind_pending_detail(nodes: &Vec<NodeEntry>, required: &PortSet) -> (r: String)
    ensures
        r@ == bind_detail(nodes@, required@),
{
    let ghost all = nodes@;
    let ghost in_pool = |n: NodeEntry| n.shared_pool;
    let ghost lag = |n: NodeEntry| lags(n, required@);
    let mut shared: usize = 0;
    let mut unbound: usize = 0;
    let mut i: usize = 0;
    assert(all.take(0).filter(in_pool) =~= Seq::<NodeEntry>::empty()) by {
        reveal_with_fuel(Seq::filter, 1);
    }
    assert(Seq::<NodeEntry>::empty().filter(lag) =~= Seq::<NodeEntry>::empty()) by {
        reveal_with_fuel(Seq::filter, 1);
    }
    while i < nodes.len()
        invariant
            i <= nodes.len(),
            all == nodes@,
            in_pool == (|n: NodeEntry| n.shared_pool),
            lag == (|n: NodeEntry| lags(n, required@)),
            shared == all.take(i as int).filter(in_pool).len(),
            unbound == all.take(i as int).filter(in_pool).filter(lag).len(),
            shared <= i,
            unbound <= i,
        decreases nodes.len() - i,
    {
        let ghost s = all.take(i as int);
        proof {
            assert(all.take(i + 1) =~= s.push(all[i as int]));
            s.lemma_filter_push(all[i as int], in_pool);
            s.filter(in_pool).lemma_filter_push(all[i as int], lag);
        }
        if nodes[i].shared_pool {
            shared = shared + 1;
            if node_lags(&nodes[i], required) {
                unbound = unbound + 1;
            }
        }
        i = i + 1;
    }
    assert(all.take(i as int) =~= all);
    if shared == 0 {
        return "no shared proxy nodes connected; waiting for the pool before declaring the Gateway programmed".to_owned();
    }
    let ports = decimals(required.listed());
    let mut s = cat("waiting for ", decimal_text(unbound as u64).as_str());
    s.append("/");
    s.append(decimal_text(shared as u64).as_str());
    s.append(" connected shared proxy node(s) to bind internal port(s) [");
    s.append(join(&ports, ", ").as_str());
    s.append("]");
    s
}

/// The address with its type.
pub fn status_address_to_typed(addr: &StatusAddress) -> (r: TypedAddress)
    ensures
        r.type_.tag() == addr.tag(),
        r.value@ == addr.value(),
        r.type_ is IpAddress <==> addr is Ip,
{
    match addr {
        StatusAddress::Ip(ip) => TypedAddress {
            type_: SupportedAddressType::IpAddress,
            value: ip.clone(),
        },
        StatusAddress::Hostname(h) => TypedAddress {
            type_: SupportedAddressType::Hostname,
            value: h.clone(),
        },
    }
}

/// The published address has one of the supported types.
pub open spec fn has_known_type(a: AddressView) -> bool {
    a.type_ == Some("IPAddress"@) || a.type_ == Some("Hostname"@)
}

/// The published addresses that have one of the supported types, in their order.
pub open spec fn known_addresses(v: Seq<AddressView>) -> Seq<(Seq<char>, Seq<char>)> {
    v.filter(|a: AddressView| has_known_type(a)).map_values(
        |a: AddressView| (a.type_->0, a.value),
    )
}

/// The published addresses of the Gateway that have one of the supported types, in their order.
pub fn current_status_typed_addresses(gw: &Gateway) -> (r: Vec<TypedAddress>)
    ensures
        typed_pairs(r@) == known_addresses(gw.addresses()),
{
    let none: Vec<GatewayAddress> = Vec::new();
    let v: &Vec<GatewayAddress> = match &gw.status {
        Some(s) => match &s.addresses {
            Some(a) => a,
            None => &none,
        },
        None => &none,
    };
    let ghost all = gw.addresses();
    assert(crate::resources::address_views(v@) =~= all);
    let ghost keep = |a: AddressView| has_known_type(a);
    let ghost pair = |a: AddressView| (a.type_->0, a.value);
    let mut out: Vec<TypedAddress> = Vec::new();
    let mut i: usize = 0;
    assert(all.take(0).filter(keep) =~= Seq::<AddressView>::empty()) by {
        reveal_with_fuel(Seq::filter, 1);
    }
    assert(typed_pairs(out@) =~= all.take(0).filter(keep).map_values(pair));
    while i < v.len()
        invariant
            i <= v.len(),
            all == crate::resources::address_views(v@),
            keep == (|a: AddressView| has_known_type(a)),
            pair == (|a: AddressView| (a.type_->0, a.value)),
            typed_pairs(out@) == all.take(i as int).filter(keep).map_values(pair),
        decreases v.len() - i,
    {
        let ghost before = out@;
        let ghost s = all.take(i as int);
        proof {
            assert(all.take(i + 1) =~= s.push(all[i as int]));
            s.lemma_filter_push(all[i as int], keep);
            assert(all[i as int] == v@[i as int]@);
        }
        let a = &v[i];
        let kind: Option<SupportedAddressType> = if opt_is(&a.type_, "IPAddress") {
            Some(SupportedAddressType::IpAddress)
        } else if opt_is(&a.type_, "Hostname") {
            Some(SupportedAddressType::Hostname)
        } else {
            None
        };
        if let Some(type_) = kind {
            out.push(TypedAddress { type_, value: a.value.clone() });
            assert(typed_pairs(out@) =~= typed_pairs(before).push(pair(all[i as int])));
            assert(s.filter(keep).push(all[i as int]).map_values(pair) =~= s.filter(
                keep,
            ).map_values(pair).push(pair(all[i as int])));
        }
        i = i + 1;
    }
    assert(all.take(i as int) =~= all);
    out
}

} // verus!
