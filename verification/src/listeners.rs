//! Which ports a proxy listens on, and how.

use vstd::prelude::*;

use crate::config::{IngressPorts, Period, SECOND};
use crate::listener_status::{
    GatewayListenerStatus, ListenerInfo, ListenerReadiness, ProxyProtocolConfig,
};
use crate::ownership::{classify_gateway_classes, owned_classes};
use crate::ports::{listing, PortSet};
use crate::resources::{Gateway, GatewayClass, Listener, ObjectKey};
use crate::table::{enumerates, keys_of, Table};
use crate::text::{copy_texts, str_eq, texts};

verus! {

/// How connections on a port are taken.
#[derive(Debug, Clone, Copy, PartialEq, Eq, Structural)]
pub enum ListenerProtocol {
    /// Plain HTTP.
    Http,
    /// HTTP over TLS that ends here.
    Https,
    /// TLS handed through, or ended in front of a TCP backend.
    TlsL4,
    /// Both kinds of TLS on one port.
    TlsHybrid,
    /// Raw TCP.
    Tcp,
    /// Datagrams.
    Udp,
}

/// A port to listen on.
#[derive(Debug, Clone, PartialEq, Eq)]
pub struct ListenerSpec {
    /// The port.
    pub port: u16,
    /// How connections are taken.
    pub protocol: ListenerProtocol,
    /// The PROXY protocol settings.
    pub proxy_protocol: Option<ProxyProtocolConfig>,
}

/// What optional PROXY protocol settings hold.
pub open spec fn opt_proxy(p: Option<ProxyProtocolConfig>) -> Option<(bool, Seq<Seq<char>>)> {
    match p {
        Some(c) => Some(c@),
        None => None,
    }
}

fn copy_proxy(p: &Option<ProxyProtocolConfig>) -> (r: Option<ProxyProtocolConfig>)
    ensures
        opt_proxy(r) == opt_proxy(*p),
{
    match p {
        Some(c) => Some(c.copy()),
        None => None,
    }
}

impl ListenerSpec {
    /// Plain HTTP on the port.
    pub fn http(port: u16) -> (r: Self)
        ensures
            r == (ListenerSpec { port, protocol: ListenerProtocol::Http, proxy_protocol: None }),
    {
        ListenerSpec { port, protocol: ListenerProtocol::Http, proxy_protocol: None }
    }

    /// HTTP over TLS on the port.
    pub fn https(port: u16) -> (r: Self)
        ensures
            r == (ListenerSpec { port, protocol: ListenerProtocol::Https, proxy_protocol: None }),
    {
        ListenerSpec { port, protocol: ListenerProtocol::Https, proxy_protocol: None }
    }
}

/// How connections of one listener are taken.
pub open spec fn protocol_for(r: ListenerReadiness) -> ListenerProtocol {
    match r {
        ListenerReadiness::NotApplicable => ListenerProtocol::Http,
        ListenerReadiness::TlsPassthrough => ListenerProtocol::TlsL4,
        ListenerReadiness::TlsTerminate => ListenerProtocol::TlsL4,
        ListenerReadiness::TcpProxy => ListenerProtocol::Tcp,
        ListenerReadiness::UdpProxy => ListenerProtocol::Udp,
        ListenerReadiness::Https => ListenerProtocol::Https,
    }
}

fn protocol_of(r: ListenerReadiness) -> (p: ListenerProtocol)
    ensures
        p == protocol_for(r),
{
    match r {
        ListenerReadiness::NotApplicable => ListenerProtocol::Http,
        ListenerReadiness::TlsPassthrough => ListenerProtocol::TlsL4,
        ListenerReadiness::TlsTerminate => ListenerProtocol::TlsL4,
        ListenerReadiness::TcpProxy => ListenerProtocol::Tcp,
        ListenerReadiness::UdpProxy => ListenerProtocol::Udp,
        ListenerReadiness::Https => ListenerProtocol::Https,
    }
}

/// The listeners that are to be bound on the port `p`, in their order.
pub open spec fn on_port(infos: Seq<ListenerInfo>, p: u16) -> Seq<ListenerInfo> {
    infos.filter(|i: ListenerInfo| i.bind() == p)
}

/// Some listener takes connections in the given way.
pub open spec fn some_takes(infos: Seq<ListenerInfo>, p: ListenerProtocol) -> bool {
    exists|i: int| 0 <= i < infos.len() && protocol_for((#[trigger] infos[i]).readiness) == p
}

/// How connections are taken that several listeners share: as the first of them has it, unless TLS
/// of both kinds meets.
pub open spec fn shared_protocol(infos: Seq<ListenerInfo>) -> ListenerProtocol {
    let first = protocol_for(infos[0].readiness);
    if (first == ListenerProtocol::TlsL4 && some_takes(infos, ListenerProtocol::Https)) || (first
        == ListenerProtocol::Https && some_takes(infos, ListenerProtocol::TlsL4)) {
        ListenerProtocol::TlsHybrid
    } else {
        first
    }
}

/// The PROXY protocol settings that several listeners share: those of the first that has any.
pub open spec fn shared_proxy(infos: Seq<ListenerInfo>) -> Option<(bool, Seq<Seq<char>>)>
    decreases infos.len(),
{
    if infos.len() == 0 {
        None
    } else {
        match shared_proxy(infos.drop_last()) {
            Some(p) => Some(p),
            None => opt_proxy(infos.last().proxy_protocol),
        }
    }
}

/// Some entry is for the port.
pub open spec fn has_port(r: Seq<ListenerSpec>, p: u16) -> bool {
    exists|i: int| 0 <= i < r.len() && (#[trigger] r[i]).port == p
}

/// The entries say for each port once how its listeners are served, but for the excluded ports.
pub open spec fn serves(r: Seq<ListenerSpec>, infos: Seq<ListenerInfo>, excluded: Set<u16>) -> bool {
    &&& forall|i: int, j: int|
        0 <= i < j < r.len() ==> (#[trigger] r[i]).port != (#[trigger] r[j]).port
    &&& forall|p: u16| #[trigger]
        has_port(r, p) <==> !excluded.contains(p) && on_port(infos, p).len() > 0
    &&& forall|i: int|
        0 <= i < r.len() ==> (#[trigger] r[i]).protocol == shared_protocol(
            on_port(infos, r[i].port),
        ) && opt_proxy(r[i].proxy_protocol) == shared_proxy(on_port(infos, r[i].port))
}

/// The listeners of the Gateways with these keys, one Gateway after the other.
pub open spec fn infos_of(
    keys: Seq<(Seq<char>, Seq<char>)>,
    health: Map<(Seq<char>, Seq<char>), GatewayListenerStatus>,
) -> Seq<ListenerInfo>
    decreases keys.len(),
{
    if keys.len() == 0 {
        Seq::empty()
    } else {
        infos_of(keys.drop_last(), health) + entry_infos(health[keys.last()])
    }
}

/// The listeners of one Gateway.
pub open spec fn entry_infos(h: GatewayListenerStatus) -> Seq<ListenerInfo> {
    Seq::new(h.listeners@.len(), |i: int| h.listeners@[i].info)
}

/// What a list of references points at.
pub open spec fn pointees(v: Seq<&ListenerInfo>) -> Seq<ListenerInfo> {
    Seq::new(v.len(), |i: int| *v[i])
}

fn flatten(health: &Table<ObjectKey, GatewayListenerStatus>) -> (r: Vec<&ListenerInfo>)
    ensures
        exists|keys: Seq<(Seq<char>, Seq<char>)>| #[trigger]
            enumerates(keys, health@.dom()) && pointees(r@) == infos_of(keys, health@),
{
    let n: usize = health.count();
    let ghost keys = keys_of(health.listing());
    let mut out: Vec<&ListenerInfo> = Vec::new();
    let mut i: usize = 0;
    assert(keys.take(0) =~= Seq::<(Seq<char>, Seq<char>)>::empty());
    assert(pointees(out@) =~= Seq::<ListenerInfo>::empty());
    while i < n
        invariant
            i <= n,
            n == health.listing().len(),
            keys == keys_of(health.listing()),
            forall|j: int|
                0 <= j < n ==> health@[(#[trigger] health.listing()[j]).0@]
                    == health.listing()[j].1,
            pointees(out@) == infos_of(keys.take(i as int), health@),
        decreases n - i,
    {
        let (key, h) = health.entry(i);
        let ghost before = pointees(out@);
        let mut j: usize = 0;
        while j < h.listeners.len()
            invariant
                j <= h.listeners.len(),
                pointees(out@) == before + entry_infos(*h).take(j as int),
            decreases h.listeners.len() - j,
        {
            let ghost seen = pointees(out@);
            out.push(&h.listeners[j].info);
            assert(pointees(out@) =~= seen.push(entry_infos(*h)[j as int]));
            assert(entry_infos(*h).take(j + 1) =~= entry_infos(*h).take(j as int).push(
                entry_infos(*h)[j as int],
            ));
            assert(pointees(out@) =~= before + entry_infos(*h).take(j + 1));
            j = j + 1;
        }
        proof {
            assert(entry_infos(*h).take(j as int) =~= entry_infos(*h));
            assert(keys.take(i + 1).drop_last() =~= keys.take(i as int));
            assert(keys.take(i + 1).last() == key@);
            assert(health@[key@] == *h);
        }
        i = i + 1;
    }
    assert(keys.take(i as int) =~= keys);
    out
}

fn find_port(r: &Vec<ListenerSpec>, p: u16) -> (x: Option<usize>)
    ensures
        match x {
            Some(i) => i < r.len() && r@[i as int].port == p,
            None => !has_port(r@, p),
        },
{
    let mut i: usize = 0;
    while i < r.len()
        invariant
            i <= r.len(),
            forall|j: int| 0 <= j < i ==> (#[trigger] r@[j]).port != p,
        decreases r.len() - i,
    {
        if r[i].port == p {
            return Some(i);
        }
        i = i + 1;
    }
    None
}

proof fn lemma_one_more(infos: Seq<ListenerInfo>, x: ListenerInfo, p: u16)
    ensures
        on_port(infos.push(x), p) == if x.bind() == p {
            on_port(infos, p).push(x)
        } else {
            on_port(infos, p)
        },
{
    let keep = |i: ListenerInfo| i.bind() == p;
    infos.lemma_filter_push(x, keep);
}

proof fn lemma_shared_protocol(s: Seq<ListenerInfo>, x: ListenerInfo)
    requires
        s.len() > 0,
    ensures
        shared_protocol(s.push(x)) == ({
            let old_protocol = shared_protocol(s);
            let new_protocol = protocol_for(x.readiness);
            if (old_protocol == ListenerProtocol::TlsL4 && new_protocol == ListenerProtocol::Https)
                || (old_protocol == ListenerProtocol::Https && new_protocol
                == ListenerProtocol::TlsL4) {
                ListenerProtocol::TlsHybrid
            } else {
                old_protocol
            }
        }),
{
    let t = s.push(x);
    assert forall|p: ListenerProtocol|
        some_takes(t, p) == (some_takes(s, p) || protocol_for(x.readiness) == p) by {
        if some_takes(s, p) {
            let i = choose|i: int|
                0 <= i < s.len() && protocol_for((#[trigger] s[i]).readiness) == p;
            assert(t[i] == s[i]);
        }
        if protocol_for(x.readiness) == p {
            assert(t[s.len() as int] == x);
        }
        if some_takes(t, p) {
            let i = choose|i: int|
                0 <= i < t.len() && protocol_for((#[trigger] t[i]).readiness) == p;
            if i < s.len() {
                assert(t[i] == s[i]);
            }
        }
    }
    assert(t[0] == s[0]);
    assert(some_takes(t, ListenerProtocol::Https) == (some_takes(s, ListenerProtocol::Https)
        || protocol_for(x.readiness) == ListenerProtocol::Https));
    assert(some_takes(t, ListenerProtocol::TlsL4) == (some_takes(s, ListenerProtocol::TlsL4)
        || protocol_for(x.readiness) == ListenerProtocol::TlsL4));
}

fn add_listener(
    r: &mut Vec<ListenerSpec>,
    info: &ListenerInfo,
    Ghost(infos): Ghost<Seq<ListenerInfo>>,
    Ghost(excluded): Ghost<Set<u16>>,
)
    requires
        serves(old(r)@, infos, excluded),
        !excluded.contains(info.bind()),
    ensures
        serves(final(r)@, infos.push(*info), excluded),
{
    let port: u16 = info.bind_port();
    let new_protocol = protocol_of(info.readiness);
    let ghost before = r@;
    let ghost after_infos = infos.push(*info);
    proof {
        assert forall|p: u16|
            #![trigger on_port(after_infos, p)]
            on_port(after_infos, p) == if info.bind() == p {
                on_port(infos, p).push(*info)
            } else {
                on_port(infos, p)
            } by {
            lemma_one_more(infos, *info, p);
        }
    }
    match find_port(r, port) {
        Some(k) => {
            let old_protocol = r[k].protocol;
            let protocol = if (old_protocol == ListenerProtocol::TlsL4 && new_protocol
                == ListenerProtocol::Https) || (old_protocol == ListenerProtocol::Https
                && new_protocol == ListenerProtocol::TlsL4) {
                ListenerProtocol::TlsHybrid
            } else {
                old_protocol
            };
            let proxy_protocol = match &r[k].proxy_protocol {
                Some(c) => Some(c.copy()),
                None => copy_proxy(&info.proxy_protocol),
            };
            let ghost mine = on_port(infos, port);
            proof {
                assert(has_port(before, port));
                lemma_shared_protocol(mine, *info);
                assert(mine.push(*info).drop_last() =~= mine);
            }
            r.set(k, ListenerSpec { port, protocol, proxy_protocol });
            proof {
                assert(forall|j: int| 0 <= j < before.len() ==> (#[trigger] r@[j]).port == before[j].port);
                assert forall|p: u16| #[trigger]
                    has_port(r@, p) <==> !excluded.contains(p) && on_port(after_infos, p).len()
                        > 0 by {
                    if has_port(before, p) {
                        let j = choose|j: int| 0 <= j < before.len() && (#[trigger] before[j]).port
                            == p;
                        assert(r@[j].port == p);
                    }
                    if has_port(r@, p) {
                        let j = choose|j: int| 0 <= j < r@.len() && (#[trigger] r@[j]).port == p;
                        assert(before[j].port == p);
                        assert(has_port(before, p));
                    }
                }
                assert forall|j: int| 0 <= j < r@.len() implies (#[trigger] r@[j]).protocol
                    == shared_protocol(on_port(after_infos, r@[j].port)) && opt_proxy(
                    r@[j].proxy_protocol,
                ) == shared_proxy(on_port(after_infos, r@[j].port)) by {
                    if j != k {
                        assert(before[j].port != before[k as int].port);
                        assert(r@[j] == before[j]);
                    } else {
                        assert(before[k as int].protocol == shared_protocol(mine));
                    }
                }
            }
        },
        None => {
            let spec = ListenerSpec {
                port,
                protocol: new_protocol,
                proxy_protocol: copy_proxy(&info.proxy_protocol),
            };
            let ghost mine = on_port(infos, port);
            assert(mine.len() == 0) by {
                if mine.len() > 0 {
                    assert(has_port(before, port));
                }
            }
            r.push(spec);
            proof {
                let one = mine.push(*info);
                assert(one =~= seq![*info]);
                assert(one.drop_last() =~= Seq::<ListenerInfo>::empty());
                assert(shared_proxy(Seq::<ListenerInfo>::empty()) is None);
                assert(one[0] == *info);
                assert(shared_protocol(one) == new_protocol);
                assert(r@ =~= before.push(spec));
                assert forall|p: u16| #[trigger]
                    has_port(r@, p) <==> !excluded.contains(p) && on_port(after_infos, p).len()
                        > 0 by {
                    if has_port(before, p) {
                        let j = choose|j: int| 0 <= j < before.len() && (#[trigger] before[j]).port
                            == p;
                        assert(r@[j].port == p);
                    }
                    if p == port {
                        assert(r@[before.len() as int].port == p);
                    }
                    if has_port(r@, p) && p != port {
                        let j = choose|j: int| 0 <= j < r@.len() && (#[trigger] r@[j]).port == p;
                        assert(before[j].port == p);
                        assert(has_port(before, p));
                    }
                }
                assert forall|i: int, j: int| 0 <= i < j < r@.len() implies (
                #[trigger] r@[i]).port != (#[trigger] r@[j]).port by {
                    if j == before.len() {
                        assert(before[i].port != port);
                    }
                }
            }
        },
    }
}

/// The ports to listen on for Gateways, each once, but for the excluded ones. The Gateways have no
/// order; where listeners of several meet on a port, any of them may count as the first.
pub fn derive_gateway_specs(
    health: &Table<ObjectKey, GatewayListenerStatus>,
    excluded_ports: &PortSet,
) -> (r: Vec<ListenerSpec>)
    ensures
        exists|keys: Seq<(Seq<char>, Seq<char>)>| #[trigger]
            enumerates(keys, health@.dom()) && serves(
                r@,
                infos_of(keys, health@),
                excluded_ports@,
            ),
{
    let infos = flatten(health);
    let ghost all = pointees(infos@);
    let ghost excluded = excluded_ports@;
    let mut out: Vec<ListenerSpec> = Vec::new();
    let mut i: usize = 0;
    proof {
        let none = all.take(0);
        assert(none =~= Seq::<ListenerInfo>::empty());
        assert forall|p: u16| #[trigger]
            has_port(out@, p) <==> !excluded.contains(p) && on_port(none, p).len() > 0 by {
            reveal_with_fuel(Seq::filter, 1);
        }
        assert(serves(out@, none, excluded));
    }
    while i < infos.len()
        invariant
            i <= infos.len(),
            all == pointees(infos@),
            excluded == excluded_ports@,
            serves(out@, all.take(i as int), excluded),
        decreases infos.len() - i,
    {
        let info = infos[i];
        proof {
            assert(all.take(i + 1) =~= all.take(i as int).push(*info));
        }
        if !excluded_ports.contains(info.bind_port()) {
            add_listener(&mut out, info, Ghost(all.take(i as int)), Ghost(excluded));
        } else {
            proof {
                let a = all.take(i as int);
                let b = all.take(i + 1);
                assert forall|p: u16|
                    #![trigger on_port(b, p)]
                    !excluded.contains(p) ==> on_port(b, p) == on_port(a, p) by {
                    lemma_one_more(a, *info, p);
                }
                assert forall|j: int| 0 <= j < out@.len() implies (#[trigger] out@[j]).protocol
                    == shared_protocol(on_port(b, out@[j].port)) && opt_proxy(
                    out@[j].proxy_protocol,
                ) == shared_proxy(on_port(b, out@[j].port)) by {
                    assert(has_port(out@, out@[j].port));
                    assert(!excluded.contains(out@[j].port));
                }
                assert(serves(out@, b, excluded));
            }
        }
        i = i + 1;
    }
    assert(all.take(i as int) =~= all);
    out
}

/// From the port that a listener is bound on to the port that its clients see; the last listener
/// has the say.
pub open spec fn seen_ports(infos: Seq<ListenerInfo>) -> Map<u16, u16>
    decreases infos.len(),
{
    if infos.len() == 0 {
        Map::empty()
    } else {
        seen_ports(infos.drop_last()).insert(infos.last().bind(), infos.last().port)
    }
}

/// From the ports that are bound to the ports that clients see.
pub fn derive_advertised_ports(health: &Table<ObjectKey, GatewayListenerStatus>) -> (r: Table<
    u16,
    u16,
>)
    ensures
        exists|keys: Seq<(Seq<char>, Seq<char>)>| #[trigger]
            enumerates(keys, health@.dom()) && r@ == seen_ports(infos_of(keys, health@)),
{
    let infos = flatten(health);
    let ghost all = pointees(infos@);
    let mut out: Table<u16, u16> = Table::new();
    let mut i: usize = 0;
    assert(all.take(0) =~= Seq::<ListenerInfo>::empty());
    while i < infos.len()
        invariant
            i <= infos.len(),
            all == pointees(infos@),
            out@ == seen_ports(all.take(i as int)),
        decreases infos.len() - i,
    {
        let info = infos[i];
        proof {
            assert(all.take(i + 1).drop_last() =~= all.take(i as int));
            assert(all.take(i + 1).last() == *info);
        }
        out.insert(info.bind_port(), info.port);
        i = i + 1;
    }
    assert(all.take(i as int) =~= all);
    out
}

/// For every port that is listened on it is known which port clients see.
pub proof fn every_bound_port_is_advertised(
    r: Seq<ListenerSpec>,
    infos: Seq<ListenerInfo>,
    excluded: Set<u16>,
    p: u16,
)
    requires
        serves(r, infos, excluded),
        has_port(r, p),
    ensures
        seen_ports(infos).contains_key(p),
{
    let mine = on_port(infos, p);
    let keep = |i: ListenerInfo| i.bind() == p;
    infos.lemma_filter_pred(keep, 0);
    infos.lemma_filter_contains_rev(keep, mine[0]);
    let i = choose|i: int| 0 <= i < infos.len() && infos[i] == mine[0];
    lemma_seen(infos, i);
}

proof fn lemma_seen(infos: Seq<ListenerInfo>, i: int)
    requires
        0 <= i < infos.len(),
    ensures
        seen_ports(infos).contains_key(infos[i].bind()),
    decreases infos.len(),
{
    if i < infos.len() - 1 {
        lemma_seen(infos.drop_last(), i);
        assert(infos.drop_last()[i] == infos[i]);
    }
}

/// A listener without a port of its own in the pool is seen on the port that it is bound on.
pub proof fn unallocated_listener_is_seen_as_bound(infos: Seq<ListenerInfo>)
    requires
        infos.len() > 0,
        infos.last().internal_port == 0,
    ensures
        seen_ports(infos)[infos.last().bind()] == infos.last().bind(),
{
}

/// How connections of a Gateway's listener are taken, by the protocol in its spec.
pub open spec fn spec_protocol(protocol: Seq<char>) -> Option<ListenerProtocol> {
    if protocol == "HTTP"@ {
        Some(ListenerProtocol::Http)
    } else if protocol == "HTTPS"@ || protocol == "TLS"@ {
        Some(ListenerProtocol::Https)
    } else {
        None
    }
}

/// The port of a listener, cut to sixteen bits.
pub open spec fn low_port(l: Listener) -> u16 {
    l.port as u16
}

/// The listener at `i` is the first on its port, and the port is not bound yet.
pub open spec fn is_fresh(ls: Seq<Listener>, i: int, bound: Set<u16>) -> bool {
    !bound.contains(low_port(ls[i])) && forall|j: int|
        0 <= j < i ==> low_port(#[trigger] ls[j]) != low_port(ls[i])
}

/// The ports to listen on: for the first listener on each port that is not bound yet, if its
/// protocol is one that can be served.
pub open spec fn found_specs(ls: Seq<Listener>, bound: Set<u16>) -> Seq<ListenerSpec>
    decreases ls.len(),
{
    if ls.len() == 0 {
        Seq::empty()
    } else {
        let n = ls.len() - 1;
        let rest = found_specs(ls.drop_last(), bound);
        match spec_protocol(ls[n].protocol@) {
            Some(protocol) => if is_fresh(ls, n, bound) {
                rest.push(ListenerSpec { port: low_port(ls[n]), protocol, proxy_protocol: None })
            } else {
                rest
            },
            None => rest,
        }
    }
}

/// The ports of the listeners.
pub open spec fn low_ports(ls: Seq<Listener>) -> Set<u16> {
    Set::new(|p: u16| exists|i: int| 0 <= i < ls.len() && low_port(#[trigger] ls[i]) == p)
}

fn find_specs(
    ls: &Vec<Listener>,
    seen: &mut PortSet,
    out: &mut Vec<ListenerSpec>,
    Ghost(done): Ghost<Seq<Listener>>,
    Ghost(bound): Ghost<Set<u16>>,
)
    requires
        old(seen)@ == bound.union(low_ports(done)),
        old(out)@ == found_specs(done, bound),
    ensures
        final(seen)@ == bound.union(low_ports(done + ls@)),
        final(out)@ == found_specs(done + ls@, bound),
{
    let mut i: usize = 0;
    assert(done + ls@.take(0) =~= done);
    while i < ls.len()
        invariant
            i <= ls.len(),
            seen@ == bound.union(low_ports(done + ls@.take(i as int))),
            out@ == found_specs(done + ls@.take(i as int), bound),
        decreases ls.len() - i,
    {
        let l = &ls[i];
        let ghost a = done + ls@.take(i as int);
        let ghost b = done + ls@.take(i + 1);
        let ghost n = a.len() as int;
        proof {
            assert(b =~= a.push(*l));
            assert(b.drop_last() =~= a);
        }
        let port: u16 = #[verifier::truncate]
        (l.port as u16);
        let fresh = seen.insert(port);
        proof {
            assert(fresh == is_fresh(b, n, bound)) by {
                if low_ports(a).contains(port) {
                    let j = choose|j: int| 0 <= j < a.len() && low_port(#[trigger] a[j]) == port;
                    assert(b[j] == a[j]);
                }
                if !is_fresh(b, n, bound) && !bound.contains(port) {
                    let j = choose|j: int| 0 <= j < n && low_port(#[trigger] b[j]) == port;
                    assert(a[j] == b[j]);
                    assert(low_ports(a).contains(port));
                }
            }
            assert forall|p: u16| low_ports(b).contains(p) <==> (low_ports(a).contains(p) || p
                == port) by {
                if low_ports(a).contains(p) {
                    let j = choose|j: int| 0 <= j < a.len() && low_port(#[trigger] a[j]) == p;
                    assert(low_port(b[j]) == p);
                }
                if p == port {
                    assert(low_port(b[n]) == p);
                }
                if low_ports(b).contains(p) {
                    let j = choose|j: int| 0 <= j < b.len() && low_port(#[trigger] b[j]) == p;
                    if j < n {
                        assert(low_port(a[j]) == p);
                    }
                }
            }
            assert(seen@ =~= bound.union(low_ports(b)));
        }
        if fresh {
            if str_eq(l.protocol.as_str(), "HTTP") {
                out.push(ListenerSpec::http(port));
            } else if str_eq(l.protocol.as_str(), "HTTPS") || str_eq(l.protocol.as_str(), "TLS") {
                out.push(ListenerSpec::https(port));
            }
        }
        i = i + 1;
    }
    assert(ls@.take(i as int) =~= ls@);
}

/// The listeners of the Gateways whose class is among `classes`, one Gateway after the other.
pub open spec fn owned_listeners(gateways: Seq<Gateway>, classes: Set<Seq<char>>) -> Seq<Listener>
    decreases gateways.len(),
{
    if gateways.len() == 0 {
        Seq::empty()
    } else {
        let gw = gateways.last();
        let rest = owned_listeners(gateways.drop_last(), classes);
        if classes.contains(gw.spec.gateway_class_name@) {
            rest + gw.spec.listeners@
        } else {
            rest
        }
    }
}

/// The ports to listen on for the Gateways that are this controller's, besides those that are bound
/// already.
pub fn discover_gateway_ports(
    gateways: &Vec<Gateway>,
    classes: &Vec<GatewayClass>,
    controller_name: &str,
    already_bound: &Vec<u16>,
) -> (r: Vec<ListenerSpec>)
    ensures
        r@ == found_specs(
            owned_listeners(gateways@, owned_classes(classes@, controller_name@)),
            already_bound@.to_set(),
        ),
{
    let (owned, owned_dedicated) = classify_gateway_classes(classes, controller_name);
    let mut seen = PortSet::of(already_bound);
    let ghost bound = already_bound@.to_set();
    let mut out: Vec<ListenerSpec> = Vec::new();
    let mut i: usize = 0;
    proof {
        assert(gateways@.take(0) =~= Seq::<Gateway>::empty());
        assert(bound.union(low_ports(Seq::<Listener>::empty())) =~= bound);
    }
    while i < gateways.len()
        invariant
            i <= gateways.len(),
            owned@ == owned_classes(classes@, controller_name@),
            seen@ == bound.union(low_ports(owned_listeners(gateways@.take(i as int), owned@))),
            out@ == found_specs(owned_listeners(gateways@.take(i as int), owned@), bound),
        decreases gateways.len() - i,
    {
        let gw = &gateways[i];
        proof {
            assert(gateways@.take(i + 1).drop_last() =~= gateways@.take(i as int));
            assert(gateways@.take(i + 1).last() == *gw);
        }
        if owned.contains(&gw.spec.gateway_class_name) {
            find_specs(
                &gw.spec.listeners,
                &mut seen,
                &mut out,
                Ghost(owned_listeners(gateways@.take(i as int), owned@)),
                Ghost(bound),
            );
        }
        i = i + 1;
    }
    assert(gateways@.take(i as int) =~= gateways@);
    out
}

/// The ports to listen on for one Gateway: none where its class is not this controller's.
pub fn discover_dedicated_gateway_ports(
    gw: &Gateway,
    class: &GatewayClass,
    controller_name: &str,
) -> (r: Vec<ListenerSpec>)
    ensures
        r@ == if class.controller_name@ == controller_name@ {
            found_specs(gw.spec.listeners@, Set::empty())
        } else {
            Seq::empty()
        },
{
    let mut out: Vec<ListenerSpec> = Vec::new();
    if !str_eq(class.controller_name.as_str(), controller_name) {
        return out;
    }
    let mut seen = PortSet::new();
    let ghost none = Seq::<Listener>::empty();
    assert(Set::<u16>::empty().union(low_ports(none)) =~= Set::<u16>::empty());
    find_specs(&gw.spec.listeners, &mut seen, &mut out, Ghost(none), Ghost(Set::empty()));
    assert(none + gw.spec.listeners@ =~= gw.spec.listeners@);
    out
}

/// No port is found twice, and none that is bound already.
pub proof fn found_ports_are_new(ls: Seq<Listener>, bound: Set<u16>)
    ensures
        forall|i: int, j: int|
            0 <= i < j < found_specs(ls, bound).len() ==> (
            #[trigger] found_specs(ls, bound)[i]).port != (
            #[trigger] found_specs(ls, bound)[j]).port,
        forall|i: int|
            0 <= i < found_specs(ls, bound).len() ==> !bound.contains(
                (#[trigger] found_specs(ls, bound)[i]).port,
            ),
{
    lemma_found(ls, bound);
}

proof fn lemma_found(ls: Seq<Listener>, bound: Set<u16>)
    ensures
        forall|i: int, j: int|
            0 <= i < j < found_specs(ls, bound).len() ==> (
            #[trigger] found_specs(ls, bound)[i]).port != (
            #[trigger] found_specs(ls, bound)[j]).port,
        forall|i: int|
            0 <= i < found_specs(ls, bound).len() ==> !bound.contains(
                (#[trigger] found_specs(ls, bound)[i]).port,
            ) && low_ports(ls).contains(found_specs(ls, bound)[i].port),
    decreases ls.len(),
{
    if ls.len() > 0 {
        let n = ls.len() - 1;
        let front = ls.drop_last();
        lemma_found(front, bound);
        let rest = found_specs(front, bound);
        let all = found_specs(ls, bound);
        assert forall|i: int| 0 <= i < rest.len() implies low_ports(ls).contains(
            (#[trigger] rest[i]).port,
        ) && (is_fresh(ls, n, bound) ==> rest[i].port != low_port(ls[n])) by {
            let p = rest[i].port;
            let j = choose|j: int| 0 <= j < front.len() && low_port(#[trigger] front[j]) == p;
            assert(low_port(ls[j]) == p);
        }
        assert(low_port(ls[n]) == low_port(ls[n]));
        assert(low_ports(ls).contains(low_port(ls[n])));
        if all.len() > rest.len() {
            assert(forall|i: int| 0 <= i < rest.len() ==> #[trigger] all[i] == rest[i]);
        }
    }
}

/// The ports for Ingress traffic; none where Ingress is switched off.
pub open spec fn ingress_specs(ports: IngressPorts, disabled: bool) -> Seq<ListenerSpec> {
    if disabled {
        Seq::empty()
    } else {
        let http = match ports.http {
            Some(port) => seq![
                ListenerSpec { port, protocol: ListenerProtocol::Http, proxy_protocol: None },
            ],
            None => Seq::empty(),
        };
        match ports.https {
            Some(port) => http.push(
                ListenerSpec { port, protocol: ListenerProtocol::Https, proxy_protocol: None },
            ),
            None => http,
        }
    }
}

/// The ports for Ingress traffic; none where Ingress is switched off.
pub fn build_ingress_listeners(ports: IngressPorts, disable_ingress: bool) -> (r: Vec<
    ListenerSpec,
>)
    ensures
        r@ == ingress_specs(ports, disable_ingress),
{
    let mut out: Vec<ListenerSpec> = Vec::new();
    if disable_ingress {
        return out;
    }
    if let Some(port) = ports.http {
        out.push(ListenerSpec::http(port));
    }
    if let Some(port) = ports.https {
        out.push(ListenerSpec::https(port));
    }
    assert(out@ =~= ingress_specs(ports, disable_ingress));
    out
}

/// The PROXY protocol settings of Ingress ports, and whether they shut every client out.
pub fn ingress_proxy_protocol(accept: bool, trusted_sources: &Vec<String>) -> (r: (
    Option<ProxyProtocolConfig>,
    bool,
))
    ensures
        opt_proxy(r.0) == if accept {
            Some((true, texts(trusted_sources@)))
        } else {
            None
        },
        r.1 == (accept && trusted_sources.len() == 0),
{
    if accept {
        (
            Some(
                ProxyProtocolConfig { enabled: true, trusted_sources: copy_texts(trusted_sources) },
            ),
            trusted_sources.len() == 0,
        )
    } else {
        (None, false)
    }
}

/// What the shared proxy listens on.
pub struct ListenPlan {
    /// The fixed ports for Ingress traffic.
    pub ingress: Vec<ListenerSpec>,
    /// The ports for Gateways, as they are known at the start.
    pub gateway: Vec<ListenerSpec>,
    /// The ports that Gateways cannot have.
    pub excluded: PortSet,
    /// Whether the PROXY protocol settings shut every Ingress client out.
    pub all_rejected: bool,
}

/// The ports of a list.
pub open spec fn spec_ports(v: Seq<ListenerSpec>) -> Set<u16> {
    Set::new(|p: u16| has_port(v, p))
}

/// What the shared proxy listens on: the Ingress ports with their PROXY protocol settings, and for
/// Gateways all other ports.
pub fn plan_listeners(
    ports: IngressPorts,
    disable_ingress: bool,
    accept_proxy_protocol: bool,
    trusted_sources: &Vec<String>,
    health: &Table<ObjectKey, GatewayListenerStatus>,
) -> (r: ListenPlan)
    ensures
        r.ingress@.len() == ingress_specs(ports, disable_ingress).len(),
        forall|i: int|
            #![trigger r.ingress@[i]]
            0 <= i < r.ingress@.len() ==> r.ingress@[i].port == ingress_specs(
                ports,
                disable_ingress,
            )[i].port && r.ingress@[i].protocol == ingress_specs(
                ports,
                disable_ingress,
            )[i].protocol && opt_proxy(r.ingress@[i].proxy_protocol) == if accept_proxy_protocol {
                Some((true, texts(trusted_sources@)))
            } else {
                None
            },
        r.excluded@ == spec_ports(ingress_specs(ports, disable_ingress)),
        r.all_rejected == (accept_proxy_protocol && trusted_sources.len() == 0),
        exists|keys: Seq<(Seq<char>, Seq<char>)>| #[trigger]
            enumerates(keys, health@.dom()) && serves(
                r.gateway@,
                infos_of(keys, health@),
                r.excluded@,
            ),
{
    let specs = build_ingress_listeners(ports, disable_ingress);
    let (settings, all_rejected) = ingress_proxy_protocol(accept_proxy_protocol, trusted_sources);
    let ghost all = ingress_specs(ports, disable_ingress);
    let mut excluded = PortSet::new();
    let mut ingress: Vec<ListenerSpec> = Vec::new();
    let mut i: usize = 0;
    assert(excluded@ =~= spec_ports(all.take(0)));
    while i < specs.len()
        invariant
            i <= specs.len(),
            ingress.len() == i,
            all == specs@,
            opt_proxy(settings) == if accept_proxy_protocol {
                Some((true, texts(trusted_sources@)))
            } else {
                None
            },
            excluded@ == spec_ports(all.take(i as int)),
            forall|j: int|
                #![trigger ingress@[j]]
                0 <= j < i ==> ingress@[j].port == all[j].port && ingress@[j].protocol
                    == all[j].protocol && opt_proxy(ingress@[j].proxy_protocol) == opt_proxy(
                    settings,
                ),
        decreases specs.len() - i,
    {
        let port: u16 = specs[i].port;
        let fresh = excluded.insert(port);
        proof {
            let a = all.take(i as int);
            let b = all.take(i + 1);
            assert forall|p: u16| has_port(b, p) <==> (has_port(a, p) || p == port) by {
                if has_port(a, p) {
                    let j = choose|j: int| 0 <= j < a.len() && (#[trigger] a[j]).port == p;
                    assert(b[j].port == p);
                }
                if p == port {
                    assert(b[i as int].port == p);
                }
                if has_port(b, p) {
                    let j = choose|j: int| 0 <= j < b.len() && (#[trigger] b[j]).port == p;
                    if j < i {
                        assert(a[j].port == p);
                    }
                }
            }
            assert(excluded@ =~= spec_ports(b));
        }
        ingress.push(
            ListenerSpec {
                port,
                protocol: specs[i].protocol,
                proxy_protocol: copy_proxy(&settings),
            },
        );
        i = i + 1;
    }
    assert(all.take(i as int) =~= all);
    let gateway = derive_gateway_specs(health, &excluded);
    ListenPlan { ingress, gateway, excluded, all_rejected }
}

/// A proxy never listens for Gateways on a port that it listens on for Ingress traffic.
pub proof fn ingress_and_gateway_ports_are_apart(
    gateway: Seq<ListenerSpec>,
    infos: Seq<ListenerInfo>,
    ingress: Seq<ListenerSpec>,
    p: u16,
)
    requires
        serves(gateway, infos, spec_ports(ingress)),
        has_port(ingress, p),
    ensures
        !has_port(gateway, p),
{
}

/// How many threads a proxy service gets: the configured number, or where that is zero as many as
/// run at once on this machine, but no fewer than two.
pub fn resolve_proxy_threads(configured: usize, available: Option<usize>) -> (r: usize)
    ensures
        r == if configured != 0 {
            configured
        } else {
            match available {
                Some(n) => if n > 2 {
                    n
                } else {
                    2
                },
                None => 2,
            }
        },
{
    if configured != 0 {
        return configured;
    }
    match available {
        Some(n) => if n > 2 {
            n
        } else {
            2
        },
        None => 2,
    }
}

/// Notices when a proxy would have to listen on more ports than it has bound.
pub struct HotReloader {
    /// The ports that are bound.
    pub currently_bound: PortSet,
    /// The ports that are always wanted.
    pub cli_ports: PortSet,
}

/// The port occurs in one of the lists.
pub open spec fn in_some_list(lists: Seq<Vec<u16>>, p: u16) -> bool {
    exists|i: int| 0 <= i < lists.len() && (#[trigger] lists[i])@.contains(p)
}

/// The ports that are wanted: those that always are, and those of all Gateways.
pub open spec fn wanted(cli_ports: Set<u16>, gateways: Seq<Vec<u16>>) -> Set<u16> {
    Set::new(|p: u16| cli_ports.contains(p) || in_some_list(gateways, p))
}

impl HotReloader {
    /// Watches over these ports.
    pub fn new(currently_bound: PortSet, cli_ports: PortSet) -> (r: Self)
        ensures
            r.currently_bound == currently_bound,
            r.cli_ports == cli_ports,
    {
        HotReloader { currently_bound, cli_ports }
    }

    /// The ports that are wanted; `gateways` lists the ports of each Gateway's listeners.
    pub fn desired_ports(&self, gateways: &Vec<Vec<u16>>) -> (r: PortSet)
        ensures
            r@ == wanted(self.cli_ports@, gateways@),
    {
        let ghost cli = self.cli_ports@;
        let mut out = PortSet::of(self.cli_ports.listed());
        let ghost all = gateways@;
        proof {
            let l = listing(cli);
            assert forall|p: u16| l.to_set().contains(p) <==> cli.contains(p) by {
                assert(l.contains(p) <==> cli.contains(p));
            }
            assert(out@ =~= wanted(cli, all.take(0)));
        }
        let mut i: usize = 0;
        while i < gateways.len()
            invariant
                i <= gateways.len(),
                all == gateways@,
                cli == self.cli_ports@,
                out@ == wanted(cli, all.take(i as int)),
            decreases gateways.len() - i,
        {
            let list = &gateways[i];
            let ghost before = out@;
            let mut j: usize = 0;
            while j < list.len()
                invariant
                    j <= list.len(),
                    forall|p: u16| #[trigger]
                        out@.contains(p) <==> before.contains(p) || exists|k: int|
                            0 <= k < j && list@[k] == p,
                decreases list.len() - j,
            {
                let port: u16 = list[j];
                let ghost seen = out@;
                let fresh = out.insert(port);
                assert forall|p: u16| #[trigger] out@.contains(p) implies before.contains(p)
                    || exists|k: int| 0 <= k < j + 1 && list@[k] == p by {
                    if p == port {
                        assert(list@[j as int] == p);
                    } else {
                        assert(seen.contains(p));
                    }
                }
                assert forall|p: u16| before.contains(p) || exists|k: int|
                    0 <= k < j + 1 && list@[k] == p implies #[trigger] out@.contains(p) by {
                    if !before.contains(p) {
                        let k = choose|k: int| 0 <= k < j + 1 && list@[k] == p;
                        if k < j {
                            assert(seen.contains(p));
                        }
                    } else {
                        assert(seen.contains(p));
                    }
                }
                j = j + 1;
            }
            proof {
                let a = all.take(i as int);
                let b = all.take(i + 1);
                assert forall|p: u16| out@.contains(p) <==> wanted(cli, b).contains(p) by {
                    if in_some_list(a, p) {
                        let k = choose|k: int| 0 <= k < a.len() && (#[trigger] a[k])@.contains(p);
                        assert(b[k]@.contains(p));
                    }
                    if list@.contains(p) {
                        assert(b[i as int]@.contains(p));
                    }
                    if in_some_list(b, p) {
                        let k = choose|k: int| 0 <= k < b.len() && (#[trigger] b[k])@.contains(p);
                        if k < i {
                            assert(a[k]@.contains(p));
                        }
                    }
                }
                assert(out@ =~= wanted(cli, b));
            }
            i = i + 1;
        }
        assert(all.take(i as int) =~= all);
        out
    }

    /// The wanted ports that are not bound, in ascending order; nothing where all are. Ports that
    /// are bound and no longer wanted count for nothing.
    pub fn ports_to_rebind(&self, gateways: &Vec<Vec<u16>>) -> (r: Option<Vec<u16>>)
        ensures
            ({
                let want = wanted(self.cli_ports@, gateways@);
                match r {
                    None => want.subset_of(self.currently_bound@),
                    Some(v) => !want.subset_of(self.currently_bound@) && crate::ports::lists(
                        v@,
                        want.difference(self.currently_bound@),
                    ),
                }
            }),
    {
        let desired = self.desired_ports(gateways);
        if desired.is_subset(&self.currently_bound) {
            return None;
        }
        let all = desired.listed();
        let ghost missing = desired@.difference(self.currently_bound@);
        let mut out: Vec<u16> = Vec::new();
        let mut i: usize = 0;
        while i < all.len()
            invariant
                i <= all.len(),
                crate::ports::lists(all@, desired@),
                missing == desired@.difference(self.currently_bound@),
                crate::ports::ascends(out@),
                forall|k: int|
                    0 <= k < out@.len() ==> exists|j: int|
                        0 <= j < i && all@[j] == #[trigger] out@[k],
                forall|p: u16| #[trigger]
                    out@.contains(p) <==> missing.contains(p) && exists|j: int|
                        0 <= j < i && all@[j] == p,
            decreases all.len() - i,
        {
            let port: u16 = all[i];
            let ghost before = out@;
            if !self.currently_bound.contains(port) {
                out.push(port);
            }
            proof {
                assert(all@.contains(port));
                assert forall|k: int| 0 <= k < out@.len() implies exists|j: int|
                    0 <= j < i + 1 && all@[j] == #[trigger] out@[k] by {
                    if k < before.len() {
                        assert(before[k] == out@[k]);
                        let j = choose|j: int| 0 <= j < i && all@[j] == before[k];
                        assert(all@[j] == out@[k]);
                    } else {
                        assert(all@[i as int] == out@[k]);
                    }
                }
                assert forall|a: int, b: int| 0 <= a < b < out@.len() implies #[trigger] out@[a]
                    < #[trigger] out@[b] by {
                    if b == before.len() {
                        assert(before[a] == out@[a]);
                        let j = choose|j: int| 0 <= j < i && all@[j] == before[a];
                        assert(all@[j] < all@[i as int]);
                    }
                }
                assert forall|p: u16| #[trigger] out@.contains(p) <==> missing.contains(p)
                    && exists|j: int| 0 <= j < i + 1 && all@[j] == p by {
                    if out@.contains(p) {
                        let k = choose|k: int| 0 <= k < out@.len() && out@[k] == p;
                        if k < before.len() {
                            assert(before.contains(before[k]));
                        } else {
                            assert(all@[i as int] == p);
                        }
                    }
                    if missing.contains(p) && exists|j: int| 0 <= j < i + 1 && all@[j] == p {
                        let j = choose|j: int| 0 <= j < i + 1 && all@[j] == p;
                        if j < i {
                            assert(before.contains(p));
                            let k = choose|k: int| 0 <= k < before.len() && before[k] == p;
                            assert(out@[k] == p);
                        } else {
                            assert(out@[before.len() as int] == p);
                        }
                    }
                }
            }
            i = i + 1;
        }
        proof {
            assert forall|p: u16| #[trigger] out@.contains(p) <==> missing.contains(p) by {
                if missing.contains(p) {
                    assert(all@.contains(p));
                    let j = choose|j: int| 0 <= j < all@.len() && all@[j] == p;
                    assert(0 <= j < i && all@[j] == p);
                }
            }
        }
        Some(out)
    }
}

/// Seconds without a change after which changed ports are looked at.
pub const RELOAD_QUIET: u64 = 2;

/// What the reloader is doing.
#[derive(Debug, Clone, Copy, PartialEq, Eq, Structural)]
pub enum ReloadState {
    /// Waiting for a change.
    Idle,
    /// Waiting for changes to cease.
    Settling,
    /// Looking at the ports.
    Checking,
    /// Starting a successor.
    Starting,
    /// The successor has been started.
    Replaced,
}

/// What can happen to the reloader.
#[derive(Debug, Clone, Copy, PartialEq, Eq, Structural)]
pub enum ReloadEvent {
    /// The health of listeners changed.
    Changed,
    /// Nothing changed for as long as was asked for.
    Quiet,
    /// The ports were looked at.
    Checked {
        /// Whether a wanted port is not bound.
        missing: bool,
    },
    /// A successor was to be started.
    Started {
        /// Whether it was.
        ok: bool,
    },
    /// The process is to stop.
    Shutdown,
}

/// What the reloader does next.
#[derive(Debug, Clone, Copy, PartialEq, Eq, Structural)]
pub enum ReloadAction {
    /// Wait for a change.
    AwaitChange,
    /// Wait for a change, but no longer than this.
    AwaitQuiet(Period),
    /// Look at the ports.
    CheckPorts,
    /// Start one successor.
    StartChild,
    /// Wait for the outcome of what was asked for.
    AwaitOutcome,
    /// Leave the process with this code.
    Exit(i32),
    /// End.
    Stop,
}

/// How long changes must have ceased.
pub open spec fn reload_quiet() -> ReloadAction {
    ReloadAction::AwaitQuiet(Period { nanos: (RELOAD_QUIET * SECOND) as u128 })
}

/// What the reloader does next. Once changes have ceased for a while it looks at the ports; where
/// one is missing it starts a successor; and once that has started it leaves the process. Where
/// none is missing, or the successor did not start, it waits for the next change.
pub open spec fn reload_next(state: ReloadState, event: ReloadEvent) -> (
    ReloadState,
    ReloadAction,
) {
    match (state, event) {
        (_, ReloadEvent::Shutdown) => (state, ReloadAction::Stop),
        (ReloadState::Replaced, _) => (state, ReloadAction::Stop),
        (ReloadState::Checking, ReloadEvent::Checked { missing }) => if missing {
            (ReloadState::Starting, ReloadAction::StartChild)
        } else {
            (ReloadState::Idle, ReloadAction::AwaitChange)
        },
        (ReloadState::Starting, ReloadEvent::Started { ok }) => if ok {
            (ReloadState::Replaced, ReloadAction::Exit(0))
        } else {
            (ReloadState::Idle, ReloadAction::AwaitChange)
        },
        (ReloadState::Checking, _) => (state, ReloadAction::AwaitOutcome),
        (ReloadState::Starting, _) => (state, ReloadAction::AwaitOutcome),
        (_, ReloadEvent::Changed) => (ReloadState::Settling, reload_quiet()),
        (ReloadState::Settling, ReloadEvent::Quiet) => (
            ReloadState::Checking,
            ReloadAction::CheckPorts,
        ),
        (ReloadState::Settling, _) => (state, reload_quiet()),
        (ReloadState::Idle, _) => (state, ReloadAction::AwaitChange),
    }
}

/// What the reloader does next.
pub fn reload_step(state: ReloadState, event: ReloadEvent) -> (r: (ReloadState, ReloadAction))
    ensures
        r == reload_next(state, event),
{
    let quiet = ReloadAction::AwaitQuiet(Period::from_secs(RELOAD_QUIET));
    match (state, event) {
        (_, ReloadEvent::Shutdown) => (state, ReloadAction::Stop),
        (ReloadState::Replaced, _) => (state, ReloadAction::Stop),
        (ReloadState::Checking, ReloadEvent::Checked { missing }) => if missing {
            (ReloadState::Starting, ReloadAction::StartChild)
        } else {
            (ReloadState::Idle, ReloadAction::AwaitChange)
        },
        (ReloadState::Starting, ReloadEvent::Started { ok }) => if ok {
            (ReloadState::Replaced, ReloadAction::Exit(0))
        } else {
            (ReloadState::Idle, ReloadAction::AwaitChange)
        },
        (ReloadState::Checking, _) => (state, ReloadAction::AwaitOutcome),
        (ReloadState::Starting, _) => (state, ReloadAction::AwaitOutcome),
        (_, ReloadEvent::Changed) => (ReloadState::Settling, quiet),
        (ReloadState::Settling, ReloadEvent::Quiet) => (
            ReloadState::Checking,
            ReloadAction::CheckPorts,
        ),
        (ReloadState::Settling, _) => (state, quiet),
        (ReloadState::Idle, _) => (state, ReloadAction::AwaitChange),
    }
}

impl HotReloader {
    /// A wanted port is not bound.
    pub open spec fn lacks(&self, gateways: Seq<Vec<u16>>) -> bool {
        !wanted(self.cli_ports@, gateways).subset_of(self.currently_bound@)
    }

    /// The ports are looked at; `gateways` lists the ports of each Gateway's listeners.
    pub fn check_ports(&self, gateways: &Vec<Vec<u16>>) -> (r: ReloadEvent)
        ensures
            r == (ReloadEvent::Checked { missing: self.lacks(gateways@) }),
    {
        ReloadEvent::Checked { missing: self.ports_to_rebind(gateways).is_some() }
    }
}

/// Once the ports have been looked at, a successor is started exactly if a wanted port is not
/// bound; ports that are no longer wanted start none, and the reloader waits for the next change.
pub proof fn successor_is_started_for_missing_ports(r: HotReloader, gateways: Seq<Vec<u16>>)
    ensures
        reload_next(
            ReloadState::Checking,
            ReloadEvent::Checked { missing: r.lacks(gateways) },
        ) == if r.lacks(gateways) {
            (ReloadState::Starting, ReloadAction::StartChild)
        } else {
            (ReloadState::Idle, ReloadAction::AwaitChange)
        },
{
}

/// The process is left exactly when a successor has started, and then with code zero; where the
/// start failed the reloader goes on watching.
pub proof fn process_is_left_once_replaced(state: ReloadState, event: ReloadEvent)
    ensures
        reload_next(state, event).1 is Exit <==> state == ReloadState::Starting && event == (
        ReloadEvent::Started { ok: true }),
        reload_next(state, event).1 is Exit ==> reload_next(state, event).1 == ReloadAction::Exit(
            0,
        ),
        state == ReloadState::Starting && event == (ReloadEvent::Started { ok: false })
            ==> reload_next(state, event) == (ReloadState::Idle, ReloadAction::AwaitChange),
{
}

/// What the reloader does after each event of a run that begins at rest.
pub open spec fn reload_run(events: Seq<ReloadEvent>) -> (ReloadState, Seq<ReloadAction>)
    decreases events.len(),
{
    if events.len() == 0 {
        (ReloadState::Idle, Seq::empty())
    } else {
        let (state, done) = reload_run(events.drop_last());
        let (next, action) = reload_next(state, events.last());
        (next, done.push(action))
    }
}

/// How many successors were to be started in a run.
pub open spec fn starts(events: Seq<ReloadEvent>) -> int
    decreases events.len(),
{
    if events.len() == 0 {
        0
    } else {
        starts(events.drop_last()) + if reload_run(events).1.last() == ReloadAction::StartChild {
            1int
        } else {
            0
        }
    }
}

/// How many of them did not start.
pub open spec fn failures(events: Seq<ReloadEvent>) -> int
    decreases events.len(),
{
    if events.len() == 0 {
        0
    } else {
        failures(events.drop_last()) + if reload_run(events.drop_last()).0 == ReloadState::Starting
            && events.last() == (ReloadEvent::Started { ok: false }) {
            1int
        } else {
            0
        }
    }
}

/// Successors are started one at a time: in every run, all that were to be started have failed,
/// except for one that is being started or has started.
pub proof fn one_successor_at_a_time(events: Seq<ReloadEvent>)
    ensures
        starts(events) == failures(events) + (if reload_run(events).0 == ReloadState::Starting
            || reload_run(events).0 == ReloadState::Replaced {
            1int
        } else {
            0
        }),
    decreases events.len(),
{
    if events.len() > 0 {
        one_successor_at_a_time(events.drop_last());
    }
}

/// Milliseconds between two looks at whether the process that started this one has ended.
pub const PARENT_POLL: u64 = 100;

/// Seconds after which a restarted process no longer waits for the one that started it.
pub const PARENT_DEADLINE: u64 = 30;

/// How long to wait before the next look at whether the process that started this one has ended,
/// after having waited for `waited`; nothing where it has ended, or the wait has been long enough.
pub fn parent_wait_step(gone: bool, waited: Period) -> (r: Option<Period>)
    ensures
        r == if gone || waited.nanos >= PARENT_DEADLINE * SECOND {
            None::<Period>
        } else {
            Some(Period { nanos: (PARENT_POLL * 1_000_000) as u128 })
        },
{
    if gone || waited.nanos >= Period::from_secs(PARENT_DEADLINE).nanos {
        None
    } else {
        Some(Period::from_millis(PARENT_POLL))
    }
}

} // verus!
