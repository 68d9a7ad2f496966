//! Which ports a proxy listens on, and for what.

use vstd::prelude::*;

use crate::config::IngressPorts;
use crate::listener_status::{GatewayListenerStatus, ListenerInfo};
use crate::listeners::{
    entry_infos, found_specs, has_port, in_some_list, infos_of, ingress_specs, is_fresh, low_port,
    on_port, owned_listeners, protocol_for, reload_next, seen_ports, serves, shared_protocol,
    shared_proxy, some_takes, spec_protocol, wanted, HotReloader, ListenerProtocol, ListenerSpec,
    ReloadAction, ReloadEvent, ReloadState,
};
use crate::resources::{Gateway, Listener};
use crate::table::enumerates;

verus! {

/// The listener is bound on this port: its own port in the pool, where it has one, else the port
/// that clients see.
pub open spec fn is_bound_on(i: ListenerInfo, p: u16) -> bool {
    p == if i.internal_port == 0 {
        i.port
    } else {
        i.internal_port
    }
}

/// The listener ends TLS itself for HTTP.
pub open spec fn takes_https(i: ListenerInfo) -> bool {
    i.readiness is Https
}

/// The listener takes TLS connections as such, whether it ends them or hands them on.
pub open spec fn takes_tls(i: ListenerInfo) -> bool {
    i.readiness is TlsPassthrough || i.readiness is TlsTerminate
}

/// The protocol that a listener takes by itself.
pub open spec fn takes(i: ListenerInfo, p: ListenerProtocol) -> bool {
    &&& p is Https <==> takes_https(i)
    &&& p is TlsL4 <==> takes_tls(i)
    &&& p is Tcp <==> i.readiness is TcpProxy
    &&& p is Udp <==> i.readiness is UdpProxy
    &&& p is Http <==> i.readiness is NotApplicable
    &&& !(p is TlsHybrid)
}

proof fn lemma_takes(i: ListenerInfo)
    ensures
        takes(i, protocol_for(i.readiness)),
{
}

/// The listener at `k` is the first that is bound on the port.
pub open spec fn is_first_on(infos: Seq<ListenerInfo>, p: u16, k: int) -> bool {
    &&& 0 <= k < infos.len()
    &&& is_bound_on(infos[k], p)
    &&& forall|j: int| 0 <= j < k ==> !is_bound_on(#[trigger] infos[j], p)
}

/// Some listener that is bound on the port takes HTTPS.
pub open spec fn https_on(infos: Seq<ListenerInfo>, p: u16) -> bool {
    exists|i: int| 0 <= i < infos.len() && is_bound_on(#[trigger] infos[i], p) && takes_https(infos[i])
}

/// Some listener that is bound on the port takes TLS as such.
pub open spec fn tls_on(infos: Seq<ListenerInfo>, p: u16) -> bool {
    exists|i: int| 0 <= i < infos.len() && is_bound_on(#[trigger] infos[i], p) && takes_tls(infos[i])
}

proof fn lemma_on_port(infos: Seq<ListenerInfo>, p: u16)
    ensures
        forall|k: int|
            0 <= k < on_port(infos, p).len() ==> is_bound_on(#[trigger] on_port(infos, p)[k], p)
                && infos.contains(on_port(infos, p)[k]),
        forall|i: int|
            0 <= i < infos.len() && is_bound_on(#[trigger] infos[i], p) ==> on_port(
                infos,
                p,
            ).contains(infos[i]),
{
    let keep = |i: ListenerInfo| i.bind() == p;
    let f = on_port(infos, p);
    assert forall|k: int| 0 <= k < f.len() implies is_bound_on(#[trigger] f[k], p)
        && infos.contains(f[k]) by {
        infos.lemma_filter_pred(keep, k);
        assert(keep(f[k]));
        assert(f.contains(f[k]));
        infos.lemma_filter_contains_rev(keep, f[k]);
    }
    assert forall|i: int| 0 <= i < infos.len() && is_bound_on(#[trigger] infos[i], p) implies
        f.contains(infos[i]) by {
        assert(keep(infos[i]));
        infos.lemma_filter_contains(keep, i);
    }
}

proof fn lemma_first_on(infos: Seq<ListenerInfo>, p: u16, k: int)
    requires
        is_first_on(infos, p, k),
    ensures
        on_port(infos, p).len() > 0,
        on_port(infos, p)[0] == infos[k],
    decreases infos.len(),
{
    reveal(Seq::filter);
    let d = infos.drop_last();
    let keep = |i: ListenerInfo| i.bind() == p;
    if k < d.len() {
        assert(forall|j: int| 0 <= j < d.len() ==> #[trigger] d[j] == infos[j]);
        lemma_first_on(d, p, k);
        assert(on_port(infos, p)[0] == on_port(d, p)[0]);
    } else {
        assert(d.filter(keep).len() == 0) by {
            if d.filter(keep).len() > 0 {
                d.lemma_filter_pred(keep, 0);
                let x = d.filter(keep)[0];
                assert(keep(x));
                assert(d.filter(keep).contains(x));
                d.lemma_filter_contains_rev(keep, x);
                let j = choose|j: int| 0 <= j < d.len() && d[j] == x;
                assert(infos[j] == x);
            }
        }
        assert(keep(infos[k]));
        assert(infos.last() == infos[k]);
        assert(on_port(infos, p) == d.filter(keep).push(infos[k]));
    }
}

/// A proxy listens on exactly the ports that listeners are bound on and that are not left out, once
/// on each. A port on which HTTPS meets TLS as such takes both; on any other the first listener
/// decides.
pub proof fn ports_are_listened_on_for_their_listeners(
    r: Seq<ListenerSpec>,
    infos: Seq<ListenerInfo>,
    excluded: Set<u16>,
    n: int,
    k: int,
)
    requires
        serves(r, infos, excluded),
        0 <= n < r.len(),
        is_first_on(infos, r[n].port, k),
    ensures
        !excluded.contains(r[n].port),
        forall|m: int| 0 <= m < r.len() && m != n ==> (#[trigger] r[m]).port != r[n].port,
        (takes_tls(infos[k]) && https_on(infos, r[n].port)) || (takes_https(infos[k]) && tls_on(
            infos,
            r[n].port,
        )) ==> r[n].protocol is TlsHybrid,
        !(takes_tls(infos[k]) && https_on(infos, r[n].port)) && !(takes_https(infos[k]) && tls_on(
            infos,
            r[n].port,
        )) ==> takes(infos[k], r[n].protocol),
{
    let p = r[n].port;
    let f = on_port(infos, p);
    assert(has_port(r, p));
    lemma_on_port(infos, p);
    lemma_first_on(infos, p, k);
    lemma_takes(infos[k]);
    assert(r[n].protocol == shared_protocol(f));
    assert(some_takes(f, ListenerProtocol::Https) <==> https_on(infos, p)) by {
        if some_takes(f, ListenerProtocol::Https) {
            let i = choose|i: int|
                0 <= i < f.len() && protocol_for((#[trigger] f[i]).readiness)
                    == ListenerProtocol::Https;
            assert(infos.contains(f[i]));
            let j = choose|j: int| 0 <= j < infos.len() && infos[j] == f[i];
            assert(is_bound_on(infos[j], p));
            lemma_takes(infos[j]);
        }
        if https_on(infos, p) {
            let j = choose|j: int|
                0 <= j < infos.len() && is_bound_on(#[trigger] infos[j], p) && takes_https(
                    infos[j],
                );
            assert(f.contains(infos[j]));
            let i = choose|i: int| 0 <= i < f.len() && f[i] == infos[j];
            lemma_takes(f[i]);
            assert(protocol_for(f[i].readiness) == ListenerProtocol::Https);
        }
    }
    assert(some_takes(f, ListenerProtocol::TlsL4) <==> tls_on(infos, p)) by {
        if some_takes(f, ListenerProtocol::TlsL4) {
            let i = choose|i: int|
                0 <= i < f.len() && protocol_for((#[trigger] f[i]).readiness)
                    == ListenerProtocol::TlsL4;
            assert(infos.contains(f[i]));
            let j = choose|j: int| 0 <= j < infos.len() && infos[j] == f[i];
            assert(is_bound_on(infos[j], p));
            lemma_takes(infos[j]);
        }
        if tls_on(infos, p) {
            let j = choose|j: int|
                0 <= j < infos.len() && is_bound_on(#[trigger] infos[j], p) && takes_tls(infos[j]);
            assert(f.contains(infos[j]));
            let i = choose|i: int| 0 <= i < f.len() && f[i] == infos[j];
            lemma_takes(f[i]);
            assert(protocol_for(f[i].readiness) == ListenerProtocol::TlsL4);
        }
    }
}

/// A port is listened on exactly if some listener is bound on it and it is not left out.
pub proof fn every_wanted_port_is_listened_on(
    r: Seq<ListenerSpec>,
    infos: Seq<ListenerInfo>,
    excluded: Set<u16>,
    p: u16,
)
    requires
        serves(r, infos, excluded),
    ensures
        (exists|n: int| 0 <= n < r.len() && (#[trigger] r[n]).port == p) <==> !excluded.contains(p)
            && exists|i: int| 0 <= i < infos.len() && is_bound_on(#[trigger] infos[i], p),
{
    lemma_on_port(infos, p);
    let f = on_port(infos, p);
    assert(has_port(r, p) <==> exists|n: int| 0 <= n < r.len() && (#[trigger] r[n]).port == p);
    assert(f.len() > 0 <==> exists|i: int|
        0 <= i < infos.len() && is_bound_on(#[trigger] infos[i], p)) by {
        if f.len() > 0 {
            assert(infos.contains(f[0]));
            let j = choose|j: int| 0 <= j < infos.len() && infos[j] == f[0];
            assert(is_bound_on(f[0], p));
            assert(is_bound_on(infos[j], p));
        }
        if exists|i: int| 0 <= i < infos.len() && is_bound_on(#[trigger] infos[i], p) {
            let i = choose|i: int| 0 <= i < infos.len() && is_bound_on(#[trigger] infos[i], p);
            assert(f.contains(infos[i]));
        }
    }
}

/// Among listeners that share a port, the first that says how proxies are to be trusted decides
/// that; where none says so, nothing is expected of proxies.
pub proof fn first_proxy_setting_counts(infos: Seq<ListenerInfo>, k: int)
    requires
        0 <= k <= infos.len(),
        forall|j: int| 0 <= j < k ==> (#[trigger] infos[j]).proxy_protocol is None,
        k < infos.len() ==> infos[k].proxy_protocol is Some,
    ensures
        k == infos.len() ==> shared_proxy(infos) is None,
        k < infos.len() ==> shared_proxy(infos) == Some(infos[k].proxy_protocol->0@),
    decreases infos.len(),
{
    if infos.len() > 0 {
        let d = infos.drop_last();
        assert(forall|j: int| 0 <= j < d.len() ==> #[trigger] d[j] == infos[j]);
        if k < d.len() {
            first_proxy_setting_counts(d, k);
        } else {
            first_proxy_setting_counts(d, d.len() as int);
            if k == infos.len() {
                assert(infos[infos.len() - 1].proxy_protocol is None);
            }
        }
    }
}

/// The listener at `k` is the first, of those that are bound on the port, that says how proxies
/// are to be trusted.
pub open spec fn is_first_to_say(infos: Seq<ListenerInfo>, p: u16, k: int) -> bool {
    &&& 0 <= k < infos.len()
    &&& is_bound_on(infos[k], p)
    &&& infos[k].proxy_protocol is Some
    &&& forall|j: int|
        0 <= j < k && is_bound_on(#[trigger] infos[j], p) ==> infos[j].proxy_protocol is None
}

proof fn lemma_proxy_on(infos: Seq<ListenerInfo>, p: u16, k: int)
    requires
        0 <= k <= infos.len(),
        k < infos.len() ==> is_first_to_say(infos, p, k),
        k == infos.len() ==> forall|j: int|
            0 <= j < k && is_bound_on(#[trigger] infos[j], p) ==> infos[j].proxy_protocol is None,
    ensures
        k < infos.len() ==> shared_proxy(on_port(infos, p)) == Some(infos[k].proxy_protocol->0@),
        k == infos.len() ==> shared_proxy(on_port(infos, p)) is None,
    decreases infos.len(),
{
    reveal(Seq::filter);
    if infos.len() > 0 {
        let d = infos.drop_last();
        let n = d.len() as int;
        assert(forall|j: int| 0 <= j < n ==> #[trigger] d[j] == infos[j]);
        let m = if k < n {
            k
        } else {
            n
        };
        lemma_proxy_on(d, p, m);
        let f = on_port(d, p);
        assert(f.push(infos[n]).drop_last() =~= f);
        if is_bound_on(infos[n], p) {
            assert(on_port(infos, p) == f.push(infos[n]));
        } else {
            assert(on_port(infos, p) == f);
        }
    }
}

/// On each port proxies are trusted as the first listener that is bound there says, and nothing is
/// expected of them where none of these says anything.
pub proof fn proxies_are_trusted_as_listeners_say(
    r: Seq<ListenerSpec>,
    infos: Seq<ListenerInfo>,
    excluded: Set<u16>,
    n: int,
    k: int,
)
    requires
        serves(r, infos, excluded),
        0 <= n < r.len(),
        0 <= k <= infos.len(),
        k < infos.len() ==> is_first_to_say(infos, r[n].port, k),
        k == infos.len() ==> forall|j: int|
            0 <= j < k && is_bound_on(#[trigger] infos[j], r[n].port) ==> infos[j].proxy_protocol
                is None,
    ensures
        k == infos.len() ==> r[n].proxy_protocol is None,
        k < infos.len() ==> r[n].proxy_protocol is Some && r[n].proxy_protocol->0.enabled
            == infos[k].proxy_protocol->0.enabled && r[n].proxy_protocol->0@
            == infos[k].proxy_protocol->0@,
{
    lemma_proxy_on(infos, r[n].port, k);
}

/// The port that clients see, for a port that listeners are bound on, is that of the last of them.
pub proof fn last_listener_names_the_seen_port(infos: Seq<ListenerInfo>, i: int)
    requires
        0 <= i < infos.len(),
        forall|j: int|
            i < j < infos.len() ==> (#[trigger] infos[j]).bind() != infos[i].bind(),
    ensures
        is_bound_on(infos[i], infos[i].bind()),
        seen_ports(infos).contains_key(infos[i].bind()),
        seen_ports(infos)[infos[i].bind()] == infos[i].port,
    decreases infos.len(),
{
    let d = infos.drop_last();
    if i < d.len() {
        assert(infos[d.len() as int].bind() != infos[i].bind());
        assert(forall|j: int| 0 <= j < d.len() ==> #[trigger] d[j] == infos[j]);
        last_listener_names_the_seen_port(d, i);
    }
}

/// The listeners that are looked at are those of all known Gateways, whether their own or those of
/// their sets.
pub proof fn all_known_listeners_are_looked_at(
    keys: Seq<(Seq<char>, Seq<char>)>,
    health: Map<(Seq<char>, Seq<char>), GatewayListenerStatus>,
    info: ListenerInfo,
)
    requires
        enumerates(keys, health.dom()),
    ensures
        infos_of(keys, health).contains(info) <==> exists|k: (Seq<char>, Seq<char>), i: int|
            #![trigger health[k].listeners@[i]]
            health.contains_key(k) && 0 <= i < health[k].listeners@.len()
                && health[k].listeners@[i].info == info,
{
    lemma_infos(keys, health, info);
    if infos_of(keys, health).contains(info) {
        let (n, i) = choose|n: int, i: int|
            #![trigger health[keys[n]].listeners@[i]]
            0 <= n < keys.len() && 0 <= i < health[keys[n]].listeners@.len()
                && health[keys[n]].listeners@[i].info == info;
        assert(keys.contains(keys[n]));
        assert(health.dom().contains(keys[n]));
    }
    if exists|k: (Seq<char>, Seq<char>), i: int|
        #![trigger health[k].listeners@[i]]
        health.contains_key(k) && 0 <= i < health[k].listeners@.len()
            && health[k].listeners@[i].info == info {
        let (k, i) = choose|k: (Seq<char>, Seq<char>), i: int|
            #![trigger health[k].listeners@[i]]
            health.contains_key(k) && 0 <= i < health[k].listeners@.len()
                && health[k].listeners@[i].info == info;
        assert(health.dom().contains(k));
        assert(keys.contains(k));
        let n = choose|n: int| 0 <= n < keys.len() && keys[n] == k;
        assert(health[keys[n]].listeners@[i].info == info);
    }
}

proof fn lemma_infos(
    keys: Seq<(Seq<char>, Seq<char>)>,
    health: Map<(Seq<char>, Seq<char>), GatewayListenerStatus>,
    info: ListenerInfo,
)
    ensures
        infos_of(keys, health).contains(info) <==> exists|n: int, i: int|
            #![trigger health[keys[n]].listeners@[i]]
            0 <= n < keys.len() && 0 <= i < health[keys[n]].listeners@.len()
                && health[keys[n]].listeners@[i].info == info,
    decreases keys.len(),
{
    if keys.len() > 0 {
        let d = keys.drop_last();
        let n = d.len() as int;
        lemma_infos(d, health, info);
        let head = infos_of(d, health);
        let tail = entry_infos(health[keys.last()]);
        let all = infos_of(keys, health);
        assert(all == head + tail);
        assert(forall|j: int| 0 <= j < n ==> #[trigger] d[j] == keys[j]);
        if all.contains(info) {
            let m = choose|m: int| 0 <= m < all.len() && all[m] == info;
            if m < head.len() {
                assert(head[m] == info);
                let (a, i) = choose|a: int, i: int|
                    #![trigger health[d[a]].listeners@[i]]
                    0 <= a < d.len() && 0 <= i < health[d[a]].listeners@.len()
                        && health[d[a]].listeners@[i].info == info;
                assert(health[keys[a]].listeners@[i].info == info);
            } else {
                assert(tail[m - head.len()] == info);
                assert(health[keys[n]].listeners@[m - head.len()].info == info);
            }
        }
        if exists|a: int, i: int|
            #![trigger health[keys[a]].listeners@[i]]
            0 <= a < keys.len() && 0 <= i < health[keys[a]].listeners@.len()
                && health[keys[a]].listeners@[i].info == info {
            let (a, i) = choose|a: int, i: int|
                #![trigger health[keys[a]].listeners@[i]]
                0 <= a < keys.len() && 0 <= i < health[keys[a]].listeners@.len()
                    && health[keys[a]].listeners@[i].info == info;
            if a < n {
                assert(health[d[a]].listeners@[i].info == info);
                assert(head.contains(info));
                let m = choose|m: int| 0 <= m < head.len() && head[m] == info;
                assert(all[m] == info);
            } else {
                assert(tail[i] == info);
                assert(all[head.len() + i] == info);
            }
        }
    }
}

/// The listener is for HTTP, or for HTTP over TLS.
pub open spec fn is_for_http(l: Listener) -> bool {
    l.protocol@ == "HTTP"@ || l.protocol@ == "HTTPS"@ || l.protocol@ == "TLS"@
}

/// What is found is made of the listeners: each port that is found is that of a listener for HTTP,
/// plain for `HTTP` and encrypted for `HTTPS` and `TLS`, and the first listener on that port.
pub proof fn found_ports_are_those_of_listeners(ls: Seq<Listener>, bound: Set<u16>, n: int)
    requires
        0 <= n < found_specs(ls, bound).len(),
    ensures
        ({
            let r = found_specs(ls, bound)[n];
            &&& r.proxy_protocol is None
            &&& exists|i: int|
                0 <= i < ls.len() && (#[trigger] ls[i]).port as u16 == r.port && is_for_http(ls[i])
                    && (r.protocol is Http <==> ls[i].protocol@ == "HTTP"@) && (r.protocol
                    is Https <==> ls[i].protocol@ != "HTTP"@) && forall|j: int|
                    0 <= j < i ==> (#[trigger] ls[j]).port as u16 != r.port
        }),
    decreases ls.len(),
{
    reveal_strlit("HTTP");
    reveal_strlit("HTTPS");
    reveal_strlit("TLS");
    assert("HTTP"@.len() == 4 && "HTTPS"@.len() == 5 && "TLS"@.len() == 3);
    let d = ls.drop_last();
    let m = d.len() as int;
    let rest = found_specs(d, bound);
    assert(forall|j: int| 0 <= j < m ==> #[trigger] d[j] == ls[j]);
    if n < rest.len() {
        found_ports_are_those_of_listeners(d, bound, n);
        let r = rest[n];
        assert(found_specs(ls, bound)[n] == r);
        let i = choose|i: int|
            0 <= i < d.len() && (#[trigger] d[i]).port as u16 == r.port && is_for_http(d[i])
                && (r.protocol is Http <==> d[i].protocol@ == "HTTP"@) && (r.protocol is Https
                <==> d[i].protocol@ != "HTTP"@) && forall|j: int|
                0 <= j < i ==> (#[trigger] d[j]).port as u16 != r.port;
        assert(ls[i] == d[i]);
        assert forall|j: int| 0 <= j < i implies (#[trigger] ls[j]).port as u16 != r.port by {
            assert(d[j].port as u16 != r.port);
        }
    } else {
        let r = found_specs(ls, bound)[n];
        assert(is_fresh(ls, m, bound));
        assert(ls[m].port as u16 == r.port);
        assert forall|j: int| 0 <= j < m implies (#[trigger] ls[j]).port as u16 != r.port by {
            assert(low_port(ls[j]) != low_port(ls[m]));
        }
    }
}

/// The port of the first listener on it is found, if the listener is for HTTP and the port is not
/// bound already.
pub proof fn unbound_ports_of_listeners_are_found(ls: Seq<Listener>, bound: Set<u16>, i: int)
    requires
        0 <= i < ls.len(),
        is_for_http(ls[i]),
        !bound.contains(ls[i].port as u16),
        forall|j: int| 0 <= j < i ==> (#[trigger] ls[j]).port as u16 != ls[i].port as u16,
    ensures
        exists|n: int|
            0 <= n < found_specs(ls, bound).len() && (#[trigger] found_specs(ls, bound)[n]).port
                == ls[i].port as u16,
    decreases ls.len(),
{
    let d = ls.drop_last();
    let m = d.len() as int;
    let rest = found_specs(d, bound);
    assert(forall|j: int| 0 <= j < m ==> #[trigger] d[j] == ls[j]);
    if i < m {
        assert forall|j: int| 0 <= j < i implies (#[trigger] d[j]).port as u16
            != d[i].port as u16 by {
            assert(ls[j].port as u16 != ls[i].port as u16);
        }
        unbound_ports_of_listeners_are_found(d, bound, i);
        let n = choose|n: int|
            0 <= n < rest.len() && (#[trigger] rest[n]).port == d[i].port as u16;
        assert(found_specs(ls, bound)[n] == rest[n]);
    } else {
        assert(spec_protocol(ls[m].protocol@) is Some);
        assert(is_fresh(ls, m, bound)) by {
            assert forall|j: int| 0 <= j < m implies low_port(#[trigger] ls[j]) != low_port(
                ls[m],
            ) by {
                assert(ls[j].port as u16 != ls[i].port as u16);
            }
        }
        assert(found_specs(ls, bound)[rest.len() as int].port == ls[i].port as u16);
    }
}

/// The listeners of the Gateways of the given classes are gathered, and those of no other Gateway.
pub proof fn listeners_of_owned_gateways_are_gathered(
    gateways: Seq<Gateway>,
    classes: Set<Seq<char>>,
    l: Listener,
)
    ensures
        owned_listeners(gateways, classes).contains(l) <==> exists|n: int, i: int|
            #![trigger gateways[n].spec.listeners@[i]]
            0 <= n < gateways.len() && classes.contains(gateways[n].spec.gateway_class_name@)
                && 0 <= i < gateways[n].spec.listeners@.len() && gateways[n].spec.listeners@[i]
                == l,
    decreases gateways.len(),
{
    if gateways.len() > 0 {
        let d = gateways.drop_last();
        let m = d.len() as int;
        listeners_of_owned_gateways_are_gathered(d, classes, l);
        assert(forall|j: int| 0 <= j < m ==> #[trigger] d[j] == gateways[j]);
        let head = owned_listeners(d, classes);
        let all = owned_listeners(gateways, classes);
        let tail = gateways[m].spec.listeners@;
        if all.contains(l) {
            let k = choose|k: int| 0 <= k < all.len() && all[k] == l;
            if k < head.len() {
                assert(head[k] == l);
                let (n, i) = choose|n: int, i: int|
                    #![trigger d[n].spec.listeners@[i]]
                    0 <= n < d.len() && classes.contains(d[n].spec.gateway_class_name@) && 0 <= i
                        < d[n].spec.listeners@.len() && d[n].spec.listeners@[i] == l;
                assert(gateways[n].spec.listeners@[i] == l);
            } else {
                assert(gateways[m].spec.listeners@[k - head.len()] == l);
            }
        }
        if exists|n: int, i: int|
            #![trigger gateways[n].spec.listeners@[i]]
            0 <= n < gateways.len() && classes.contains(gateways[n].spec.gateway_class_name@)
                && 0 <= i < gateways[n].spec.listeners@.len() && gateways[n].spec.listeners@[i]
                == l {
            let (n, i) = choose|n: int, i: int|
                #![trigger gateways[n].spec.listeners@[i]]
                0 <= n < gateways.len() && classes.contains(gateways[n].spec.gateway_class_name@)
                    && 0 <= i < gateways[n].spec.listeners@.len()
                    && gateways[n].spec.listeners@[i] == l;
            if n < m {
                assert(d[n].spec.listeners@[i] == l);
                let k = choose|k: int| 0 <= k < head.len() && head[k] == l;
                assert(all[k] == l);
            } else {
                assert(all[head.len() + i] == l);
            }
        }
    }
}

/// For Ingress traffic a proxy listens on the two ports that are given, plain on one and encrypted
/// on the other, and on none where Ingress is switched off.
pub proof fn ingress_listens_on_its_ports(ports: IngressPorts, disabled: bool)
    ensures
        ({
            let r = ingress_specs(ports, disabled);
            &&& disabled ==> r.len() == 0
            &&& forall|i: int|
                0 <= i < r.len() ==> (#[trigger] r[i]).proxy_protocol is None && ((r[i].protocol
                    is Http && ports.http == Some(r[i].port)) || (r[i].protocol is Https
                    && ports.https == Some(r[i].port)))
            &&& !disabled ==> r.len() == (if ports.http is Some {
                1int
            } else {
                0
            }) + (if ports.https is Some {
                1int
            } else {
                0
            })
            &&& !disabled && ports.http is Some ==> r[0].protocol is Http
            &&& !disabled && ports.https is Some ==> r[r.len() - 1].protocol is Https
        }),
{
}

/// The ports that are wanted are those of the command line and those of the Gateways; a successor
/// is lacking exactly if one of them is not bound.
pub proof fn wanted_ports_come_from_both_sides(
    r: HotReloader,
    gateways: Seq<Vec<u16>>,
    p: u16,
)
    ensures
        wanted(r.cli_ports@, gateways).contains(p) <==> r.cli_ports@.contains(p) || exists|
            i: int,
            j: int,
        |
            #![trigger gateways[i]@[j]]
            0 <= i < gateways.len() && 0 <= j < gateways[i]@.len() && gateways[i]@[j] == p,
        r.lacks(gateways) <==> exists|q: u16| #[trigger]
            wanted(r.cli_ports@, gateways).contains(q) && !r.currently_bound@.contains(q),
{
    if in_some_list(gateways, p) {
        let i = choose|i: int| 0 <= i < gateways.len() && (#[trigger] gateways[i])@.contains(p);
        let j = choose|j: int| 0 <= j < gateways[i]@.len() && gateways[i]@[j] == p;
        assert(gateways[i]@[j] == p);
    }
    if exists|i: int, j: int|
        #![trigger gateways[i]@[j]]
        0 <= i < gateways.len() && 0 <= j < gateways[i]@.len() && gateways[i]@[j] == p {
        let (i, j) = choose|i: int, j: int|
            #![trigger gateways[i]@[j]]
            0 <= i < gateways.len() && 0 <= j < gateways[i]@.len() && gateways[i]@[j] == p;
        assert(gateways[i]@.contains(p));
    }
}

/// A change is acted on once two seconds have passed without another; only then are the ports
/// looked at. While ports are looked at or a successor starts, a change waits for the outcome.
pub proof fn changes_are_acted_on_when_quiet(state: ReloadState, event: ReloadEvent)
    ensures
        reload_next(state, event).1 is CheckPorts <==> state is Settling && event is Quiet,
        reload_next(state, event).0 is Checking && !(state is Checking) ==> reload_next(
            state,
            event,
        ).1 is CheckPorts,
        event is Changed && (state is Idle || state is Settling) ==> reload_next(state, event).0
            is Settling && reload_next(state, event).1 is AwaitQuiet && reload_next(
            state,
            event,
        ).1->AwaitQuiet_0.nanos == 2_000_000_000,
        event is Changed && (state is Checking || state is Starting) ==> reload_next(
            state,
            event,
        ) == (state, ReloadAction::AwaitOutcome),
        event is Shutdown ==> reload_next(state, event).1 is Stop,
        state is Replaced ==> reload_next(state, event).1 is Stop && reload_next(state, event).0
            is Replaced,
        reload_next(state, event).1 is StartChild <==> state is Checking && event == (
        ReloadEvent::Checked { missing: true }),
{
}

} // verus!
