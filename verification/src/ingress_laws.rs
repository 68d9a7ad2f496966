//! What is told of an Ingress.

use vstd::prelude::*;

use crate::config::{IngressPorts, StatusAddress};
use crate::ingress_events::{told, IngressEvent};
use crate::ingress_status::{
    entry_json, ingress_current, ingress_patch, port_json, ports_json, published_ports,
    published_ports_ascend, Ingress,
};
use crate::json::{lemma_member_one, lemma_member_two, JsonView};

verus! {

/// The ports are those of plain and of encrypted traffic, as far as there are any, in ascending
/// order.
pub open spec fn are_the_ports(p: Seq<i32>, ports: IngressPorts) -> bool {
    &&& p.len() == (if ports.http is Some {
        1int
    } else {
        0
    }) + (if ports.https is Some {
        1int
    } else {
        0
    })
    &&& ports.http is Some ==> p.contains(ports.http->0 as i32)
    &&& ports.https is Some ==> p.contains(ports.https->0 as i32)
    &&& forall|i: int, j: int| 0 <= i < j < p.len() ==> #[trigger] p[i] <= #[trigger] p[j]
    &&& forall|i: int|
        0 <= i < p.len() ==> (ports.http is Some && #[trigger] p[i] == ports.http->0) || (
        ports.https is Some && p[i] == ports.https->0)
}

/// The patch of an Ingress publishes one entry: the address, as an IP address or as a host name,
/// and under `ports` each port that is listened on, as TCP.
pub proof fn ingress_patch_publishes_the_address(addr: StatusAddress, ports: IngressPorts)
    ensures
        ({
            let e = ingress_patch(entry_json(addr, ports)).at("status"@).at("loadBalancer"@).at(
                "ingress"@,
            ).elements();
            let p = e[0].at("ports"@).elements();
            let n = (if ports.http is Some {
                1int
            } else {
                0
            }) + (if ports.https is Some {
                1int
            } else {
                0
            });
            &&& e.len() == 1
            &&& addr is Ip ==> e[0].at("ip"@) == JsonView::Str(addr->Ip_0@) && e[0].at(
                "hostname"@,
            ) is Null
            &&& addr is Hostname ==> e[0].at("hostname"@) == JsonView::Str(addr->Hostname_0@)
                && e[0].at("ip"@) is Null
            &&& p.len() == n
            &&& n == 0 ==> e[0].at("ports"@) is Null
            &&& forall|i: int|
                0 <= i < p.len() ==> (#[trigger] p[i]).at("protocol"@) == JsonView::Str("TCP"@)
                    && p[i].at("port"@) is Int && ((ports.http is Some && p[i].at("port"@)->Int_0
                    == ports.http->0) || (ports.https is Some && p[i].at("port"@)->Int_0
                    == ports.https->0))
            &&& ports.http is Some && ports.https is Some ==> p[0].at("port"@)->Int_0 + p[1].at(
                "port"@,
            )->Int_0 == ports.http->0 + ports.https->0 && p[0].at("port"@)->Int_0 <= p[1].at(
                "port"@,
            )->Int_0
        }),
{
    reveal_strlit("ip");
    reveal_strlit("hostname");
    reveal_strlit("ports");
    reveal_strlit("port");
    reveal_strlit("protocol");
    assert("ip"@.len() == 2 && "hostname"@.len() == 8 && "ports"@.len() == 5 && "port"@.len() == 4
        && "protocol"@.len() == 8);
    published_ports_ascend(ports);
    let list = published_ports(ports);
    let entry = entry_json(addr, ports);
    let inner = ("ingress"@, JsonView::Arr(seq![entry]));
    let middle = ("loadBalancer"@, JsonView::Obj(seq![inner]));
    lemma_member_one(inner, "ingress"@);
    lemma_member_one(middle, "loadBalancer"@);
    lemma_member_one(("status"@, JsonView::Obj(seq![middle])), "status"@);
    let x = if addr is Ip {
        ("ip"@, JsonView::Str(addr->Ip_0@))
    } else {
        ("hostname"@, JsonView::Str(addr->Hostname_0@))
    };
    let y = ("ports"@, JsonView::Arr(ports_json(ports)));
    assert(seq![x].push(y) =~= seq![x, y]);
    lemma_member_one(x, "ip"@);
    lemma_member_one(x, "hostname"@);
    lemma_member_one(x, "ports"@);
    lemma_member_two(x, y, "ip"@);
    lemma_member_two(x, y, "hostname"@);
    lemma_member_two(x, y, "ports"@);
    let p = entry.at("ports"@).elements();
    if list.len() > 0 {
        assert forall|i: int| 0 <= i < p.len() implies (#[trigger] p[i]).at("protocol"@)
            == JsonView::Str("TCP"@) && p[i].at("port"@) == JsonView::Int(list[i] as int) by {
            let a = ("port"@, JsonView::Int(list[i] as int));
            let b = ("protocol"@, JsonView::Str("TCP"@));
            lemma_member_two(a, b, "port"@);
            lemma_member_two(a, b, "protocol"@);
            assert(p[i] == port_json(list[i]));
        }
        assert(list.contains(list[0]));
    }
}

/// An Ingress that needs no patch publishes the address in its first entry, and exactly the ports
/// that are listened on, in ascending order.
pub proof fn settled_ingress_publishes_the_address(
    ing: Ingress,
    addr: StatusAddress,
    ports: IngressPorts,
)
    requires
        ingress_current(ing, addr, ports),
    ensures
        ing.load_balancer is Some,
        ing.load_balancer->0@.len() > 0,
        addr is Ip ==> ing.load_balancer->0@[0].ip is Some && ing.load_balancer->0@[0].ip->0@
            == addr->Ip_0@,
        addr is Hostname ==> ing.load_balancer->0@[0].hostname is Some
            && ing.load_balancer->0@[0].hostname->0@ == addr->Hostname_0@,
        are_the_ports(
            if ing.load_balancer->0@[0].ports is Some {
                ing.load_balancer->0@[0].ports->0@
            } else {
                Seq::empty()
            },
            ports,
        ),
{
    published_ports_ascend(ports);
    let p = published_ports(ports);
    assert forall|i: int| 0 <= i < p.len() implies (ports.http is Some && #[trigger] p[i]
        == ports.http->0) || (ports.https is Some && p[i] == ports.https->0) by {
        assert(p.contains(p[i]));
    }
}

/// A lost route and an invalid annotation are told to the Ingress that they are about, each under
/// its reason and with what is needed to find it; nothing else is told.
pub proof fn events_are_told_to_their_ingress(e: IngressEvent)
    ensures
        e is Other <==> told(e) is None,
        e matches IngressEvent::Conflict { namespace, name, winner_route_id, host, path } ==> {
            &&& told(e)->0.namespace == namespace@
            &&& told(e)->0.name == name@
            &&& told(e)->0.reason == "RouteConflict"@
            &&& told(e)->0.note == "Route on host "@ + host@ + " path "@ + path@
                + " is shadowed by "@ + winner_route_id@
        },
        e matches IngressEvent::InvalidAnnotation { namespace, name, annotation, message } ==> {
            &&& told(e)->0.namespace == namespace@
            &&& told(e)->0.name == name@
            &&& told(e)->0.reason == "InvalidAnnotation"@
            &&& told(e)->0.note == annotation@ + ": "@ + message@
        },
{
}

} // verus!
