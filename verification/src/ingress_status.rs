//! The load-balancer status of an Ingress.

use vstd::prelude::*;

use crate::config::{IngressPorts, StatusAddress};
use crate::json::{arr, items, number, text, Json, JsonView, Object};
use crate::resources::ObjectMeta;
use crate::text::{opt_is, opt_text};

verus! {

/// One entry of a load-balancer status.
#[derive(Debug, Clone, Default, PartialEq, Eq)]
pub struct LoadBalancerEntry {
    /// IP address.
    pub ip: Option<String>,
    /// Host name.
    pub hostname: Option<String>,
    /// Port numbers.
    pub ports: Option<Vec<i32>>,
}

/// An Ingress.
#[derive(Debug, Clone, Default, PartialEq, Eq)]
pub struct Ingress {
    /// Metadata.
    pub metadata: ObjectMeta,
    /// The class that it claims, if any.
    pub claimed_class: Option<String>,
    /// `status.loadBalancer.ingress`.
    pub load_balancer: Option<Vec<LoadBalancerEntry>>,
}

/// The port numbers to publish: those of HTTP and HTTPS in ascending order.
pub open spec fn published_ports(ports: IngressPorts) -> Seq<i32> {
    match (ports.http, ports.https) {
        (Some(p), Some(q)) => if p <= q {
            seq![p as i32, q as i32]
        } else {
            seq![q as i32, p as i32]
        },
        (Some(p), None) => seq![p as i32],
        (None, Some(q)) => seq![q as i32],
        (None, None) => Seq::empty(),
    }
}

/// The published port numbers ascend, and each configured port is there once for HTTP and once for
/// HTTPS.
pub proof fn published_ports_ascend(ports: IngressPorts)
    ensures
        forall|i: int, j: int|
            0 <= i < j < published_ports(ports).len() ==> published_ports(ports)[i]
                <= published_ports(ports)[j],
        published_ports(ports).len() == (if ports.http is Some {
            1int
        } else {
            0
        }) + (if ports.https is Some {
            1int
        } else {
            0
        }),
        forall|n: i32| #[trigger]
            published_ports(ports).contains(n) <==> ports.http is Some && ports.http->0 == n
                || ports.https is Some && ports.https->0 == n,
{
    let s = published_ports(ports);
    assert forall|n: i32| #[trigger] s.contains(n) <==> ports.http is Some && ports.http->0 == n
        || ports.https is Some && ports.https->0 == n by {
        if ports.http is Some && ports.http->0 == n || ports.https is Some && ports.https->0 == n {
            assert(s[0] == n || s[1] == n);
        }
    }
}

/// The port numbers to publish: those of HTTP and HTTPS in ascending order.
pub fn port_numbers(ports: IngressPorts) -> (r: Vec<i32>)
    ensures
        r@ == published_ports(ports),
{
    let mut out: Vec<i32> = Vec::new();
    match (ports.http, ports.https) {
        (Some(p), Some(q)) => if p <= q {
            out.push(p as i32);
            out.push(q as i32);
        } else {
            out.push(q as i32);
            out.push(p as i32);
        },
        (Some(p), None) => {
            out.push(p as i32);
        },
        (None, Some(q)) => {
            out.push(q as i32);
        },
        (None, None) => {},
    }
    assert(out@ =~= published_ports(ports));
    out
}

/// The port numbers of an entry; none where it has none.
pub open spec fn ports_of(p: Option<Vec<i32>>) -> Seq<i32> {
    match p {
        Some(v) => v@,
        None => Seq::empty(),
    }
}

/// Whether the published port numbers are the wanted ones.
pub fn ports_already_match(current: &Option<Vec<i32>>, ports: IngressPorts) -> (r: bool)
    ensures
        r == (ports_of(*current) == published_ports(ports)),
{
    let want = port_numbers(ports);
    let none: Vec<i32> = Vec::new();
    let have: &Vec<i32> = match current {
        Some(v) => v,
        None => &none,
    };
    assert(have@ =~= ports_of(*current));
    if have.len() != want.len() {
        return false;
    }
    let mut i: usize = 0;
    while i < have.len()
        invariant
            have@ == ports_of(*current),
            want@ == published_ports(ports),
            have.len() == want.len(),
            i <= have.len(),
            forall|j: int| 0 <= j < i ==> have@[j] == want@[j],
        decreases have.len() - i,
    {
        if have[i] != want[i] {
            return false;
        }
        i = i + 1;
    }
    assert(have@ =~= want@);
    true
}

/// The first entry already publishes the address and the ports.
pub open spec fn ingress_current(ing: Ingress, addr: StatusAddress, ports: IngressPorts) -> bool {
    &&& ing.load_balancer is Some
    &&& ing.load_balancer->0@.len() > 0
    &&& ({
        let e = ing.load_balancer->0@[0];
        &&& ports_of(e.ports) == published_ports(ports)
        &&& match addr {
            StatusAddress::Ip(ip) => opt_text(e.ip) == Some(ip@),
            StatusAddress::Hostname(h) => opt_text(e.hostname) == Some(h@),
        }
    })
}

/// Whether the first entry already publishes the address and the ports.
pub fn ingress_lb_already_matches(
    ingress: &Ingress,
    addr: &StatusAddress,
    ports: IngressPorts,
) -> (r: bool)
    ensures
        r == ingress_current(*ingress, *addr, ports),
{
    match &ingress.load_balancer {
        Some(entries) => {
            if entries.len() == 0 {
                return false;
            }
            let e = &entries[0];
            match addr {
                StatusAddress::Ip(ip) => opt_is(&e.ip, ip.as_str()) && ports_already_match(
                    &e.ports,
                    ports,
                ),
                StatusAddress::Hostname(h) => opt_is(&e.hostname, h.as_str())
                    && ports_already_match(&e.ports, ports),
            }
        },
        None => false,
    }
}

/// A published port in JSON.
pub open spec fn port_json(p: i32) -> JsonView {
    JsonView::Obj(seq![("port"@, JsonView::Int(p as int)), ("protocol"@, JsonView::Str("TCP"@))])
}

/// The published ports in JSON.
pub open spec fn ports_json(ports: IngressPorts) -> Seq<JsonView> {
    published_ports(ports).map_values(|p: i32| port_json(p))
}

/// The entry to publish in JSON, without ports where there are none.
pub open spec fn entry_json(addr: StatusAddress, ports: IngressPorts) -> JsonView {
    let base = match addr {
        StatusAddress::Ip(ip) => seq![("ip"@, JsonView::Str(ip@))],
        StatusAddress::Hostname(h) => seq![("hostname"@, JsonView::Str(h@))],
    };
    JsonView::Obj(
        if published_ports(ports).len() == 0 {
            base
        } else {
            base.push(("ports"@, JsonView::Arr(ports_json(ports))))
        },
    )
}

/// A load-balancer status with one entry.
pub open spec fn ingress_patch(entry: JsonView) -> JsonView {
    JsonView::Obj(
        seq![
            (
                "status"@,
                JsonView::Obj(
                    seq![
                        (
                            "loadBalancer"@,
                            JsonView::Obj(seq![("ingress"@, JsonView::Arr(seq![entry]))]),
                        ),
                    ],
                ),
            ),
        ],
    )
}

/// A load-balancer status with one entry.
pub fn ingress_patch_of(entry: Json) -> (r: Json)
    ensures
        r@ == ingress_patch(entry@),
{
    let mut list: Vec<Json> = Vec::new();
    list.push(entry);
    assert(items(list@) =~= seq![entry@]);
    let lb = Object::new().with("ingress", arr(list));
    let status = Object::new().with("loadBalancer", lb.done());
    Object::new().with("status", status.done()).done()
}

/// The ports of the entry to publish.
pub fn port_status_json(ports: IngressPorts) -> (r: Vec<Json>)
    ensures
        items(r@) == ports_json(ports),
{
    let numbers = port_numbers(ports);
    let mut out: Vec<Json> = Vec::new();
    let mut i: usize = 0;
    while i < numbers.len()
        invariant
            i <= numbers.len(),
            out.len() == i,
            forall|j: int| 0 <= j < i ==> (#[trigger] out@[j])@ == port_json(numbers@[j]),
        decreases numbers.len() - i,
    {
        let o = Object::new().with("port", number(numbers[i] as i64)).with("protocol", text("TCP"));
        let ghost fields = o@;
        let j = o.done();
        assert(port_json(numbers@[i as int])->Obj_0 =~= fields);
        out.push(j);
        i = i + 1;
    }
    assert(items(out@) =~= ports_json(ports));
    out
}

/// The patch that publishes the address and the ports.
pub fn build_ingress_status_patch(addr: &StatusAddress, ports: IngressPorts) -> (r: Json)
    ensures
        r@ == ingress_patch(entry_json(*addr, ports)),
{
    let port_statuses = port_status_json(ports);
    let base = match addr {
        StatusAddress::Ip(ip) => Object::new().with("ip", text(ip.as_str())),
        StatusAddress::Hostname(h) => Object::new().with("hostname", text(h.as_str())),
    };
    assert(items(port_statuses@).len() == published_ports(ports).len());
    let o = if port_statuses.len() == 0 {
        base
    } else {
        base.with("ports", arr(port_statuses))
    };
    let ghost fields = o@;
    let entry = o.done();
    assert(entry_json(*addr, ports)->Obj_0 =~= fields);
    ingress_patch_of(entry)
}

/// `e` is the entry that the patch writes.
pub open spec fn publishes(e: LoadBalancerEntry, addr: StatusAddress, ports: IngressPorts) -> bool {
    &&& ports_of(e.ports) == published_ports(ports)
    &&& opt_text(e.ip) == match addr {
        StatusAddress::Ip(ip) => Some(ip@),
        StatusAddress::Hostname(_) => None,
    }
    &&& opt_text(e.hostname) == match addr {
        StatusAddress::Ip(_) => None,
        StatusAddress::Hostname(h) => Some(h@),
    }
}

/// Once the patch has been applied there is nothing left to patch.
pub proof fn ingress_patch_settles(ing: Ingress, addr: StatusAddress, ports: IngressPorts)
    requires
        ing.load_balancer is Some,
        ing.load_balancer->0@.len() == 1,
        publishes(ing.load_balancer->0@[0], addr, ports),
    ensures
        ingress_current(ing, addr, ports),
{
}

} // verus!
