//! What is read of the Service of a Gateway and of the shared proxies.

use vstd::prelude::*;

use crate::gateway_reconcile::PatchReply;
use crate::json::{lemma_member_one, member, JsonView};
use crate::leader_label::{
    is_other, label_patch_json, labels_settled, names_of, own_settled, stale_names, wait_nanos,
};
use crate::ports::listing;
use crate::shared_vip::{
    bind_detail, entry_address, first_address, internal_ports, lagging, lags, pool, port_texts,
    targets, vip_of, vip_read, NodeEntry, Service, ServiceIngress, SharedVip, TargetPort,
    VipAddress,
};
use crate::text::{decimal, joined};

verus! {

/// The entry of a load balancer gives this address: an IP address that can be read, or else, where
/// it has no IP address, a host name.
pub open spec fn gives(e: ServiceIngress, type_: Seq<char>, value: Seq<char>) -> bool {
    let has_ip = e.ip is Some && e.ip->0.raw@.len() > 0;
    ||| has_ip && e.ip->0.ip is Some && type_ == "IPAddress"@ && value == e.ip->0.ip->0@
    ||| !has_ip && e.hostname is Some && e.hostname->0@.len() > 0 && type_ == "Hostname"@ && value
        == e.hostname->0@
}

/// The entry of a load balancer gives no address.
pub open spec fn gives_none(e: ServiceIngress) -> bool {
    forall|t: Seq<char>, v: Seq<char>| !#[trigger] gives(e, t, v)
}

proof fn lemma_entry(e: ServiceIngress)
    ensures
        entry_address(e) is None <==> gives_none(e),
        entry_address(e) is Some ==> gives(e, entry_address(e)->Some_0.0, entry_address(e)->Some_0.1),
        forall|t: Seq<char>, v: Seq<char>| #[trigger]
            gives(e, t, v) ==> entry_address(e) == Some((t, v)),
{
    if entry_address(e) is Some {
        let a = entry_address(e)->0;
        assert(gives(e, a.0, a.1));
    }
}

/// The address of a load balancer is that of its first entry that gives one.
pub proof fn load_balancer_has_its_first_address(v: Seq<ServiceIngress>, i: int)
    requires
        0 <= i <= v.len(),
        forall|j: int| 0 <= j < i ==> gives_none(#[trigger] v[j]),
        i < v.len() ==> !gives_none(v[i]),
    ensures
        i == v.len() ==> first_address(v) is None,
        i < v.len() ==> first_address(v) is Some && gives(
            v[i],
            first_address(v)->Some_0.0,
            first_address(v)->Some_0.1,
        ),
    decreases v.len(),
{
    if v.len() > 0 {
        lemma_entry(v[0]);
        if i > 0 {
            assert(gives_none(v[0]));
            let d = v.drop_first();
            assert forall|j: int| 0 <= j < i - 1 implies gives_none(#[trigger] d[j]) by {
                assert(d[j] == v[j + 1]);
            }
            if i < v.len() {
                assert(d[i - 1] == v[i]);
            }
            load_balancer_has_its_first_address(d, i - 1);
        }
    }
}

/// The address of a Service is the one that its type promises: that of its load balancer, or its
/// cluster IP where it has one that can be read; a Service of any other type has none.
pub proof fn service_has_the_address_of_its_type(svc: Service)
    ensures
        svc.spec is None ==> vip_of(svc) is None,
        svc.spec is Some ==> {
            let s = svc.spec->0;
            let balanced = s.type_ is Some && s.type_->0@ == "LoadBalancer"@;
            let internal = s.type_ is None || s.type_->0@ == ""@ || s.type_->0@ == "ClusterIP"@;
            let c = s.cluster_ip;
            &&& balanced && svc.load_balancer is None ==> vip_of(svc) is None
            &&& balanced && svc.load_balancer is Some ==> vip_of(svc) == first_address(
                svc.load_balancer->0@,
            )
            &&& internal && c is Some && c->0.raw@ != ""@ && c->0.raw@ != "None"@ && c->0.ip
                is Some ==> vip_of(svc) == Some(("IPAddress"@, c->0.ip->0@))
            &&& internal && (c is None || c->0.raw@ == ""@ || c->0.raw@ == "None"@ || c->0.ip
                is None) ==> vip_of(svc) is None
            &&& !balanced && !internal ==> vip_of(svc) is None
        },
{
    reveal_strlit("");
    reveal_strlit("LoadBalancer");
    reveal_strlit("ClusterIP");
    assert("LoadBalancer"@.len() == 12 && "ClusterIP"@.len() == 9);
    if svc.spec is Some {
        let s = svc.spec->0;
        if s.type_ is Some {
            assert(s.type_->0@.len() == 0 <==> s.type_->0@ =~= ""@);
        }
        if s.cluster_ip is Some {
            assert(s.cluster_ip->0.raw@.len() == 0 <==> s.cluster_ip->0.raw@ =~= ""@);
        }
    }
}

/// The ports of a Service are the numbers that its entries target; names are left out.
pub proof fn internal_ports_are_the_numbers(t: Seq<Option<TargetPort>>, p: u16)
    ensures
        internal_ports(t).contains(p) <==> exists|i: int|
            0 <= i < t.len() && (#[trigger] t[i]) is Some && t[i]->0 is Number && t[i]->0->Number_0
                == p,
{
    if internal_ports(t).contains(p) {
        let i = choose|i: int|
            0 <= i < t.len() && targets(#[trigger] t[i], p);
        assert(t[i] is Some);
    }
    if exists|i: int|
        0 <= i < t.len() && (#[trigger] t[i]) is Some && t[i]->0 is Number && t[i]->0->Number_0
            == p {
        let i = choose|i: int|
            0 <= i < t.len() && (#[trigger] t[i]) is Some && t[i]->0 is Number && t[i]->0->Number_0
                == p;
        assert(targets(t[i], p));
    }
}

/// The node has bound all of the ports.
pub open spec fn has_bound(n: NodeEntry, required: Set<u16>) -> bool {
    n.bound_ports is Some && forall|p: u16|
        required.contains(p) ==> #[trigger] n.bound_ports->0@.contains(p)
}

/// Each node of the shared pool is counted once, and counted as lagging exactly if it has not
/// bound all of the ports; other nodes are not counted.
pub proof fn nodes_are_counted_once(nodes: Seq<NodeEntry>, n: NodeEntry, required: Set<u16>)
    ensures
        pool(Seq::empty()).len() == 0,
        lagging(Seq::empty(), required) == 0,
        pool(nodes.push(n)).len() == pool(nodes).len() + (if n.shared_pool {
            1int
        } else {
            0
        }),
        lagging(nodes.push(n), required) == lagging(nodes, required) + (if n.shared_pool
            && !has_bound(n, required) {
            1int
        } else {
            0
        }),
{
    let in_pool = |x: NodeEntry| x.shared_pool;
    let late = |x: NodeEntry| lags(x, required);
    reveal(Seq::filter);
    assert(nodes.push(n).drop_last() =~= nodes);
    assert(pool(Seq::<NodeEntry>::empty()) =~= Seq::<NodeEntry>::empty());
    if n.shared_pool {
        assert(pool(nodes.push(n)) == pool(nodes).push(n));
        assert(pool(nodes).push(n).drop_last() =~= pool(nodes));
        assert(lags(n, required) == !has_bound(n, required)) by {
            if n.bound_ports is Some {
                assert(required.subset_of(n.bound_ports->0@) <==> forall|p: u16|
                    required.contains(p) ==> #[trigger] n.bound_ports->0@.contains(p));
            }
        }
        assert(pool(nodes).push(n).filter(late) == if lags(n, required) {
            pool(nodes).filter(late).push(n)
        } else {
            pool(nodes).filter(late)
        });
    } else {
        assert(pool(nodes.push(n)) == pool(nodes));
    }
}

/// Who is waited for is told with how many of the connected proxies lag and on which ports; with
/// none connected, that is what is told.
pub proof fn detail_counts_the_lagging_proxies(nodes: Seq<NodeEntry>, required: Set<u16>)
    ensures
        pool(nodes).len() == 0 ==> bind_detail(nodes, required)
            == "no shared proxy nodes connected; waiting for the pool before declaring the Gateway programmed"@,
        pool(nodes).len() > 0 ==> bind_detail(nodes, required) == "waiting for "@ + decimal(
            lagging(nodes, required),
        ) + "/"@ + decimal(pool(nodes).len())
            + " connected shared proxy node(s) to bind internal port(s) ["@ + joined(
            port_texts(listing(required)),
            ", "@,
        ) + "]"@,
{
}

/// The label of the leader is set to `true` on the one that leads, and taken off any other.
pub proof fn leader_label_is_set_or_removed(leading: bool)
    ensures
        ({
            let l = label_patch_json(leading).at("metadata"@).at("labels"@);
            &&& l is Obj
            &&& member(l->Obj_0, "discovery.coxswain-labs.dev/leader"@) is Some
            &&& leading ==> l.at("discovery.coxswain-labs.dev/leader"@) == JsonView::Str("true"@)
            &&& !leading ==> l.at("discovery.coxswain-labs.dev/leader"@) is Null
        }),
{
    let value = if leading {
        JsonView::Str("true"@)
    } else {
        JsonView::Null
    };
    let x = ("discovery.coxswain-labs.dev/leader"@, value);
    let y = ("labels"@, JsonView::Obj(seq![x]));
    lemma_member_one(x, "discovery.coxswain-labs.dev/leader"@);
    lemma_member_one(y, "labels"@);
    lemma_member_one(("metadata"@, JsonView::Obj(seq![y])), "metadata"@);
}

/// The label of the own pod is settled once it was written or the pod is gone; any other answer
/// calls for another try.
pub proof fn own_label_is_settled_when_written(reply: PatchReply)
    ensures
        reply is Applied ==> own_settled(reply),
        reply is Lost ==> !own_settled(reply),
        reply matches PatchReply::Refused(code) ==> (own_settled(reply) <==> code == 404),
{
}

/// What is read of the Service of a Gateway: that there is none; that there is one that waits for
/// its address; or the address that it has. Its ports are read either way.
pub proof fn service_is_read_as_it_stands(svc: Option<Service>, r: SharedVip)
    requires
        vip_read(svc, r),
    ensures
        r.address is NotProvisioned <==> svc is None,
        r.address is Pending <==> svc is Some && vip_of(svc->0) is None,
        r.address is Resolved <==> svc is Some && vip_of(svc->0) is Some,
        r.address matches VipAddress::Resolved(a) ==> vip_of(svc->0)->0 == (a.tag(), a.value()),
        svc is None ==> r.internal_ports@ == Set::<u16>::empty(),
        svc is Some && svc->0.spec is Some && svc->0.spec->0.target_ports is Some
            ==> r.internal_ports@ == internal_ports(svc->0.spec->0.target_ports->0@),
        svc is Some && (svc->0.spec is None || svc->0.spec->0.target_ports is None) ==> forall|
            p: u16,
        | !#[trigger] r.internal_ports@.contains(p),
{
}

/// The pods that carry the label are known by their names.
pub proof fn labelled_pods_are_known_by_name(v: Seq<Option<String>>, i: int)
    requires
        0 <= i < v.len(),
    ensures
        names_of(v).len() == v.len(),
        v[i] is Some ==> names_of(v)[i] == v[i]->0@,
        v[i] is None ==> names_of(v)[i] == ""@,
{
}

/// The label is taken from every pod that carries it and has a name, save the own one.
pub proof fn label_is_taken_from_the_other_pods(
    v: Seq<Option<String>>,
    me: Seq<char>,
    pod: Seq<char>,
)
    ensures
        stale_names(v, me).contains(pod) <==> pod != me && pod.len() > 0 && exists|i: int|
            0 <= i < v.len() && (#[trigger] v[i]) is Some && v[i]->0@ == pod,
{
    reveal_strlit("");
    let all = names_of(v);
    let keep = |n: Seq<char>| is_other(n, me);
    let r = stale_names(v, me);
    if r.contains(pod) {
        let k = choose|k: int| 0 <= k < r.len() && r[k] == pod;
        all.lemma_filter_pred(keep, k);
        assert(keep(r[k]));
        all.lemma_filter_contains_rev(keep, pod);
        let i = choose|i: int| 0 <= i < all.len() && all[i] == pod;
        assert(v[i] is Some);
    }
    if pod != me && pod.len() > 0 && exists|i: int|
        0 <= i < v.len() && (#[trigger] v[i]) is Some && v[i]->0@ == pod {
        let i = choose|i: int| 0 <= i < v.len() && (#[trigger] v[i]) is Some && v[i]->0@ == pod;
        assert(all[i] == pod);
        assert(keep(all[i]));
        all.lemma_filter_contains(keep, i);
    }
}

/// The labels are settled where there is nothing to label; else only if the own one is, and for a
/// leader only if moreover the label was taken from every other pod. Settled labels are looked at
/// again after fifteen seconds, others after five.
pub proof fn labels_are_settled_when_all_are_written(
    leading: bool,
    own: bool,
    others: Option<Seq<PatchReply>>,
)
    ensures
        labels_settled(true, leading, own, others),
        labels_settled(false, false, own, others) == own,
        others is None ==> !labels_settled(false, true, own, others),
        others matches Some(v) ==> (labels_settled(false, true, own, others) <==> own && forall|
            i: int,
        | 0 <= i < v.len() ==> (#[trigger] v[i]) is Applied),
        wait_nanos(true) == 15_000_000_000,
        wait_nanos(false) == 5_000_000_000,
{
}

} // verus!
