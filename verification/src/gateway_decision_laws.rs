//! What is decided on a Gateway, and what is done about it.

use vstd::prelude::*;

use crate::conditions::true_at;
use crate::config::StatusAddress;
use crate::gateway_reconcile::{
    decides, gateway_status_write, settled_action, versioned, Action, GatewayInputs, PoolReport,
};
use crate::gateway_status::{
    desired_patch, gateway_patch_json, typed_pairs, GatewayConditionReason, SharedAddressDecision,
};
use crate::json::{lemma_member_one, lemma_member_push, JsonView};
use crate::listener_status::GatewayListenerStatus;
use crate::resources::{AddressView, Gateway, ListenerStatusView};
use crate::shared_vip::{advertised, bind_detail, has_known_type, known_addresses, VipAddress};
use crate::text::signed_decimal;

verus! {

/// A Gateway with an address of its own advertises that address. One that waits for it advertises
/// none, and one that is to have none advertises the address of the controller, unless Gateways
/// have addresses of their own.
pub proof fn own_address_comes_first(
    vip: VipAddress,
    own_addresses: bool,
    global: Option<StatusAddress>,
)
    ensures
        ({
            let a = advertised(vip, own_addresses, global);
            &&& vip matches VipAddress::Resolved(x) ==> a == Some((x.tag(), x.value()))
            &&& vip is Pending ==> a is None
            &&& vip is NotProvisioned && own_addresses ==> a is None
            &&& vip is NotProvisioned && !own_addresses && global is Some ==> a == Some(
                (global->0.tag(), global->0.value()),
            )
            &&& vip is NotProvisioned && global is None ==> a is None
        }),
{
}

/// A condition of the Gateway says that it is programmed at its generation.
pub open spec fn is_programmed_already(gw: Gateway) -> bool {
    exists|i: int|
        0 <= i < gw.conds().len() && (#[trigger] gw.conds()[i]).type_ == "Programmed"@
            && gw.conds()[i].status == "True"@ && gw.conds()[i].gen() >= gw.metadata.gen()
}

/// The shared proxies serve the Gateway: they have bound its ports and, where it is among the
/// Gateways that snapshots are made of, have all applied one with its generation.
pub open spec fn is_served(gw: Gateway, p: PoolReport) -> bool {
    p.ports_bound && (p.indexed ==> p.stamp is Some && p.stamp->0.acked && p.stamp->0.generation
        >= gw.metadata.gen())
}

/// The Gateway can be programmed, from the side of the cluster: where Gateways have addresses of
/// their own it has its own, and the shared proxies, as far as they are known, serve it.
pub open spec fn is_ready(gw: Gateway, x: GatewayInputs) -> bool {
    x.shared_vip_addressing ==> x.vip.address is Resolved && (x.pool is Some ==> is_served(
        gw,
        x.pool->0,
    ))
}

/// Something is settled against the addresses that the Gateway requests.
pub open spec fn is_overridden(x: GatewayInputs) -> bool {
    !x.hold_pending && x.static_outcome.programmed_override is Some
}

/// Some address of the Gateway is of a type that is known.
pub open spec fn has_usable_address(gw: Gateway) -> bool {
    exists|i: int|
        0 <= i < gw.addresses().len() && ((#[trigger] gw.addresses()[i]).type_ == Some(
            "IPAddress"@,
        ) || gw.addresses()[i].type_ == Some("Hostname"@))
}

/// There is something to publish where addresses are requested: what was assigned, what the
/// Gateway has already where it is programmed, or that something is settled against them.
pub open spec fn has_something_to_publish(gw: Gateway, x: GatewayInputs) -> bool {
    ||| !x.static_outcome.feature_engaged
    ||| is_overridden(x)
    ||| x.static_outcome.status_addresses@.len() > 0
    ||| is_programmed_already(gw) && has_usable_address(gw)
}

/// A decision is final exactly if nothing can help the Gateway, or it is served or was already
/// programmed, and there is something to publish where addresses are requested. Unsupported
/// parameters and listeners that cannot be served are what nothing can help.
pub proof fn decision_is_final_once_served(
    d: SharedAddressDecision,
    gw: Gateway,
    x: GatewayInputs,
)
    requires
        decides(d, gw, x),
    ensures
        d.settled_negative <==> gw.spec.parameters_ref is Some || x.listeners_unserviceable,
        d.params_ref_unsupported <==> gw.spec.parameters_ref is Some,
        d.converged <==> d.settled_negative || ((is_programmed_already(gw) || is_ready(gw, x))
            && has_something_to_publish(gw, x)),
        d.static_outcome.accepted_override == x.static_outcome.accepted_override,
        d.static_outcome.programmed_override == if x.hold_pending {
            None
        } else {
            x.static_outcome.programmed_override
        },
        d.static_outcome.feature_engaged == x.static_outcome.feature_engaged,
        d.static_outcome.requests_pinnable_ip == x.static_outcome.requests_pinnable_ip,
        x.static_outcome.status_addresses@.len() > 0 || !x.static_outcome.feature_engaged
            || is_overridden(x) || !is_programmed_already(gw) ==> typed_pairs(
            d.static_outcome.status_addresses@,
        ) == typed_pairs(x.static_outcome.status_addresses@),
{
    assert(true_at(gw.conds(), "Programmed"@, gw.metadata.gen() as int)
        <==> is_programmed_already(gw));
    lemma_known(gw.addresses());
    assert(has_usable_address(gw) <==> known_addresses(gw.addresses()).len() > 0) by {
        if has_usable_address(gw) {
            let i = choose|i: int|
                0 <= i < gw.addresses().len() && ((#[trigger] gw.addresses()[i]).type_ == Some(
                    "IPAddress"@,
                ) || gw.addresses()[i].type_ == Some("Hostname"@));
            assert(known_addresses(gw.addresses()).contains(
                (gw.addresses()[i].type_->0, gw.addresses()[i].value),
            ));
        }
        if known_addresses(gw.addresses()).len() > 0 {
            assert(is_usable(gw.addresses(), known_addresses(gw.addresses())[0]));
        }
    }
    assert(typed_pairs(x.static_outcome.status_addresses@).len()
        == x.static_outcome.status_addresses@.len());
}

/// The pair of type and value is that of one of the addresses, and of a type that is known.
pub open spec fn is_usable(v: Seq<AddressView>, p: (Seq<char>, Seq<char>)) -> bool {
    exists|i: int|
        0 <= i < v.len() && (#[trigger] v[i]).type_ == Some(p.0) && v[i].value == p.1 && (p.0
            == "IPAddress"@ || p.0 == "Hostname"@)
}

proof fn lemma_known(v: Seq<AddressView>)
    ensures
        forall|i: int|
            0 <= i < v.len() && ((#[trigger] v[i]).type_ == Some("IPAddress"@) || v[i].type_
                == Some("Hostname"@)) ==> known_addresses(v).contains((v[i].type_->0, v[i].value)),
        forall|k: int|
            0 <= k < known_addresses(v).len() ==> is_usable(v, #[trigger] known_addresses(v)[k]),
{
    let keep = |a: AddressView| has_known_type(a);
    let f = v.filter(keep);
    let r = known_addresses(v);
    assert(r.len() == f.len());
    assert forall|i: int|
        0 <= i < v.len() && ((#[trigger] v[i]).type_ == Some("IPAddress"@) || v[i].type_ == Some(
            "Hostname"@,
        )) implies r.contains((v[i].type_->0, v[i].value)) by {
        assert(keep(v[i]));
        v.lemma_filter_contains(keep, i);
        let k = choose|k: int| 0 <= k < f.len() && f[k] == v[i];
        assert(r[k] == (v[i].type_->0, v[i].value));
    }
    assert forall|k: int| 0 <= k < r.len() implies is_usable(v, #[trigger] r[k]) by {
        v.lemma_filter_pred(keep, k);
        assert(keep(f[k]));
        assert(f.contains(f[k]));
        v.lemma_filter_contains_rev(keep, f[k]);
        let i = choose|i: int| 0 <= i < v.len() && v[i] == f[k];
        assert(v[i].value == r[k].1);
    }
}

/// The addresses that a Gateway has and keeps are those of a type that is known, each with its own
/// value.
pub proof fn kept_addresses_are_those_of_known_types(
    gw: Gateway,
    type_: Seq<char>,
    value: Seq<char>,
)
    ensures
        known_addresses(gw.addresses()).contains((type_, value)) <==> is_usable(
            gw.addresses(),
            (type_, value),
        ),
{
    let v = gw.addresses();
    lemma_known(v);
    if known_addresses(v).contains((type_, value)) {
        let r = known_addresses(v);
        let k = choose|k: int| 0 <= k < r.len() && r[k] == (type_, value);
        assert(r[k].0 == type_);
    }
}

/// A Gateway that was programmed and requests addresses, for which there are none at the moment
/// and against which nothing is settled, keeps those that it has.
pub proof fn programmed_gateway_keeps_its_addresses(
    d: SharedAddressDecision,
    gw: Gateway,
    x: GatewayInputs,
)
    requires
        decides(d, gw, x),
        is_programmed_already(gw),
        x.static_outcome.feature_engaged,
        !is_overridden(x),
        x.static_outcome.status_addresses@.len() == 0,
    ensures
        typed_pairs(d.static_outcome.status_addresses@) == known_addresses(gw.addresses()),
{
    assert(true_at(gw.conds(), "Programmed"@, gw.metadata.gen() as int));
    assert(typed_pairs(x.static_outcome.status_addresses@).len() == 0);
}

/// Why `Programmed` is held back is told only where the proxies are to blame: not while they serve
/// the Gateway or their report does not count, and not while the Gateway waits for its address.
pub proof fn detail_blames_the_proxies(d: SharedAddressDecision, gw: Gateway, x: GatewayInputs)
    requires
        decides(d, gw, x),
    ensures
        d.pending_detail is Some <==> x.shared_vip_addressing && x.vip.address is Resolved
            && x.pool is Some && !is_programmed_already(gw) && !is_served(gw, x.pool->0),
{
    assert(true_at(gw.conds(), "Programmed"@, gw.metadata.gen() as int)
        <==> is_programmed_already(gw));
}

/// A Gateway that is not decided on is looked at again after two seconds, one whose addresses
/// could not be assigned after fifteen, and any other once it changes.
pub proof fn undecided_gateway_is_looked_at_soon(d: SharedAddressDecision)
    ensures
        !d.converged ==> settled_action(d) is Requeue && settled_action(d)->Requeue_0.nanos
            == 2_000_000_000,
        d.converged && d.static_outcome.programmed_override == Some(
            GatewayConditionReason::AddressNotUsable,
        ) ==> settled_action(d) is Requeue && settled_action(d)->Requeue_0.nanos
            == 15_000_000_000,
        d.converged && d.static_outcome.programmed_override != Some(
            GatewayConditionReason::AddressNotUsable,
        ) ==> settled_action(d) == Action::AwaitChange,
{
}

/// A Gateway is written exactly if it has a name and a generation. What is written goes to that
/// Gateway, holds its patch at its generation, and is tied to the version of the Gateway that the
/// decision was made on, where there is one.
pub proof fn gateway_write_is_tied_to_its_version(
    gw: Gateway,
    health: GatewayListenerStatus,
    listeners: Seq<ListenerStatusView>,
    now: Seq<char>,
    d: SharedAddressDecision,
)
    ensures
        ({
            let w = gateway_status_write(gw, health, listeners, now, d);
            let p = desired_patch(gw, health, listeners, gw.metadata.generation->0, now, d);
            &&& w is Some <==> gw.metadata.name is Some && gw.metadata.generation is Some
            &&& w is Some ==> {
                &&& w->0.name == gw.metadata.name->0@
                &&& w->0.namespace == if gw.metadata.namespace is Some {
                    gw.metadata.namespace->0@
                } else {
                    "default"@
                }
                &&& w->0.patch.at("status"@) == gateway_patch_json(p).at("status"@)
                &&& gw.metadata.resource_version is Some ==> w->0.patch.at("metadata"@).at(
                    "resourceVersion"@,
                ) == JsonView::Str(gw.metadata.resource_version->0@)
                &&& gw.metadata.resource_version is None ==> w->0.patch.at("metadata"@) is Null
            }
        }),
{
    reveal_strlit("status");
    reveal_strlit("metadata");
    assert("status"@.len() == 6 && "metadata"@.len() == 8);
    let p = desired_patch(gw, health, listeners, gw.metadata.gen(), now, d);
    let j = gateway_patch_json(p);
    let s = j->Obj_0;
    assert(s.len() == 1 && s[0].0 == "status"@);
    assert(s =~= seq![s[0]]);
    lemma_member_one(s[0], "status"@);
    lemma_member_one(s[0], "metadata"@);
    if gw.metadata.resource_version is Some {
        let v = gw.metadata.resource_version->0@;
        let inner = ("resourceVersion"@, JsonView::Str(v));
        lemma_member_one(inner, "resourceVersion"@);
        let m = ("metadata"@, JsonView::Obj(seq![inner]));
        lemma_member_push(s, m, "status"@);
        lemma_member_push(s, m, "metadata"@);
        assert(versioned(j, Some(v)) == JsonView::Obj(s.push(m)));
    }
}

/// Why the proxies are waited for is told: that they have not bound the ports of the Gateway, or
/// else that they have not applied its generation.
pub proof fn detail_says_what_is_waited_for(
    d: SharedAddressDecision,
    gw: Gateway,
    x: GatewayInputs,
)
    requires
        decides(d, gw, x),
        d.pending_detail is Some,
    ensures
        !x.pool->0.ports_bound ==> d.pending_detail->0@ == bind_detail(
            x.pool->0.nodes@,
            x.vip.internal_ports@,
        ),
        x.pool->0.ports_bound ==> d.pending_detail->0@
            == "waiting for all connected shared proxies to apply the routing snapshot containing generation "@
            + signed_decimal(gw.metadata.gen() as int),
{
}

/// The address that a decision falls back on is the one that the Gateway advertises: its own where
/// it has one, and that of the controller only where Gateways have none of their own and this one
/// is to have none.
pub proof fn decision_falls_back_on_the_advertised_address(
    d: SharedAddressDecision,
    gw: Gateway,
    x: GatewayInputs,
)
    requires
        decides(d, gw, x),
    ensures
        d.legacy_addr is Some <==> x.vip.address is Resolved || (x.vip.address is NotProvisioned
            && !x.shared_vip_addressing && x.global_address is Some),
        x.vip.address matches VipAddress::Resolved(a) ==> d.legacy_addr->0.tag() == a.tag()
            && d.legacy_addr->0.value() == a.value(),
        x.vip.address is NotProvisioned && d.legacy_addr is Some ==> d.legacy_addr->0.tag()
            == x.global_address->0.tag() && d.legacy_addr->0.value()
            == x.global_address->0.value(),
{
    own_address_comes_first(x.vip.address, x.shared_vip_addressing, x.global_address);
}

} // verus!
