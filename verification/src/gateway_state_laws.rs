//! What the status of a Gateway says of it.

use vstd::prelude::*;

use crate::conditions::{
    condition_json, condition_json_carries_its_parts, conditions_json, states, true_at,
    ConditionView,
};
use crate::gateway_status::{
    address_json, address_pairs, desired_addresses, desired_patch, gateway_acceptance,
    gateway_current, gateway_patch_json, insecure, is_accepted, listener_current, listener_json,
    operator_owned, reason_message, stale_here, typed_pairs, written_conditions,
    SharedAddressDecision, INSECURE_MESSAGE,
};
use crate::json::{lemma_member_one, lemma_member_push, lemma_member_two, JsonView};
use crate::listener_laws::{
    address_json_carries_its_parts, first_condition_counts, first_entry_counts, has_status,
    health_is_what_was_recorded, is_entry_of, is_first_of, is_first_record, lacks,
    listener_json_carries_its_parts, recorded_as, tells,
};
use crate::listener_status::{attached_sets, lookup, GatewayListenerStatus, ListenerInfo};
use crate::resources::{Gateway, Listener, ListenerStatusView};
use crate::text::has_prefix;

verus! {

/// The number of routes recorded for a listener.
pub open spec fn count(info: Option<ListenerInfo>) -> int {
    if info is Some {
        info->0.attached_routes as int
    } else {
        0
    }
}

/// All that the listener refers to is there: the kinds that it lists are valid, and nothing is
/// recorded against it or its frontend.
pub open spec fn is_resolved(l: Listener, info: Option<ListenerInfo>) -> bool {
    !l.invalid_kinds && (info is Some ==> info->0.healthy && !info->0.frontend_failed)
}

/// Some condition of the type is true.
pub open spec fn is_true(c: Seq<ConditionView>, t: Seq<char>) -> bool {
    exists|m: int|
        0 <= m < c.len() && (#[trigger] c[m]).type_ == t && c[m].status == "True"@ && c[m].gen()
            >= 0
}

/// A Gateway that needs no patch has, for each of its listeners, an entry that reports the number
/// of routes recorded for the listener (0 where none is recorded), whether its references
/// resolve, and whether it was refused. Only a listener that does not resolve, was not refused
/// and has no routes may be without an entry.
pub proof fn settled_gateway_reports_its_listeners(
    gw: Gateway,
    health: GatewayListenerStatus,
    d: SharedAddressDecision,
    i: int,
    info: Option<ListenerInfo>,
) -> (k: int)
    requires
        gateway_current(gw, health, d),
        0 <= i < gw.spec.listeners@.len(),
        recorded_as(health.listeners@, None, gw.spec.listeners@[i].name@, info),
    ensures
        ({
            let l = gw.spec.listeners@[i];
            let s = gw.listener_statuses();
            let refused = info is Some && !info->0.accepted;
            &&& 0 <= k <= s.len()
            &&& s.len() == gw.spec.listeners@.len()
            &&& k < s.len() ==> {
                &&& is_entry_of(s, l.name@, k)
                &&& s[k].attached_routes == count(info)
                &&& is_true(s[k].conditions, "ResolvedRefs"@) <==> is_resolved(l, info)
                &&& (lacks(s[k].conditions, "Accepted"@) || has_status(
                    s[k].conditions,
                    "Accepted"@,
                    "True"@,
                )) <==> !refused
                &&& forall|m: int|
                    0 <= m < s[k].conditions.len() ==> (#[trigger] s[k].conditions[m]).gen()
                        >= gw.metadata.gen()
            }
            &&& k == s.len() ==> {
                &&& forall|j: int| 0 <= j < s.len() ==> (#[trigger] s[j]).name != l.name@
                &&& !is_resolved(l, info)
                &&& !refused
                &&& count(info) == 0
            }
        }),
{
    let l = gw.spec.listeners@[i];
    let s = gw.listener_statuses();
    health_is_what_was_recorded(health.listeners@, None, l.name@, info);
    let k = first_entry_counts(s, l.name@);
    assert(listener_current(s, l, health));
    if k < s.len() {
        let c = s[k].conditions;
        first_condition_counts(c, "Accepted"@, "True"@, ""@);
        assert(true_at(c, "ResolvedRefs"@, 0) <==> is_true(c, "ResolvedRefs"@));
    }
    k
}

/// A Gateway that reports another number of routes for one of its listeners than is recorded for
/// it needs a patch.
pub proof fn wrong_count_needs_a_patch(
    gw: Gateway,
    health: GatewayListenerStatus,
    d: SharedAddressDecision,
    i: int,
    info: Option<ListenerInfo>,
    k: int,
)
    requires
        0 <= i < gw.spec.listeners@.len(),
        recorded_as(health.listeners@, None, gw.spec.listeners@[i].name@, info),
        is_entry_of(gw.listener_statuses(), gw.spec.listeners@[i].name@, k),
        gw.listener_statuses()[k].attached_routes != count(info),
    ensures
        !gateway_current(gw, health, d),
{
    if gateway_current(gw, health, d) {
        let m = settled_gateway_reports_its_listeners(gw, health, d, i, info);
        let s = gw.listener_statuses();
        let name = gw.spec.listeners@[i].name@;
        if m == s.len() {
            assert(s[k].name != name);
        } else if m < k {
            assert(s[m].name != name);
        } else if k < m {
            assert(s[k].name != name);
        }
    }
}

/// The listener was refused.
pub open spec fn is_refused(health: GatewayListenerStatus, l: Listener) -> bool {
    exists|k: int| #[trigger]
        is_first_record(health.listeners@, None, l.name@, k)
            && !health.listeners@[k].info.accepted
}

/// Some listener of the Gateway was refused.
pub open spec fn some_refused(gw: Gateway, health: GatewayListenerStatus) -> bool {
    exists|i: int|
        0 <= i < gw.spec.listeners@.len() && is_refused(health, #[trigger] gw.spec.listeners@[i])
}

/// Every listener of the Gateway was refused.
pub open spec fn all_refused(gw: Gateway, health: GatewayListenerStatus) -> bool {
    forall|i: int|
        0 <= i < gw.spec.listeners@.len() ==> is_refused(health, #[trigger] gw.spec.listeners@[i])
}

/// This is what `Accepted` says of the Gateway: unsupported parameters come first, then what is
/// held against its addresses, then its listeners.
pub open spec fn is_acceptance(
    gw: Gateway,
    health: GatewayListenerStatus,
    d: SharedAddressDecision,
    status: Seq<char>,
    reason: Seq<char>,
) -> bool {
    let over = d.static_outcome.accepted_override;
    &&& d.params_ref_unsupported ==> status == "False"@ && reason == "InvalidParameters"@
    &&& !d.params_ref_unsupported && over is Some ==> status == "False"@ && reason
        == over->0.text()
    &&& !d.params_ref_unsupported && over is None ==> {
        &&& reason == if some_refused(gw, health) {
            "ListenersNotValid"@
        } else {
            "Accepted"@
        }
        &&& status == if some_refused(gw, health) && all_refused(gw, health) {
            "False"@
        } else {
            "True"@
        }
    }
}

/// This is what `Programmed` says of the Gateway.
pub open spec fn is_programming(
    d: SharedAddressDecision,
    status: Seq<char>,
    reason: Seq<char>,
) -> bool {
    let over = d.static_outcome.programmed_override;
    &&& over is Some ==> status == "False"@ && reason == over->0.text()
    &&& over is None && d.settled_negative ==> status == "False"@ && reason == "Invalid"@
    &&& over is None && !d.settled_negative && !d.converged ==> status == "False"@ && reason
        == "Pending"@
    &&& over is None && !d.settled_negative && d.converged ==> status == "True"@ && reason
        == "Programmed"@
}

/// `Accepted` says what the parameters, the addresses and the listeners of the Gateway come to.
pub proof fn acceptance_follows_the_listeners(
    gw: Gateway,
    health: GatewayListenerStatus,
    d: SharedAddressDecision,
)
    ensures
        is_acceptance(
            gw,
            health,
            d,
            gateway_acceptance(gw, health, d).0,
            gateway_acceptance(gw, health, d).1.text(),
        ),
        is_programming(d, d.programmed().0, d.programmed().1.text()),
{
    let v = gw.spec.listeners@;
    assert forall|l: Listener| #[trigger] is_accepted(health, l) == !is_refused(health, l) by {
        let found = lookup(health.listeners@, None, l.name@);
        health_is_what_was_recorded(health.listeners@, None, l.name@, found);
        if is_refused(health, l) {
            let k = choose|k: int| #[trigger]
                is_first_record(health.listeners@, None, l.name@, k)
                    && !health.listeners@[k].info.accepted;
            health_is_what_was_recorded(
                health.listeners@,
                None,
                l.name@,
                Some(health.listeners@[k].info),
            );
        }
        if !is_accepted(health, l) {
            let k = choose|k: int| #[trigger]
                is_first_record(health.listeners@, None, l.name@, k) && health.listeners@[k].info
                    == found->0;
            assert(!health.listeners@[k].info.accepted);
        }
    }
    if some_refused(gw, health) {
        let i = choose|i: int| 0 <= i < v.len() && is_refused(health, #[trigger] v[i]);
        assert(!is_accepted(health, v[i]));
        if !all_refused(gw, health) {
            let j = choose|j: int| 0 <= j < v.len() && !is_refused(health, #[trigger] v[j]);
            assert(is_accepted(health, v[j]));
        }
    }
}

/// The addresses are those that the Gateway was given, as pairs of type and value.
pub open spec fn has_pair(gw: Gateway, type_: Seq<char>, value: Seq<char>) -> bool {
    exists|i: int|
        0 <= i < gw.addresses().len() && (#[trigger] gw.addresses()[i]).value == value && (if gw
            .addresses()[i].type_ is Some {
            gw.addresses()[i].type_->0
        } else {
            ""@
        }) == type_
}

/// A Gateway that needs no patch says of itself what was decided on it: whether it is accepted
/// and programmed, its addresses, the number of attached ListenerSets, whether clients are let in
/// without a certificate, and what became of its own certificate. Nothing of that is from an older
/// generation; conditions of the operator are not looked at.
pub proof fn settled_gateway_reports_its_state(
    gw: Gateway,
    health: GatewayListenerStatus,
    d: SharedAddressDecision,
)
    requires
        gateway_current(gw, health, d),
    ensures
        ({
            let c = gw.conds();
            &&& exists|k: int| #[trigger]
                is_first_of(c, "Accepted"@, k) && is_acceptance(
                    gw,
                    health,
                    d,
                    c[k].status,
                    c[k].reason,
                )
            &&& exists|k: int| #[trigger]
                is_first_of(c, "Programmed"@, k) && is_programming(d, c[k].status, c[k].reason)
            &&& is_true(c, "InsecureFrontendValidationMode"@) <==> health.frontend_validation
                is Some && health.frontend_validation->0.insecure_fallback
            &&& health.backend_client_cert is None ==> lacks(c, "ResolvedRefs"@)
            &&& health.backend_client_cert is Some ==> tells(
                c,
                "ResolvedRefs"@,
                health.backend_client_cert->0.resolved_refs_status@,
                health.backend_client_cert->0.resolved_refs_reason@,
            )
            &&& gw.reported_sets() == attached_sets(health.listeners@).len() as i32
            &&& forall|m: int|
                0 <= m < c.len() && !has_prefix(
                    (#[trigger] c[m]).type_,
                    "gateway.coxswain-labs.dev/"@,
                ) ==> c[m].gen() >= gw.metadata.gen()
        }),
        d.static_outcome.feature_engaged ==> forall|type_: Seq<char>, value: Seq<char>| #[trigger]
            has_pair(gw, type_, value) <==> exists|i: int|
                0 <= i < d.static_outcome.status_addresses@.len() && (
                #[trigger] d.static_outcome.status_addresses@[i]).type_.tag() == type_
                    && d.static_outcome.status_addresses@[i].value@ == value,
        !d.static_outcome.feature_engaged && d.legacy_addr is Some ==> gw.addresses().len() > 0
            && gw.addresses()[0].value == d.legacy_addr->0.value() && gw.addresses()[0].type_
            == Some(d.legacy_addr->0.tag()),
{
    let c = gw.conds();
    let acc = gateway_acceptance(gw, health, d);
    let prog = d.programmed();
    acceptance_follows_the_listeners(gw, health, d);
    first_condition_counts(c, "Accepted"@, acc.0, acc.1.text());
    first_condition_counts(c, "Programmed"@, prog.0, prog.1.text());
    assert(tells(c, "Accepted"@, acc.0, acc.1.text()));
    assert(tells(c, "Programmed"@, prog.0, prog.1.text()));
    assert(true_at(c, "InsecureFrontendValidationMode"@, 0) <==> is_true(
        c,
        "InsecureFrontendValidationMode"@,
    ));
    if health.backend_client_cert is Some {
        let o = health.backend_client_cert->0;
        first_condition_counts(
            c,
            "ResolvedRefs"@,
            o.resolved_refs_status@,
            o.resolved_refs_reason@,
        );
    } else {
        first_condition_counts(c, "ResolvedRefs"@, ""@, ""@);
    }
    assert forall|m: int|
        0 <= m < c.len() && !has_prefix(
            (#[trigger] c[m]).type_,
            "gateway.coxswain-labs.dev/"@,
        ) implies c[m].gen() >= gw.metadata.gen() by {
        assert(!operator_owned(c[m]));
        assert(!stale_here(c, gw.metadata.gen() as int));
    }
    if d.static_outcome.feature_engaged {
        let a = gw.addresses();
        let t = d.static_outcome.status_addresses@;
        let pa = address_pairs(a);
        let pt = typed_pairs(t);
        assert forall|type_: Seq<char>, value: Seq<char>| #[trigger]
            has_pair(gw, type_, value) <==> exists|i: int|
                0 <= i < t.len() && (#[trigger] t[i]).type_.tag() == type_ && t[i].value@
                    == value by {
            let p = (type_, value);
            assert(pa.to_set().contains(p) == pt.to_set().contains(p));
            if has_pair(gw, type_, value) {
                let i = choose|i: int|
                    0 <= i < a.len() && (#[trigger] a[i]).value == value && (if a[i].type_ is Some {
                        a[i].type_->0
                    } else {
                        ""@
                    }) == type_;
                assert(pa[i] == p);
                let j = choose|j: int| 0 <= j < pt.len() && pt[j] == p;
                assert(t[j].type_.tag() == type_);
            }
            if exists|i: int|
                0 <= i < t.len() && (#[trigger] t[i]).type_.tag() == type_ && t[i].value@ == value {
                let i = choose|i: int|
                    0 <= i < t.len() && (#[trigger] t[i]).type_.tag() == type_ && t[i].value@
                        == value;
                assert(pt[i] == p);
                let j = choose|j: int| 0 <= j < pa.len() && pa[j] == p;
                assert(a[j].value == value);
            }
        }
    }
}

/// The condition in JSON has this type, status, reason and generation, at this time.
pub open spec fn says(
    j: JsonView,
    type_: Seq<char>,
    generation: int,
    now: Seq<char>,
) -> bool {
    &&& j.at("type"@) == JsonView::Str(type_)
    &&& j.at("observedGeneration"@) == JsonView::Int(generation)
    &&& j.at("lastTransitionTime"@) == JsonView::Str(now)
    &&& j.at("status"@) is Str
    &&& j.at("reason"@) is Str
}

/// The condition is one that the Gateway has from the operator, as it stands.
pub open spec fn is_of_the_operator(gw: Gateway, j: JsonView) -> bool {
    exists|n: int|
        0 <= n < gw.conds().len() && has_prefix(
            (#[trigger] gw.conds()[n]).type_,
            "gateway.coxswain-labs.dev/"@,
        ) && j == condition_json(gw.conds()[n])
}

/// `Programmed` is held back: nothing is settled against the Gateway, and it is not served yet.
pub open spec fn is_held_back(d: SharedAddressDecision) -> bool {
    d.static_outcome.programmed_override is None && !d.converged
}

/// The patch of a Gateway says of it what was decided on it, entry by entry as the API names the
/// parts. `Programmed` is stamped one generation back while it is held back, so that the Gateway
/// stays due.
pub proof fn gateway_patch_tells_the_state(
    gw: Gateway,
    health: GatewayListenerStatus,
    listeners: Seq<ListenerStatusView>,
    generation: i64,
    now: Seq<char>,
    d: SharedAddressDecision,
)
    ensures
        ({
            let j = gateway_patch_json(
                desired_patch(gw, health, listeners, generation, now, d),
            ).at("status"@);
            let c = j.at("conditions"@).elements();
            let a = j.at("addresses"@).elements();
            let e = j.at("listeners"@).elements();
            let mode = health.frontend_validation is Some
                && health.frontend_validation->0.insecure_fallback;
            let at_cert: int = if mode {
                3
            } else {
                2
            };
            &&& c.len() >= 2
            &&& says(c[0], "Accepted"@, generation as int, now)
            &&& is_acceptance(gw, health, d, c[0].at("status"@)->Str_0, c[0].at("reason"@)->Str_0)
            &&& c[0].at("message"@) == JsonView::Str(
                reason_message(gateway_acceptance(gw, health, d).1),
            )
            &&& says(
                c[1],
                "Programmed"@,
                if is_held_back(d) && generation > i64::MIN {
                    generation - 1
                } else {
                    generation as int
                },
                now,
            )
            &&& is_programming(d, c[1].at("status"@)->Str_0, c[1].at("reason"@)->Str_0)
            &&& c[1].at("message"@) == JsonView::Str(
                if is_held_back(d) && d.pending_detail is Some {
                    d.pending_detail->0@
                } else {
                    reason_message(d.programmed().1)
                },
            )
            &&& mode ==> c.len() >= 3 && states(
                c[2],
                "InsecureFrontendValidationMode"@,
                "True"@,
                "ConfigurationChanged"@,
                INSECURE_MESSAGE@,
                generation as int,
                now,
            )
            &&& health.backend_client_cert is Some ==> c.len() > at_cert && states(
                c[at_cert],
                "ResolvedRefs"@,
                health.backend_client_cert->0.resolved_refs_status@,
                health.backend_client_cert->0.resolved_refs_reason@,
                health.backend_client_cert->0.message@,
                generation as int,
                now,
            )
            &&& forall|m: int|
                at_cert + (if health.backend_client_cert is Some {
                    1int
                } else {
                    0
                }) <= m < c.len() ==> is_of_the_operator(gw, #[trigger] c[m])
            &&& forall|n: int|
                0 <= n < gw.conds().len() && has_prefix(
                    (#[trigger] gw.conds()[n]).type_,
                    "gateway.coxswain-labs.dev/"@,
                ) ==> c.contains(condition_json(gw.conds()[n]))
            &&& j.at("attachedListenerSets"@) == JsonView::Int(
                attached_sets(health.listeners@).len() as i32 as int,
            )
            &&& e.len() == listeners.len()
            &&& forall|m: int|
                0 <= m < e.len() ==> (#[trigger] e[m]).at("name"@) == JsonView::Str(
                    listeners[m].name,
                ) && e[m].at("attachedRoutes"@) == JsonView::Int(
                    listeners[m].attached_routes as int,
                ) && e[m].at("conditions"@) == conditions_json(listeners[m].conditions)
            &&& d.static_outcome.feature_engaged ==> {
                let t = d.static_outcome.status_addresses@;
                &&& a.len() == t.len()
                &&& forall|m: int|
                    0 <= m < a.len() ==> (#[trigger] a[m]).at("type"@) == JsonView::Str(
                        t[m].type_.tag(),
                    ) && a[m].at("value"@) == JsonView::Str(t[m].value@)
            }
            &&& !d.static_outcome.feature_engaged && d.legacy_addr is Some ==> {
                &&& a.len() == 1
                &&& a[0].at("type"@) == JsonView::Str(d.legacy_addr->0.tag())
                &&& a[0].at("value"@) == JsonView::Str(d.legacy_addr->0.value())
            }
            &&& !d.static_outcome.feature_engaged && d.legacy_addr is None ==> j.at(
                "addresses"@,
            ) is Null
        }),
{
    acceptance_follows_the_listeners(gw, health, d);
    let p = desired_patch(gw, health, listeners, generation, now, d);
    lemma_patch(gw, health, listeners, generation, now, d);
    let j = gateway_patch_json(p).at("status"@);
    let c = j.at("conditions"@).elements();
    let e = j.at("listeners"@).elements();
    let w = written_conditions(gw, health, generation, now, d);
    let op = |x: ConditionView| operator_owned(x);
    let kept = gw.conds().filter(op);
    assert(p.conditions == w + kept);
    assert(forall|m: int| 0 <= m < p.conditions.len() ==> #[trigger] c[m] == condition_json(
        p.conditions[m],
    ));
    condition_json_carries_its_parts(w[0]);
    condition_json_carries_its_parts(w[1]);
    assert(c[0] == condition_json(w[0]));
    assert(c[1] == condition_json(w[1]));
    if insecure(health) {
        condition_json_carries_its_parts(w[2]);
        assert(c[2] == condition_json(w[2]));
    }
    if health.backend_client_cert is Some {
        let n = w.len() - 1;
        condition_json_carries_its_parts(w[n]);
        assert(c[n] == condition_json(w[n]));
    }
    assert forall|m: int| w.len() <= m < c.len() implies is_of_the_operator(
        gw,
        #[trigger] c[m],
    ) by {
        let x = kept[m - w.len()];
        assert(p.conditions[m] == x);
        assert(kept.contains(x));
        gw.conds().lemma_filter_contains_rev(op, x);
        let n = choose|n: int| 0 <= n < gw.conds().len() && gw.conds()[n] == x;
        gw.conds().lemma_filter_pred(op, m - w.len());
        assert(op(x));
        assert(c[m] == condition_json(gw.conds()[n]));
    }
    assert forall|n: int|
        0 <= n < gw.conds().len() && has_prefix(
            (#[trigger] gw.conds()[n]).type_,
            "gateway.coxswain-labs.dev/"@,
        ) implies c.contains(condition_json(gw.conds()[n])) by {
        let x = gw.conds()[n];
        assert(op(x));
        gw.conds().lemma_filter_contains(op, n);
        let m = choose|m: int| 0 <= m < kept.len() && kept[m] == x;
        assert(c[w.len() + m] == condition_json(x));
    }
    assert forall|m: int| 0 <= m < e.len() implies (#[trigger] e[m]).at("name"@) == JsonView::Str(
        listeners[m].name,
    ) && e[m].at("attachedRoutes"@) == JsonView::Int(listeners[m].attached_routes as int)
        && e[m].at("conditions"@) == conditions_json(listeners[m].conditions) by {
        listener_json_carries_its_parts(listeners[m]);
    }
    if desired_addresses(d) is Some {
        let want = desired_addresses(d)->0;
        let a = j.at("addresses"@).elements();
        assert forall|m: int| 0 <= m < want.len() implies (#[trigger] a[m]).at("type"@)
            == JsonView::Str(want[m].type_->0) && a[m].at("value"@) == JsonView::Str(
            want[m].value,
        ) by {
            assert(a[m] == address_json(want[m]));
            address_json_carries_its_parts(want[m]);
        }
    }
}

proof fn lemma_patch(
    gw: Gateway,
    health: GatewayListenerStatus,
    listeners: Seq<ListenerStatusView>,
    generation: i64,
    now: Seq<char>,
    d: SharedAddressDecision,
)
    ensures
        ({
            let p = desired_patch(gw, health, listeners, generation, now, d);
            let j = gateway_patch_json(p).at("status"@);
            &&& j.at("conditions"@) == conditions_json(p.conditions)
            &&& j.at("listeners"@) == JsonView::Arr(
                Seq::new(listeners.len(), |i: int| listener_json(listeners[i])),
            )
            &&& j.at("attachedListenerSets"@) == JsonView::Int(
                p.attached_listener_sets->0 as int,
            )
            &&& p.addresses is None ==> j.at("addresses"@) is Null
            &&& p.addresses is Some ==> j.at("addresses"@) == JsonView::Arr(
                Seq::new(p.addresses->0.len(), |i: int| address_json(p.addresses->0[i])),
            )
        }),
{
    reveal_strlit("conditions");
    reveal_strlit("listeners");
    reveal_strlit("attachedListenerSets");
    reveal_strlit("addresses");
    assert("conditions"@.len() == 10 && "listeners"@.len() == 9 && "attachedListenerSets"@.len()
        == 20 && "addresses"@.len() == 9);
    assert("listeners"@[0] == 'l' && "addresses"@[0] == 'a');
    let p = desired_patch(gw, health, listeners, generation, now, d);
    let x = ("conditions"@, conditions_json(p.conditions));
    let y = (
        "listeners"@,
        JsonView::Arr(Seq::new(p.listeners.len(), |i: int| listener_json(p.listeners[i]))),
    );
    let z = ("attachedListenerSets"@, JsonView::Int(p.attached_listener_sets->0 as int));
    let a = p.addresses->0;
    let w = ("addresses"@, JsonView::Arr(Seq::new(a.len(), |i: int| address_json(a[i]))));
    let base = seq![x, y];
    let sets = base.push(z);
    let status = if p.addresses is Some {
        sets.push(w)
    } else {
        sets
    };
    lemma_member_one(("status"@, JsonView::Obj(status)), "status"@);
    lemma_member_two(x, y, "conditions"@);
    lemma_member_two(x, y, "listeners"@);
    lemma_member_two(x, y, "attachedListenerSets"@);
    lemma_member_two(x, y, "addresses"@);
    lemma_member_push(base, z, "conditions"@);
    lemma_member_push(base, z, "listeners"@);
    lemma_member_push(base, z, "attachedListenerSets"@);
    lemma_member_push(base, z, "addresses"@);
    lemma_member_push(sets, w, "conditions"@);
    lemma_member_push(sets, w, "listeners"@);
    lemma_member_push(sets, w, "attachedListenerSets"@);
    lemma_member_push(sets, w, "addresses"@);
}

} // verus!
