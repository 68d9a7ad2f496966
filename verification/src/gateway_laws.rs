//! What holds between the check of a Gateway's status and the patch of it.

use vstd::prelude::*;

use crate::conditions::{
    condition, first_of, lemma_first, lemma_first_is_member, lemma_first_of_concat, stale, true_at,
    ConditionView,
};
use crate::gateway_status::{
    address_pairs, addresses_current, desired_addresses, desired_conditions, desired_patch,
    entry_current, gateway_acceptance, gateway_current, insecure, lemma_first_named,
    listener_current, operator_owned, programmed_generation, reads, stale_here, typed_pairs,
    written_conditions, GatewayPatchView, SharedAddressDecision, OPERATOR_PREFIX,
};
use crate::listener_status::{lookup, GatewayListenerStatus};
use crate::resources::{Gateway, ListenerStatusView};
use crate::text::has_prefix;

verus! {

/// `after` is `before` with the patch `p` merged into its status.
pub open spec fn patched(before: Gateway, p: GatewayPatchView, after: Gateway) -> bool {
    &&& after.metadata.gen() == before.metadata.gen()
    &&& after.spec == before.spec
    &&& after.conds() == p.conditions
    &&& after.listener_statuses() == p.listeners
    &&& after.reported_sets() == match p.attached_listener_sets {
        Some(n) => n,
        None => before.reported_sets(),
    }
    &&& after.addresses() == match p.addresses {
        Some(a) => a,
        None => before.addresses(),
    }
}

/// The listener entries report the health of the Gateway's listeners at its generation, and no
/// two listeners have the same name.
pub open spec fn reports(
    gw: Gateway,
    health: GatewayListenerStatus,
    listeners: Seq<ListenerStatusView>,
) -> bool {
    let spec = gw.spec.listeners@;
    &&& listeners.len() == spec.len()
    &&& forall|i: int, j: int|
        0 <= i < j < spec.len() ==> (#[trigger] spec[i]).name@ != (#[trigger] spec[j]).name@
    &&& forall|i: int|
        0 <= i < spec.len() ==> (#[trigger] listeners[i]).name == spec[i].name@ && entry_current(
            Some(listeners[i]),
            spec[i],
            lookup(health.listeners@, None, spec[i].name@),
        ) && !stale(listeners[i].conditions, gw.metadata.gen() as int)
}

/// The types of the conditions that this controller writes are all different, and none of them is
/// one of the operator's.
pub proof fn written_types_are_apart()
    ensures
        "Accepted"@ != "Programmed"@,
        "Accepted"@ != "InsecureFrontendValidationMode"@,
        "Accepted"@ != "ResolvedRefs"@,
        "Programmed"@ != "InsecureFrontendValidationMode"@,
        "Programmed"@ != "ResolvedRefs"@,
        "InsecureFrontendValidationMode"@ != "ResolvedRefs"@,
        !has_prefix("Accepted"@, OPERATOR_PREFIX@),
        !has_prefix("Programmed"@, OPERATOR_PREFIX@),
        !has_prefix("InsecureFrontendValidationMode"@, OPERATOR_PREFIX@),
        !has_prefix("ResolvedRefs"@, OPERATOR_PREFIX@),
{
    reveal_strlit("Accepted");
    reveal_strlit("Programmed");
    reveal_strlit("InsecureFrontendValidationMode");
    reveal_strlit("ResolvedRefs");
    reveal_strlit("gateway.coxswain-labs.dev/");
    let p = OPERATOR_PREFIX@;
    assert(p[0] == 'g');
    assert("Accepted"@.len() == 8);
    assert("Programmed"@.len() == 10);
    assert("ResolvedRefs"@.len() == 12);
    assert("InsecureFrontendValidationMode"@.len() == 30);
    let long = "InsecureFrontendValidationMode"@;
    if has_prefix(long, p) {
        assert(long.subrange(0, p.len() as int)[0] == 'I');
    }
}

proof fn lemma_kept_has_no(c: Seq<ConditionView>, t: Seq<char>)
    requires
        !has_prefix(t, OPERATOR_PREFIX@),
    ensures
        first_of(c.filter(|x: ConditionView| operator_owned(x)), t) is None,
        !true_at(c.filter(|x: ConditionView| operator_owned(x)), t, 0),
{
    let p = |x: ConditionView| operator_owned(x);
    let k = c.filter(p);
    lemma_first_is_member(k, t);
    assert forall|i: int| 0 <= i < k.len() implies (#[trigger] k[i]).type_ != t by {
        c.lemma_filter_pred(p, i);
        assert(p(k[i]));
    }
    if first_of(k, t) is Some {
        let x = first_of(k, t)->0;
        let i = choose|i: int| 0 <= i < k.len() && k[i] == x;
        assert(k[i].type_ != t);
    }
}

/// What stands first in the written conditions, for each type that is written.
proof fn lemma_written(
    gw: Gateway,
    health: GatewayListenerStatus,
    generation: i64,
    now: Seq<char>,
    d: SharedAddressDecision,
)
    ensures
        ({
            let w = written_conditions(gw, health, generation, now, d);
            let acc = gateway_acceptance(gw, health, d);
            let prog = d.programmed();
            &&& w.len() >= 2
            &&& first_of(w, "Accepted"@) == Some(w[0])
            &&& w[0].status == acc.0 && w[0].reason == acc.1.text()
            &&& first_of(w, "Programmed"@) == Some(w[1])
            &&& w[1].status == prog.0 && w[1].reason == prog.1.text()
            &&& w[1].gen() == programmed_generation(generation, d)
            &&& forall|i: int| 0 <= i < w.len() && i != 1 ==> (#[trigger] w[i]).gen() == generation
            &&& forall|i: int| 0 <= i < w.len() ==> !operator_owned(#[trigger] w[i])
            &&& match health.backend_client_cert {
                Some(o) => reads(
                    w,
                    "ResolvedRefs"@,
                    o.resolved_refs_status@,
                    o.resolved_refs_reason@,
                ),
                None => first_of(w, "ResolvedRefs"@) is None,
            }
            &&& generation >= 0 ==> insecure(health) == true_at(
                w,
                "InsecureFrontendValidationMode"@,
                0,
            )
        }),
{
    written_types_are_apart();
    let w = written_conditions(gw, health, generation, now, d);
    lemma_first(w, "Accepted"@, 0);
    assert(w[0].type_ == "Accepted"@);
    assert(w[1].type_ == "Programmed"@);
    lemma_first(w, "Programmed"@, 1);
    if insecure(health) {
        assert(w[2].type_ == "InsecureFrontendValidationMode"@);
        assert(w[2].status == "True"@);
    }
    match health.backend_client_cert {
        Some(o) => {
            lemma_first(w, "ResolvedRefs"@, w.len() - 1);
        },
        None => {
            lemma_first(w, "ResolvedRefs"@, w.len() as int);
        },
    }
}

/// Once the patch has been applied there is nothing left to patch, unless `Programmed` is held
/// back.
pub proof fn gateway_patch_settles(
    gw: Gateway,
    health: GatewayListenerStatus,
    listeners: Seq<ListenerStatusView>,
    now: Seq<char>,
    d: SharedAddressDecision,
    after: Gateway,
)
    requires
        gw.metadata.gen() >= 0,
        !d.pending(),
        reports(gw, health, listeners),
        patched(gw, desired_patch(gw, health, listeners, gw.metadata.gen(), now, d), after),
    ensures
        gateway_current(after, health, d),
{
    let generation = gw.metadata.gen();
    let w = written_conditions(gw, health, generation, now, d);
    let kept = gw.conds().filter(|c: ConditionView| operator_owned(c));
    let all = after.conds();
    assert(all == w + kept);
    lemma_written(gw, health, generation, now, d);
    written_types_are_apart();
    lemma_kept_has_no(gw.conds(), "Accepted"@);
    lemma_kept_has_no(gw.conds(), "Programmed"@);
    lemma_kept_has_no(gw.conds(), "ResolvedRefs"@);
    lemma_kept_has_no(gw.conds(), "InsecureFrontendValidationMode"@);
    lemma_first_of_concat(w, kept, "Accepted"@);
    lemma_first_of_concat(w, kept, "Programmed"@);
    lemma_first_of_concat(w, kept, "ResolvedRefs"@);
    assert(gateway_acceptance(after, health, d) == gateway_acceptance(gw, health, d));
    assert(true_at(all, "InsecureFrontendValidationMode"@, 0) == true_at(
        w,
        "InsecureFrontendValidationMode"@,
        0,
    )) by {
        let t = "InsecureFrontendValidationMode"@;
        if true_at(w, t, 0) {
            let i = choose|i: int|
                0 <= i < w.len() && (#[trigger] w[i]).type_ == t && w[i].status == "True"@
                    && w[i].gen() >= 0;
            assert(all[i] == w[i]);
        }
        if true_at(all, t, 0) {
            let i = choose|i: int|
                0 <= i < all.len() && (#[trigger] all[i]).type_ == t && all[i].status == "True"@
                    && all[i].gen() >= 0;
            if i < w.len() {
                assert(all[i] == w[i]);
            } else {
                assert(all[i] == kept[i - w.len()]);
            }
        }
    }
    assert(addresses_current(after.addresses(), d)) by {
        if d.static_outcome.feature_engaged {
            assert(address_pairs(desired_addresses(d)->0) =~= typed_pairs(
                d.static_outcome.status_addresses@,
            ));
        }
    }
    assert(!stale_here(all, generation as int)) by {
        if stale_here(all, generation as int) {
            let i = choose|i: int|
                0 <= i < all.len() && !operator_owned(#[trigger] all[i]) && all[i].gen()
                    < generation;
            if i < w.len() {
                assert(all[i] == w[i]);
            } else {
                assert(all[i] == kept[i - w.len()]);
                let p = |c: ConditionView| operator_owned(c);
                gw.conds().lemma_filter_pred(p, i - w.len());
                assert(p(kept[i - w.len()]));
            }
        }
    }
    let spec = gw.spec.listeners@;
    assert forall|i: int| 0 <= i < spec.len() implies listener_current(
        listeners,
        #[trigger] spec[i],
        health,
    ) by {
        assert(listeners[i].name == spec[i].name@);
        assert forall|j: int| 0 <= j < i implies (#[trigger] listeners[j]).name != spec[i].name@ by {
            assert(spec[j].name@ != spec[i].name@);
        }
        lemma_first_named(listeners, spec[i].name@, i);
    }
}

/// While `Programmed` is held back, the Gateway stays due for another patch even after this one:
/// the condition is stamped below the current generation.
pub proof fn held_back_gateway_stays_due(
    gw: Gateway,
    health: GatewayListenerStatus,
    listeners: Seq<ListenerStatusView>,
    now: Seq<char>,
    d: SharedAddressDecision,
    after: Gateway,
)
    requires
        gw.metadata.gen() > i64::MIN,
        d.pending(),
        patched(gw, desired_patch(gw, health, listeners, gw.metadata.gen(), now, d), after),
    ensures
        !gateway_current(after, health, d),
        first_of(after.conds(), "Programmed"@) is Some,
        first_of(after.conds(), "Programmed"@)->0.gen() == gw.metadata.gen() - 1,
        first_of(after.conds(), "Programmed"@)->0.status == "False"@,
{
    let generation = gw.metadata.gen();
    let w = written_conditions(gw, health, generation, now, d);
    let kept = gw.conds().filter(|c: ConditionView| operator_owned(c));
    let all = after.conds();
    assert(all == w + kept);
    lemma_written(gw, health, generation, now, d);
    lemma_first_of_concat(w, kept, "Programmed"@);
    assert(all[1] == w[1]);
    assert(stale_here(all, generation as int));
}

/// A patch keeps every condition of the operator, as it was and in the order in which they stood.
pub proof fn operator_conditions_survive(
    gw: Gateway,
    health: GatewayListenerStatus,
    generation: i64,
    now: Seq<char>,
    d: SharedAddressDecision,
)
    ensures
        desired_conditions(gw, health, generation, now, d).filter(
            |c: ConditionView| operator_owned(c),
        ) == gw.conds().filter(|c: ConditionView| operator_owned(c)),
{
    let p = |c: ConditionView| operator_owned(c);
    let w = written_conditions(gw, health, generation, now, d);
    let kept = gw.conds().filter(p);
    lemma_written(gw, health, generation, now, d);
    Seq::filter_distributes_over_add(w, kept, p);
    lemma_filter_none(w, p);
    assert forall|i: int| 0 <= i < kept.len() implies p(#[trigger] kept[i]) by {
        gw.conds().lemma_filter_pred(p, i);
    }
    lemma_filter_all(kept, p);
    assert(Seq::<ConditionView>::empty() + kept =~= kept);
}

proof fn lemma_filter_none(s: Seq<ConditionView>, p: spec_fn(ConditionView) -> bool)
    requires
        forall|i: int| 0 <= i < s.len() ==> !p(#[trigger] s[i]),
    ensures
        s.filter(p) == Seq::<ConditionView>::empty(),
    decreases s.len(),
{
    reveal_with_fuel(Seq::filter, 1);
    if s.len() > 0 {
        let d = s.drop_last();
        assert(forall|i: int| 0 <= i < d.len() ==> #[trigger] d[i] == s[i]);
        lemma_filter_none(d, p);
        assert(!p(s[s.len() - 1]));
    }
}

proof fn lemma_filter_all(s: Seq<ConditionView>, p: spec_fn(ConditionView) -> bool)
    requires
        forall|i: int| 0 <= i < s.len() ==> p(#[trigger] s[i]),
    ensures
        s.filter(p) == s,
    decreases s.len(),
{
    reveal_with_fuel(Seq::filter, 1);
    if s.len() > 0 {
        let d = s.drop_last();
        assert(forall|i: int| 0 <= i < d.len() ==> #[trigger] d[i] == s[i]);
        lemma_filter_all(d, p);
        assert(p(s[s.len() - 1]));
        assert(d.push(s.last()) =~= s);
    }
}

} // verus!
