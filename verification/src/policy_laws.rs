//! What the written status of a policy says of what it is attached to.

use vstd::prelude::*;

use crate::backend_tls::{BackendTlsPolicy, PolicyTargetRef};
use crate::conditions::{
    condition_json, condition_json_carries_its_parts, conditions_json, states, ConditionView,
    GW_GROUP,
};
use crate::json::{
    lemma_member_four, lemma_member_one, lemma_member_push, lemma_member_three, JsonView,
};
use crate::policy_status::{
    ancestor_json, ancestors_differ, ancestors_json, ancestors_patch_json, backend_tls_write,
    conflict_conditions, desired_ancestors, entry_differs, gateway_ref, listed_ancestors,
    live_ancestors, reported, says_the_same, target_entries, target_entry, target_json,
    targeted_write, AncestorView, BackendTlsPolicyAncestorHealth, BackendTlsPolicyStatus,
    TargetedKind, TargetedPolicy, TargetedPolicyStatus, EPOCH,
};
use crate::resources::ObjectMeta;
use crate::route_laws::{parent_ref_json_carries_its_parts, refers_to, yes_no};
use crate::route_status::parent_ref_json;

verus! {

/// The key of an object; one without a namespace is in `default`.
pub open spec fn own_key(meta: ObjectMeta) -> (Seq<char>, Seq<char>) {
    (
        if meta.namespace is Some {
            meta.namespace->0@
        } else {
            "default"@
        },
        if meta.name is Some {
            meta.name->0@
        } else {
            ""@
        },
    )
}

/// A policy of this kind may be attached to the target: a Service for a policy on backends, and a
/// Gateway for the others.
pub open spec fn attaches_to(kind: TargetedKind, t: PolicyTargetRef) -> bool {
    if kind is Backend {
        (t.group@ == ""@ || t.group@ == "core"@) && t.kind@ == "Service"@
    } else {
        t.group@ == "gateway.networking.k8s.io"@ && t.kind@ == "Gateway"@
    }
}

/// A JSON value refers to the target, in the namespace of the policy.
pub open spec fn refers_to_target(
    j: JsonView,
    kind: TargetedKind,
    ns: Seq<char>,
    t: PolicyTargetRef,
) -> bool {
    &&& j.at("group"@) == JsonView::Str(
        if kind is Backend {
            ""@
        } else {
            "gateway.networking.k8s.io"@
        },
    )
    &&& j.at("kind"@) == JsonView::Str(
        if kind is Backend {
            "Service"@
        } else {
            "Gateway"@
        },
    )
    &&& j.at("namespace"@) == JsonView::Str(ns)
    &&& j.at("name"@) == JsonView::Str(t.name@)
    &&& j.at("sectionName"@) == (if kind is ClientTraffic && t.section_name is Some {
        JsonView::Str(t.section_name->0@)
    } else {
        JsonView::Null
    })
}

/// A written entry tells of the target what is known of the policy: whether it is accepted, and
/// whether another policy has the say.
pub open spec fn tells_of_target(
    e: JsonView,
    kind: TargetedKind,
    h: TargetedPolicyStatus,
    ns: Seq<char>,
    t: PolicyTargetRef,
    controller_name: Seq<char>,
    generation: int,
    now: Seq<char>,
) -> bool {
    let c = e.at("conditions"@).elements();
    &&& e.at("controllerName"@) == JsonView::Str(controller_name)
    &&& refers_to_target(e.at("ancestorRef"@), kind, ns, t)
    &&& c.len() == 2
    &&& states(c[0], "Accepted"@, yes_no(h.accepted), h.accepted_reason@, ""@, generation, now)
    &&& states(
        c[1],
        "Conflicted"@,
        yes_no(h.conflicted),
        h.conflicted_reason@,
        ""@,
        generation,
        now,
    )
}

/// The entries of a written policy status.
pub open spec fn entries_of(patch: JsonView) -> Seq<JsonView> {
    patch.at("status"@).at("ancestors"@).elements()
}

proof fn lemma_entries(e: Seq<JsonView>)
    ensures
        entries_of(ancestors_patch_json(e)) == e,
{
    let list = JsonView::Arr(e);
    lemma_member_one(("ancestors"@, list), "ancestors"@);
    lemma_member_one(("status"@, JsonView::Obj(seq![("ancestors"@, list)])), "status"@);
}

proof fn lemma_target_json(kind: TargetedKind, ns: Seq<char>, t: PolicyTargetRef)
    ensures
        refers_to_target(target_json(kind, ns, t), kind, ns, t),
{
    reveal_strlit("group");
    reveal_strlit("kind");
    reveal_strlit("name");
    reveal_strlit("namespace");
    reveal_strlit("sectionName");
    assert("group"@.len() == 5 && "kind"@.len() == 4 && "name"@.len() == 4 && "namespace"@.len()
        == 9 && "sectionName"@.len() == 11);
    assert("kind"@[0] == 'k' && "name"@[0] == 'n');
    let of_service = kind == TargetedKind::Backend;
    let x = (
        "group"@,
        JsonView::Str(
            if of_service {
                ""@
            } else {
                GW_GROUP@
            },
        ),
    );
    let y = (
        "kind"@,
        JsonView::Str(
            if of_service {
                "Service"@
            } else {
                "Gateway"@
            },
        ),
    );
    let z = ("namespace"@, JsonView::Str(ns));
    let w = ("name"@, JsonView::Str(t.name@));
    let s = ("sectionName"@, JsonView::Str(t.section_name->0@));
    let head = seq![x, y, z, w];
    lemma_member_four(x, y, z, w, "group"@);
    lemma_member_four(x, y, z, w, "kind"@);
    lemma_member_four(x, y, z, w, "namespace"@);
    lemma_member_four(x, y, z, w, "name"@);
    lemma_member_four(x, y, z, w, "sectionName"@);
    lemma_member_push(head, s, "group"@);
    lemma_member_push(head, s, "kind"@);
    lemma_member_push(head, s, "namespace"@);
    lemma_member_push(head, s, "name"@);
    lemma_member_push(head, s, "sectionName"@);
}

proof fn lemma_target_entry(
    kind: TargetedKind,
    h: TargetedPolicyStatus,
    ns: Seq<char>,
    t: PolicyTargetRef,
    controller_name: Seq<char>,
    generation: i64,
    now: Seq<char>,
)
    ensures
        tells_of_target(
            target_entry(kind, h, ns, t, controller_name, generation, now),
            kind,
            h,
            ns,
            t,
            controller_name,
            generation as int,
            now,
        ),
{
    reveal_strlit("ancestorRef");
    reveal_strlit("conditions");
    reveal_strlit("controllerName");
    assert("ancestorRef"@.len() == 11 && "conditions"@.len() == 10 && "controllerName"@.len()
        == 14);
    let s = conflict_conditions(h, generation, now);
    let x = ("ancestorRef"@, target_json(kind, ns, t));
    let y = ("controllerName"@, JsonView::Str(controller_name));
    let z = ("conditions"@, conditions_json(s));
    lemma_member_three(x, y, z, "ancestorRef"@);
    lemma_member_three(x, y, z, "controllerName"@);
    lemma_member_three(x, y, z, "conditions"@);
    lemma_target_json(kind, ns, t);
    condition_json_carries_its_parts(s[0]);
    condition_json_carries_its_parts(s[1]);
    let c = target_entry(kind, h, ns, t, controller_name, generation, now).at(
        "conditions"@,
    ).elements();
    assert(c[0] == condition_json(s[0]));
    assert(c[1] == condition_json(s[1]));
}

/// The targets of the policy that it may be attached to, in their order.
pub open spec fn fit_targets(kind: TargetedKind, policy: TargetedPolicy) -> Seq<PolicyTargetRef> {
    policy.target_refs@.filter(|t: PolicyTargetRef| attaches_to(kind, t))
}

/// The policy names a target that it may be attached to.
pub open spec fn has_target(kind: TargetedKind, policy: TargetedPolicy) -> bool {
    exists|j: int|
        0 <= j < policy.target_refs@.len() && attaches_to(kind, #[trigger] policy.target_refs@[j])
}

/// Some of the entries tells of the target what is known of the policy.
pub open spec fn target_told(
    e: Seq<JsonView>,
    kind: TargetedKind,
    policy: TargetedPolicy,
    h: TargetedPolicyStatus,
    t: PolicyTargetRef,
    controller_name: Seq<char>,
    now: Seq<char>,
) -> bool {
    exists|i: int|
        0 <= i < e.len() && tells_of_target(
            #[trigger] e[i],
            kind,
            h,
            own_key(policy.metadata).0,
            t,
            controller_name,
            policy.metadata.generation->0 as int,
            now,
        )
}

/// A policy is written exactly if it has a name and a generation, its status is known under its
/// namespace and name, and it names a target that it may be attached to. What is written goes to
/// the policy, and tells of each such target, and of nothing else, whether the policy is accepted
/// and whether another one has the say, as the known status says.
pub proof fn written_policy_tells_what_is_known(
    kind: TargetedKind,
    policy: TargetedPolicy,
    controller_name: Seq<char>,
    statuses: Map<(Seq<char>, Seq<char>), TargetedPolicyStatus>,
    now: Seq<char>,
)
    ensures
        ({
            let w = targeted_write(kind, policy, controller_name, statuses, now);
            let key = own_key(policy.metadata);
            let h = statuses[key];
            let e = entries_of(w->0.patch);
            &&& w is Some <==> policy.metadata.name is Some && policy.metadata.generation is Some
                && statuses.contains_key(key) && has_target(kind, policy)
            &&& w is Some ==> {
                &&& w->0.namespace == key.0
                &&& w->0.name == key.1
                &&& e.len() == fit_targets(kind, policy).len()
                &&& forall|i: int|
                    0 <= i < e.len() ==> tells_of_target(
                        #[trigger] e[i],
                        kind,
                        h,
                        key.0,
                        fit_targets(kind, policy)[i],
                        controller_name,
                        policy.metadata.generation->0 as int,
                        now,
                    )
                &&& forall|j: int|
                    0 <= j < policy.target_refs@.len() && attaches_to(
                        kind,
                        #[trigger] policy.target_refs@[j],
                    ) ==> target_told(
                        e,
                        kind,
                        policy,
                        h,
                        policy.target_refs@[j],
                        controller_name,
                        now,
                    )
            }
        }),
{
    reveal_strlit("");
    let meta = policy.metadata;
    let key = own_key(meta);
    let h = statuses[key];
    let refs = policy.target_refs@;
    let keep = |t: PolicyTargetRef| reported(kind, t);
    let kept = refs.filter(keep);
    let e = target_entries(kind, h, key.0, refs, controller_name, meta.gen(), now);
    lemma_entries(e);
    assert(e.len() == kept.len());
    assert forall|t: PolicyTargetRef| #[trigger] reported(kind, t) == attaches_to(kind, t) by {
        assert(t.group@.len() == 0 <==> t.group@ =~= ""@);
    }
    let fit = |t: PolicyTargetRef| attaches_to(kind, t);
    assert(keep =~= fit);
    assert forall|i: int| 0 <= i < e.len() implies refs.contains(#[trigger] kept[i])
        && attaches_to(kind, kept[i]) && tells_of_target(
        e[i],
        kind,
        h,
        key.0,
        kept[i],
        controller_name,
        meta.gen() as int,
        now,
    ) by {
        refs.lemma_filter_pred(keep, i);
        assert(keep(kept[i]));
        assert(kept.contains(kept[i]));
        refs.lemma_filter_contains_rev(keep, kept[i]);
        lemma_target_entry(kind, h, key.0, kept[i], controller_name, meta.gen(), now);
    }
    assert forall|j: int| 0 <= j < refs.len() && attaches_to(kind, #[trigger] refs[j]) implies
        kept.contains(refs[j]) by {
        assert(keep(refs[j]));
        refs.lemma_filter_contains(keep, j);
    }
    if e.len() > 0 {
        assert(refs.contains(kept[0]));
        let j = choose|j: int| 0 <= j < refs.len() && refs[j] == kept[0];
        assert(attaches_to(kind, refs[j]));
    }
    if has_target(kind, policy) {
        let j = choose|j: int| 0 <= j < refs.len() && attaches_to(kind, #[trigger] refs[j]);
        assert(kept.contains(refs[j]));
    }
    if targeted_write(kind, policy, controller_name, statuses, now) is Some {
        assert forall|i: int| 0 <= i < e.len() implies tells_of_target(
            #[trigger] e[i],
            kind,
            h,
            key.0,
            fit_targets(kind, policy)[i],
            controller_name,
            policy.metadata.generation->0 as int,
            now,
        ) by {
            assert(refs.contains(kept[i]));
        }
        assert forall|j: int|
            0 <= j < refs.len() && attaches_to(kind, #[trigger] refs[j]) implies target_told(
            e,
            kind,
            policy,
            h,
            refs[j],
            controller_name,
            now,
        ) by {
            assert(kept.contains(refs[j]));
            let i = choose|i: int| 0 <= i < kept.len() && kept[i] == refs[j];
            assert(refs.contains(kept[i]));
            assert(tells_of_target(
                e[i],
                kind,
                h,
                key.0,
                refs[j],
                controller_name,
                meta.gen() as int,
                now,
            ));
        }
    }
}

/// A policy that no other has the say over is never reported as conflicted, and one that another
/// has the say over always is.
pub proof fn conflicted_only_where_another_has_the_say(
    kind: TargetedKind,
    policy: TargetedPolicy,
    controller_name: Seq<char>,
    statuses: Map<(Seq<char>, Seq<char>), TargetedPolicyStatus>,
    now: Seq<char>,
    i: int,
)
    requires
        targeted_write(kind, policy, controller_name, statuses, now) is Some,
        0 <= i < entries_of(
            targeted_write(kind, policy, controller_name, statuses, now)->0.patch,
        ).len(),
    ensures
        ({
            let e = entries_of(
                targeted_write(kind, policy, controller_name, statuses, now)->0.patch,
            );
            let c = e[i].at("conditions"@).elements();
            let known = statuses[own_key(policy.metadata)];
            &&& c[0].at("type"@) == JsonView::Str("Accepted"@)
            &&& c[0].at("status"@) == JsonView::Str("True"@) <==> known.accepted
            &&& c[0].at("status"@) == JsonView::Str("False"@) <==> !known.accepted
            &&& c[1].at("type"@) == JsonView::Str("Conflicted"@)
            &&& c[1].at("status"@) == JsonView::Str("True"@) <==> known.conflicted
            &&& c[1].at("status"@) == JsonView::Str("False"@) <==> !known.conflicted
        }),
{
    reveal_strlit("True");
    reveal_strlit("False");
    assert("True"@.len() == 4 && "False"@.len() == 5);
    written_policy_tells_what_is_known(kind, policy, controller_name, statuses, now);
    let e = entries_of(targeted_write(kind, policy, controller_name, statuses, now)->0.patch);
    assert(tells_of_target(
        e[i],
        kind,
        statuses[own_key(policy.metadata)],
        own_key(policy.metadata).0,
        fit_targets(kind, policy)[i],
        controller_name,
        policy.metadata.generation->0 as int,
        now,
    ));
}

/// A reference to the Gateway with this namespace and name.
pub open spec fn refers_to_gateway(j: JsonView, ns: Seq<char>, name: Seq<char>) -> bool {
    &&& j.at("group"@) == JsonView::Str("gateway.networking.k8s.io"@)
    &&& j.at("kind"@) == JsonView::Str("Gateway"@)
    &&& j.at("name"@) == JsonView::Str(name)
    &&& j.at("namespace"@) == JsonView::Str(ns)
    &&& j.at("port"@) is Null
    &&& j.at("sectionName"@) is Null
}

/// A written entry says whether a policy is accepted and whether its references resolve.
pub open spec fn gives_verdict(
    e: JsonView,
    accepted: bool,
    accepted_reason: Seq<char>,
    accepted_message: Seq<char>,
    resolved: bool,
    resolved_reason: Seq<char>,
    resolved_message: Seq<char>,
    controller_name: Seq<char>,
    generation: int,
    now: Seq<char>,
) -> bool {
    let c = e.at("conditions"@).elements();
    &&& e.at("controllerName"@) == JsonView::Str(controller_name)
    &&& c.len() == 2
    &&& states(
        c[0],
        "Accepted"@,
        yes_no(accepted),
        accepted_reason,
        accepted_message,
        generation,
        now,
    )
    &&& states(
        c[1],
        "ResolvedRefs"@,
        yes_no(resolved),
        resolved_reason,
        resolved_message,
        generation,
        now,
    )
}

proof fn lemma_ancestor(a: AncestorView)
    requires
        a.conditions.len() == 2,
    ensures
        ({
            let e = ancestor_json(a);
            let c = e.at("conditions"@).elements();
            &&& e.at("controllerName"@) == JsonView::Str(a.controller_name)
            &&& refers_to(e.at("ancestorRef"@), a.ancestor_ref)
            &&& c.len() == 2
            &&& c[0] == condition_json(a.conditions[0])
            &&& c[1] == condition_json(a.conditions[1])
        }),
{
    reveal_strlit("ancestorRef");
    reveal_strlit("conditions");
    reveal_strlit("controllerName");
    assert("ancestorRef"@.len() == 11 && "conditions"@.len() == 10 && "controllerName"@.len()
        == 14);
    let x = (
        "ancestorRef"@,
        parent_ref_json(a.ancestor_ref),
    );
    let y = ("conditions"@, conditions_json(a.conditions));
    let z = ("controllerName"@, JsonView::Str(a.controller_name));
    lemma_member_three(x, y, z, "ancestorRef"@);
    lemma_member_three(x, y, z, "controllerName"@);
    lemma_member_three(x, y, z, "conditions"@);
    parent_ref_json_carries_its_parts(a.ancestor_ref);
    condition_json_carries_its_parts(a.conditions[0]);
    condition_json_carries_its_parts(a.conditions[1]);
}

/// A policy on TLS to backends is written exactly if it has a name and a generation, its status
/// is known under its namespace and name, and there is something to tell: a Gateway that it bears
/// on, or that it was refused. What is written goes to the policy and tells, for each such
/// Gateway, or once without one where there is none, whether it is accepted and whether its
/// references resolve, as the known status says.
pub proof fn written_backend_tls_policy_tells_what_is_known(
    meta: ObjectMeta,
    controller_name: Seq<char>,
    statuses: Map<(Seq<char>, Seq<char>), BackendTlsPolicyStatus>,
    now: Seq<char>,
)
    ensures
        ({
            let w = backend_tls_write(meta, controller_name, statuses, now);
            let key = own_key(meta);
            let h = statuses[key];
            let e = entries_of(w->0.patch);
            &&& w is Some <==> meta.name is Some && meta.generation is Some
                && statuses.contains_key(key) && (h.ancestors@.len() > 0 || !h.accepted)
            &&& w is Some ==> {
                &&& w->0.namespace == key.0
                &&& w->0.name == key.1
                &&& e.len() == if h.ancestors@.len() > 0 {
                    h.ancestors@.len()
                } else {
                    1
                }
                &&& forall|i: int|
                    0 <= i < e.len() ==> gives_verdict(
                        #[trigger] e[i],
                        h.accepted,
                        h.accepted_reason@,
                        ""@,
                        h.resolved_refs,
                        h.resolved_refs_reason@,
                        ""@,
                        controller_name,
                        meta.generation->0 as int,
                        now,
                    )
                &&& h.ancestors@.len() > 0 ==> forall|i: int|
                    0 <= i < e.len() ==> refers_to_gateway(
                        (#[trigger] e[i]).at("ancestorRef"@),
                        h.ancestors@[i].ns@,
                        h.ancestors@[i].name@,
                    )
                &&& h.ancestors@.len() == 0 ==> {
                    let r = e[0].at("ancestorRef"@);
                    &&& r.at("group"@) == JsonView::Str("gateway.networking.k8s.io"@)
                    &&& r.at("kind"@) == JsonView::Str("Gateway"@)
                    &&& r.at("name"@) == JsonView::Str(""@)
                    &&& r.at("namespace"@) is Null
                }
            }
        }),
{
    let key = own_key(meta);
    let h = statuses[key];
    let a = listed_ancestors(h, controller_name, meta.gen(), now);
    lemma_entries(ancestors_json(a));
    assert forall|i: int| 0 <= i < a.len() implies ({
        let e = #[trigger] ancestors_json(a)[i];
        &&& gives_verdict(
            e,
            h.accepted,
            h.accepted_reason@,
            ""@,
            h.resolved_refs,
            h.resolved_refs_reason@,
            ""@,
            controller_name,
            meta.gen() as int,
            now,
        )
        &&& refers_to(e.at("ancestorRef"@), a[i].ancestor_ref)
    }) by {
        lemma_ancestor(a[i]);
        condition_json_carries_its_parts(a[i].conditions[0]);
        condition_json_carries_its_parts(a[i].conditions[1]);
    }
}

/// The status patch of a policy on TLS to backends has one entry for each Gateway that the policy
/// bears on, with the verdict on the policy, and none while there is no verdict.
pub proof fn backend_tls_policy_patch_tells_the_verdict(
    generation: i64,
    health: BackendTlsPolicyAncestorHealth,
    controller_name: Seq<char>,
    now: Seq<char>,
)
    ensures
        ({
            let e = entries_of(
                ancestors_patch_json(
                    ancestors_json(desired_ancestors(generation, health, controller_name, now)),
                ),
            );
            let o = health.outcome->0@;
            &&& health.outcome is None ==> e.len() == 0
            &&& health.outcome is Some ==> e.len() == health.gateway_keys@.len()
            &&& forall|i: int|
                0 <= i < e.len() ==> refers_to_gateway(
                    (#[trigger] e[i]).at("ancestorRef"@),
                    health.gateway_keys@[i].ns@,
                    health.gateway_keys@[i].name@,
                ) && gives_verdict(
                    e[i],
                    o.accepted,
                    o.accepted_reason,
                    o.accepted_message,
                    o.resolved_refs,
                    o.resolved_refs_reason,
                    o.resolved_refs_message,
                    controller_name,
                    generation as int,
                    now,
                )
        }),
{
    let a = desired_ancestors(generation, health, controller_name, now);
    lemma_entries(ancestors_json(a));
    let o = health.outcome->0@;
    assert forall|i: int| 0 <= i < a.len() implies ({
        let e = #[trigger] ancestors_json(a)[i];
        &&& gives_verdict(
            e,
            o.accepted,
            o.accepted_reason,
            o.accepted_message,
            o.resolved_refs,
            o.resolved_refs_reason,
            o.resolved_refs_message,
            controller_name,
            generation as int,
            now,
        )
        &&& refers_to(e.at("ancestorRef"@), a[i].ancestor_ref)
    }) by {
        lemma_ancestor(a[i]);
        condition_json_carries_its_parts(a[i].conditions[0]);
        condition_json_carries_its_parts(a[i].conditions[1]);
    }
}

/// A condition has this type, status and reason at this generation.
pub open spec fn reads(
    c: ConditionView,
    type_: Seq<char>,
    status: Seq<char>,
    reason: Seq<char>,
    generation: i64,
) -> bool {
    &&& c.type_ == type_
    &&& c.status == status
    &&& c.reason == reason
    &&& c.observed_generation == Some(generation)
}

/// An entry that a policy has is the one for the Gateway with this namespace and name, and gives
/// the verdict on the policy.
pub open spec fn gives_live_verdict(
    a: AncestorView,
    ns: Seq<char>,
    name: Seq<char>,
    health: BackendTlsPolicyAncestorHealth,
    controller_name: Seq<char>,
    generation: i64,
) -> bool {
    let o = health.outcome->0@;
    &&& a.controller_name == controller_name
    &&& a.ancestor_ref.group == Some("gateway.networking.k8s.io"@)
    &&& a.ancestor_ref.kind == Some("Gateway"@)
    &&& a.ancestor_ref.namespace == Some(ns)
    &&& a.ancestor_ref.name == name
    &&& a.conditions.len() == 2
    &&& reads(
        a.conditions[0],
        "Accepted"@,
        yes_no(o.accepted),
        o.accepted_reason,
        generation,
    )
    &&& reads(
        a.conditions[1],
        "ResolvedRefs"@,
        yes_no(o.resolved_refs),
        o.resolved_refs_reason,
        generation,
    )
}

/// The status of a policy on TLS to backends agrees with the verdict on it exactly if it has one
/// entry for each Gateway that the policy bears on, in that order, with the verdict at the
/// generation of the policy, and none while there is no verdict.
pub proof fn policy_status_agrees_with_the_verdict(
    policy: BackendTlsPolicy,
    health: BackendTlsPolicyAncestorHealth,
    controller_name: Seq<char>,
)
    ensures
        ({
            let live = live_ancestors(policy);
            let keys = health.gateway_keys@;
            !ancestors_differ(
                desired_ancestors(policy.metadata.gen(), health, controller_name, EPOCH@),
                live,
            ) <==> {
                &&& health.outcome is None ==> live.len() == 0
                &&& health.outcome is Some ==> live.len() == keys.len()
                &&& forall|i: int|
                    0 <= i < live.len() ==> gives_live_verdict(
                        #[trigger] live[i],
                        keys[i].ns@,
                        keys[i].name@,
                        health,
                        controller_name,
                        policy.metadata.gen(),
                    )
            }
        }),
{
    let live = live_ancestors(policy);
    let keys = health.gateway_keys@;
    let g = policy.metadata.gen();
    let d = desired_ancestors(g, health, controller_name, EPOCH@);
    assert forall|i: int| 0 <= i < d.len() implies (!entry_differs(#[trigger] d[i], live[i])
        <==> gives_live_verdict(
        live[i],
        keys[i].ns@,
        keys[i].name@,
        health,
        controller_name,
        g,
    )) by {
        let want = d[i].conditions;
        let have = live[i].conditions;
        assert(want.len() == 2);
        let r = gateway_ref(keys[i]@);
        assert(d[i].ancestor_ref == r);
        if !entry_differs(d[i], live[i]) {
            assert(says_the_same(want[0], have[0]));
            assert(says_the_same(want[1], have[1]));
        }
        if gives_live_verdict(live[i], keys[i].ns@, keys[i].name@, health, controller_name, g) {
            assert(says_the_same(want[0], have[0]));
            assert(says_the_same(want[1], have[1]));
        }
    }
    if !ancestors_differ(d, live) {
        assert forall|i: int| 0 <= i < live.len() implies gives_live_verdict(
            #[trigger] live[i],
            keys[i].ns@,
            keys[i].name@,
            health,
            controller_name,
            g,
        ) by {
            assert(!entry_differs(d[i], live[i]));
        }
    } else if d.len() == live.len() {
        let i = choose|i: int| 0 <= i < d.len() && entry_differs(#[trigger] d[i], live[i]);
        assert(!gives_live_verdict(
            live[i],
            keys[i].ns@,
            keys[i].name@,
            health,
            controller_name,
            g,
        ));
    }
}

} // verus!
