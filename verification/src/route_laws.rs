//! What the written status of a route says of its parents.

use vstd::prelude::*;

use crate::conditions::{
    condition_json, condition_json_carries_its_parts, conditions_json, gets_status,
    names_listener_set,
    owned_parent, states, ConditionView,
};
use crate::json::{
    lemma_member_one, lemma_member_push, lemma_member_three, member, opt_str, JsonView,
};
use crate::resources::{parents, text_or, ParentRefView};
use crate::route_status::{
    desired_parents, grpc_write, has_condition_like, has_parent_like, health_for, http_write,
    kept_parents, opt_parents, owned_ref, parent_alike, parent_json, parent_ref_json, parent_status,
    parent_views, programmed_by, route_ns, route_patch_json, route_programmed, same_condition,
    unchanged, Route, RouteFacts, RouteParentHealth, RouteParentView,
};

verus! {

/// The text of a truth value in a condition.
pub open spec fn yes_no(b: bool) -> Seq<char> {
    if b {
        "True"@
    } else {
        "False"@
    }
}

/// The namespace of a route.
pub open spec fn home(route: Route) -> Seq<char> {
    match route.metadata.namespace {
        Some(n) => n@,
        None => "default"@,
    }
}

/// The reference leads to one of the Gateways `owned`: it is to a Gateway of the Gateway API, by
/// name or by default, and a reference without a namespace stays in that of the route.
pub open spec fn attaches(
    p: ParentRefView,
    ns: Seq<char>,
    owned: Set<(Seq<char>, Seq<char>)>,
) -> bool {
    &&& p.group is Some ==> p.group->0 == "gateway.networking.k8s.io"@
    &&& p.kind is Some ==> p.kind->0 == "Gateway"@
    &&& owned.contains((if p.namespace is Some { p.namespace->0 } else { ns }, p.name))
}

/// The health `h` is the one recorded for the route and the parent, or the one that stands for
/// parents of which nothing is recorded.
pub open spec fn is_recorded(
    h: RouteParentHealth,
    route: Route,
    facts: RouteFacts,
    p: ParentRefView,
) -> bool {
    let ns = home(route);
    let name = if route.metadata.name is Some {
        route.metadata.name->0@
    } else {
        ""@
    };
    let gateway_ns = if p.namespace is Some {
        p.namespace->0
    } else {
        ns
    };
    let section = if p.section_name is Some {
        p.section_name->0
    } else {
        ""@
    };
    let key = (ns, name, gateway_ns, p.name, section);
    &&& facts.health@.contains_key(key) ==> h == facts.health@[key]
    &&& !facts.health@.contains_key(key) ==> h == facts.fallback
}

/// A JSON value refers to the parent `p`.
pub open spec fn refers_to(j: JsonView, p: ParentRefView) -> bool {
    &&& j.at("group"@) == opt_str(p.group)
    &&& j.at("kind"@) == opt_str(p.kind)
    &&& j.at("name"@) == JsonView::Str(p.name)
    &&& j.at("namespace"@) == opt_str(p.namespace)
    &&& j.at("port"@) == (if p.port is Some {
        JsonView::Int(p.port->0 as int)
    } else {
        JsonView::Null
    })
    &&& j.at("sectionName"@) == opt_str(p.section_name)
}

/// A written entry tells of the parent `p` what the health `h` says of it.
pub open spec fn tells_of(
    e: JsonView,
    p: ParentRefView,
    h: RouteParentHealth,
    controller_name: Seq<char>,
    generation: int,
    now: Seq<char>,
) -> bool {
    let c = e.at("conditions"@).elements();
    &&& e.at("controllerName"@) == JsonView::Str(controller_name)
    &&& refers_to(e.at("parentRef"@), p)
    &&& c.len() == 3
    &&& states(c[0], "Accepted"@, yes_no(h.accepted), h.accepted_reason@, ""@, generation, now)
    &&& states(
        c[1],
        "Programmed"@,
        yes_no(h.accepted),
        if h.accepted {
            "Programmed"@
        } else {
            h.accepted_reason@
        },
        ""@,
        generation,
        now,
    )
    &&& states(
        c[2],
        "ResolvedRefs"@,
        yes_no(h.resolved_refs),
        h.resolved_refs_reason@,
        ""@,
        generation,
        now,
    )
}

/// A written entry tells of the parent `p` what is recorded of it.
pub open spec fn tells_recorded(
    e: JsonView,
    p: ParentRefView,
    route: Route,
    facts: RouteFacts,
    controller_name: Seq<char>,
    now: Seq<char>,
) -> bool {
    exists|h: RouteParentHealth| #[trigger]
        is_recorded(h, route, facts, p) && tells_of(
            e,
            p,
            h,
            controller_name,
            if route.metadata.generation is Some {
                route.metadata.generation->0 as int
            } else {
                0
            },
            now,
        )
}

/// The references of a route.
pub open spec fn all_refs(route: Route) -> Seq<ParentRefView> {
    if route.parent_refs is Some {
        parents(route.parent_refs->0@)
    } else {
        Seq::empty()
    }
}

/// The references of a route that lead to owned Gateways, in their order.
pub open spec fn owned_refs(route: Route, facts: RouteFacts) -> Seq<ParentRefView> {
    all_refs(route).filter(
        |p: ParentRefView| attaches(p, home(route), facts.owned_gateways@),
    )
}

/// Some reference of the route leads to an owned Gateway.
pub open spec fn has_owned_parent(route: Route, facts: RouteFacts) -> bool {
    exists|j: int|
        0 <= j < all_refs(route).len() && attaches(
            #[trigger] all_refs(route)[j],
            home(route),
            facts.owned_gateways@,
        )
}

/// A reference in JSON has each part of the reference under the name that the API gives it.
pub proof fn parent_ref_json_carries_its_parts(p: ParentRefView)
    ensures
        refers_to(parent_ref_json(p), p),
{
    reveal_strlit("group");
    reveal_strlit("kind");
    reveal_strlit("name");
    reveal_strlit("namespace");
    reveal_strlit("port");
    reveal_strlit("sectionName");
    assert("group"@.len() == 5 && "kind"@.len() == 4 && "name"@.len() == 4 && "namespace"@.len()
        == 9 && "port"@.len() == 4 && "sectionName"@.len() == 11);
    assert("kind"@[0] == 'k' && "name"@[0] == 'n' && "port"@[0] == 'p');
    let none = Seq::<(Seq<char>, JsonView)>::empty();
    assert forall|key: Seq<char>| true implies member(
        parent_ref_json(p)->Obj_0,
        key,
    ) == #[trigger] ref_part(p, key) by {
        let a = if p.group is Some {
            none.push(("group"@, JsonView::Str(p.group->0)))
        } else {
            none
        };
        lemma_member_push(none, ("group"@, JsonView::Str(p.group->0)), key);
        let b = if p.kind is Some {
            a.push(("kind"@, JsonView::Str(p.kind->0)))
        } else {
            a
        };
        lemma_member_push(a, ("kind"@, JsonView::Str(p.kind->0)), key);
        let c = b.push(("name"@, JsonView::Str(p.name)));
        lemma_member_push(b, ("name"@, JsonView::Str(p.name)), key);
        let d = if p.namespace is Some {
            c.push(("namespace"@, JsonView::Str(p.namespace->0)))
        } else {
            c
        };
        lemma_member_push(c, ("namespace"@, JsonView::Str(p.namespace->0)), key);
        let e = if p.port is Some {
            d.push(("port"@, JsonView::Int(p.port->0 as int)))
        } else {
            d
        };
        lemma_member_push(d, ("port"@, JsonView::Int(p.port->0 as int)), key);
        lemma_member_push(e, ("sectionName"@, JsonView::Str(p.section_name->0)), key);
    }
    assert(ref_part(p, "group"@) is Some <==> p.group is Some);
    assert(ref_part(p, "kind"@) is Some <==> p.kind is Some);
    assert(ref_part(p, "name"@) is Some);
    assert(ref_part(p, "namespace"@) is Some <==> p.namespace is Some);
    assert(ref_part(p, "port"@) is Some <==> p.port is Some);
    assert(ref_part(p, "sectionName"@) is Some <==> p.section_name is Some);
}

spec fn ref_part(p: ParentRefView, key: Seq<char>) -> Option<JsonView> {
    if key == "group"@ && p.group is Some {
        Some(JsonView::Str(p.group->0))
    } else if key == "kind"@ && p.kind is Some {
        Some(JsonView::Str(p.kind->0))
    } else if key == "name"@ {
        Some(JsonView::Str(p.name))
    } else if key == "namespace"@ && p.namespace is Some {
        Some(JsonView::Str(p.namespace->0))
    } else if key == "port"@ && p.port is Some {
        Some(JsonView::Int(p.port->0 as int))
    } else if key == "sectionName"@ && p.section_name is Some {
        Some(JsonView::Str(p.section_name->0))
    } else {
        None
    }
}

proof fn lemma_entry(
    p: ParentRefView,
    h: RouteParentHealth,
    controller_name: Seq<char>,
    generation: i64,
    now: Seq<char>,
)
    ensures
        tells_of(
            parent_json(parent_status(p, h, controller_name, generation, now)),
            p,
            h,
            controller_name,
            generation as int,
            now,
        ),
{
    reveal_strlit("conditions");
    reveal_strlit("controllerName");
    reveal_strlit("parentRef");
    assert("conditions"@.len() == 10 && "controllerName"@.len() == 14 && "parentRef"@.len() == 9);
    let s = parent_status(p, h, controller_name, generation, now);
    let x = ("conditions"@, conditions_json(s.conditions));
    let y = ("controllerName"@, JsonView::Str(s.controller_name));
    let z = ("parentRef"@, parent_ref_json(s.parent_ref));
    lemma_member_three(x, y, z, "conditions"@);
    lemma_member_three(x, y, z, "controllerName"@);
    lemma_member_three(x, y, z, "parentRef"@);
    parent_ref_json_carries_its_parts(p);
    condition_json_carries_its_parts(s.conditions[0]);
    condition_json_carries_its_parts(s.conditions[1]);
    condition_json_carries_its_parts(s.conditions[2]);
    let c = parent_json(s).at("conditions"@).elements();
    assert(c[0] == condition_json(s.conditions[0]));
    assert(c[1] == condition_json(s.conditions[1]));
    assert(c[2] == condition_json(s.conditions[2]));
}

proof fn lemma_kept(route: Route, facts: RouteFacts)
    ensures
        kept_parents(route, facts) == owned_refs(route, facts),
        forall|i: int|
            0 <= i < kept_parents(route, facts).len() ==> all_refs(route).contains(
                #[trigger] kept_parents(route, facts)[i],
            ) && attaches(kept_parents(route, facts)[i], home(route), facts.owned_gateways@),
        forall|j: int|
            0 <= j < all_refs(route).len() && attaches(
                #[trigger] all_refs(route)[j],
                home(route),
                facts.owned_gateways@,
            ) ==> kept_parents(route, facts).contains(all_refs(route)[j]),
{
    reveal(Seq::filter);
    assert(owned_refs(route, facts).len() == 0 || route.parent_refs is Some);
    if route.parent_refs is Some {
        let keep = |p: ParentRefView| owned_ref(p, home(route), facts.owned_gateways@);
        let own = |p: ParentRefView| attaches(p, home(route), facts.owned_gateways@);
        assert(keep =~= own);
        let refs = all_refs(route);
        let kept = kept_parents(route, facts);
        assert(kept == refs.filter(keep));
        assert forall|i: int| 0 <= i < kept.len() implies refs.contains(#[trigger] kept[i])
            && attaches(kept[i], home(route), facts.owned_gateways@) by {
            refs.lemma_filter_pred(keep, i);
            assert(keep(kept[i]));
            refs.lemma_filter_contains_rev(keep, kept[i]);
        }
        assert forall|j: int|
            0 <= j < refs.len() && attaches(
                #[trigger] refs[j],
                home(route),
                facts.owned_gateways@,
            ) implies kept.contains(refs[j]) by {
            assert(keep(refs[j]));
            refs.lemma_filter_contains(keep, j);
        }
    }
}

/// The entries of a written route status.
pub open spec fn entries_of(patch: JsonView) -> Seq<JsonView> {
    patch.at("status"@).at("parents"@).elements()
}

proof fn lemma_entries(p: Seq<RouteParentView>)
    ensures
        entries_of(route_patch_json(p)).len() == p.len(),
        forall|i: int|
            0 <= i < p.len() ==> #[trigger] entries_of(route_patch_json(p))[i] == parent_json(p[i]),
{
    let list = JsonView::Arr(Seq::new(p.len(), |i: int| parent_json(p[i])));
    lemma_member_one(("parents"@, list), "parents"@);
    lemma_member_one(("status"@, JsonView::Obj(seq![("parents"@, list)])), "status"@);
}

/// A route with a name is written exactly if one of its references leads to an owned Gateway.
pub proof fn route_is_written_for_an_owned_parent(
    route: Route,
    controller_name: Seq<char>,
    facts: RouteFacts,
    now: Seq<char>,
)
    ensures
        http_write(route, controller_name, facts, now) is Some <==> route.metadata.name is Some
            && has_owned_parent(route, facts),
{
    lemma_kept(route, facts);
    let kept = kept_parents(route, facts);
    if kept.len() > 0 {
        assert(all_refs(route).contains(kept[0]));
        let j = choose|j: int| 0 <= j < all_refs(route).len() && all_refs(route)[j] == kept[0];
        assert(attaches(all_refs(route)[j], home(route), facts.owned_gateways@));
    }
    if has_owned_parent(route, facts) {
        let j = choose|j: int|
            0 <= j < all_refs(route).len() && attaches(
                #[trigger] all_refs(route)[j],
                home(route),
                facts.owned_gateways@,
            );
        assert(kept.contains(all_refs(route)[j]));
    }
}

/// Some of the entries tells of the parent `p` what is recorded of it.
pub open spec fn told(
    e: Seq<JsonView>,
    p: ParentRefView,
    route: Route,
    facts: RouteFacts,
    controller_name: Seq<char>,
    now: Seq<char>,
) -> bool {
    exists|i: int|
        0 <= i < e.len() && tells_recorded(
            #[trigger] e[i],
            p,
            route,
            facts,
            controller_name,
            now,
        )
}

/// What is written for a route goes to that route and tells, for each reference that leads to an
/// owned Gateway, in their order, whether that parent accepts the route and whether the references
/// of the route resolve, as recorded for that parent; it tells of nothing else.
pub proof fn written_route_tells_what_is_recorded(
    route: Route,
    controller_name: Seq<char>,
    facts: RouteFacts,
    now: Seq<char>,
)
    requires
        http_write(route, controller_name, facts, now) is Some,
    ensures
        ({
            let w = http_write(route, controller_name, facts, now)->0;
            let e = entries_of(w.patch);
            &&& w.name == route.metadata.name->0@
            &&& w.namespace == home(route)
            &&& e.len() == owned_refs(route, facts).len()
            &&& forall|i: int|
                0 <= i < e.len() ==> tells_recorded(
                    #[trigger] e[i],
                    owned_refs(route, facts)[i],
                    route,
                    facts,
                    controller_name,
                    now,
                )
            &&& forall|j: int|
                0 <= j < all_refs(route).len() && attaches(
                    #[trigger] all_refs(route)[j],
                    home(route),
                    facts.owned_gateways@,
                ) ==> told(e, all_refs(route)[j], route, facts, controller_name, now)
        }),
{
    let d = desired_parents(route, controller_name, facts, route.metadata.gen(), now);
    let kept = kept_parents(route, facts);
    let refs = all_refs(route);
    let e = entries_of(http_write(route, controller_name, facts, now)->0.patch);
    lemma_entries(d);
    lemma_kept(route, facts);
    assert forall|i: int| 0 <= i < e.len() implies tells_recorded(
        #[trigger] e[i],
        kept[i],
        route,
        facts,
        controller_name,
        now,
    ) by {
        let name = text_or(route.metadata.name, ""@);
        let h = health_for(facts.health@, facts.fallback, home(route), name, kept[i]);
        assert(is_recorded(h, route, facts, kept[i]));
        lemma_entry(kept[i], h, controller_name, route.metadata.gen(), now);
        assert(e[i] == parent_json(d[i]));
    }
    assert forall|j: int|
        0 <= j < refs.len() && attaches(
            #[trigger] refs[j],
            home(route),
            facts.owned_gateways@,
        ) implies told(e, refs[j], route, facts, controller_name, now) by {
        assert(kept.contains(refs[j]));
        let i = choose|i: int| 0 <= i < kept.len() && kept[i] == refs[j];
        assert(tells_recorded(e[i], refs[j], route, facts, controller_name, now));
    }
}

/// Some condition has this type, status and reason at this generation, and nothing to add.
pub open spec fn shows(
    c: Seq<ConditionView>,
    type_: Seq<char>,
    status: Seq<char>,
    reason: Seq<char>,
    generation: i64,
) -> bool {
    exists|k: int|
        0 <= k < c.len() && (#[trigger] c[k]).type_ == type_ && c[k].status == status
            && c[k].reason == reason && c[k].message == ""@ && c[k].observed_generation == Some(
            generation,
        )
}

/// An entry that a status has already tells of the parent `p` what the health `h` says of it.
pub open spec fn already_tells(
    e: RouteParentView,
    p: ParentRefView,
    h: RouteParentHealth,
    controller_name: Seq<char>,
    generation: i64,
) -> bool {
    &&& e.controller_name == controller_name
    &&& e.parent_ref == p
    &&& e.conditions.len() == 3
    &&& shows(e.conditions, "Accepted"@, yes_no(h.accepted), h.accepted_reason@, generation)
    &&& shows(
        e.conditions,
        "Programmed"@,
        yes_no(h.accepted),
        if h.accepted {
            "Programmed"@
        } else {
            h.accepted_reason@
        },
        generation,
    )
    &&& shows(
        e.conditions,
        "ResolvedRefs"@,
        yes_no(h.resolved_refs),
        h.resolved_refs_reason@,
        generation,
    )
}

/// A status has an entry that tells of the parent `p` what is recorded of it.
pub open spec fn already_told(
    e: Seq<RouteParentView>,
    p: ParentRefView,
    route: Route,
    facts: RouteFacts,
    controller_name: Seq<char>,
) -> bool {
    exists|h: RouteParentHealth, k: int|
        0 <= k < e.len() && #[trigger] is_recorded(h, route, facts, p) && already_tells(
            #[trigger] e[k],
            p,
            h,
            controller_name,
            route.metadata.generation->0,
        )
}

/// The queue of a route skips the write only where the status already tells of each owned parent
/// what is recorded of it, and has no other entries; so whenever something else is recorded, the
/// route is written.
pub proof fn skipped_route_already_tells(
    route: Route,
    controller_name: Seq<char>,
    facts: RouteFacts,
    now: Seq<char>,
)
    requires
        grpc_write(route, controller_name, facts, now) is None,
        route.metadata.name is Some,
        route.metadata.generation is Some,
        has_owned_parent(route, facts),
    ensures
        route.parents is Some,
        route.parents->0@.len() == owned_refs(route, facts).len(),
        forall|j: int|
            0 <= j < all_refs(route).len() && attaches(
                #[trigger] all_refs(route)[j],
                home(route),
                facts.owned_gateways@,
            ) ==> already_told(
                parent_views(route.parents->0@),
                all_refs(route)[j],
                route,
                facts,
                controller_name,
            ),
{
    let generation = route.metadata.generation->0;
    let d = desired_parents(route, controller_name, facts, generation, now);
    let kept = kept_parents(route, facts);
    let refs = all_refs(route);
    lemma_kept(route, facts);
    route_is_written_for_an_owned_parent(route, controller_name, facts, now);
    assert(kept.len() > 0);
    assert(unchanged(d, opt_parents(route.parents)));
    let e = parent_views(route.parents->0@);
    assert forall|j: int|
        0 <= j < refs.len() && attaches(
            #[trigger] refs[j],
            home(route),
            facts.owned_gateways@,
        ) implies already_told(e, refs[j], route, facts, controller_name) by {
        assert(kept.contains(refs[j]));
        let i = choose|i: int| 0 <= i < kept.len() && kept[i] == refs[j];
        let name = text_or(route.metadata.name, ""@);
        let h = health_for(facts.health@, facts.fallback, home(route), name, kept[i]);
        assert(is_recorded(h, route, facts, refs[j]));
        assert(has_parent_like(d[i], e));
        let k = choose|k: int| 0 <= k < e.len() && parent_alike(d[i], #[trigger] e[k]);
        let want = d[i].conditions;
        let have = e[k].conditions;
        assert(want.len() == 3);
        assert(has_condition_like(want[0], have));
        assert(has_condition_like(want[1], have));
        assert(has_condition_like(want[2], have));
        let a = choose|a: int| 0 <= a < have.len() && same_condition(want[0], #[trigger] have[a]);
        let b = choose|b: int| 0 <= b < have.len() && same_condition(want[1], #[trigger] have[b]);
        let c = choose|c: int| 0 <= c < have.len() && same_condition(want[2], #[trigger] have[c]);
        assert(have[a].type_ == "Accepted"@);
        assert(have[b].type_ == "Programmed"@);
        assert(have[c].type_ == "ResolvedRefs"@);
        assert(already_tells(e[k], refs[j], h, controller_name, generation));
    }
}

/// Only a route for which this controller has reported, at the current generation, on an owned
/// parent counts as programmed.
pub proof fn programmed_route_was_reported(
    route: Route,
    controller_name: Seq<char>,
    owned: Set<(Seq<char>, Seq<char>)>,
)
    requires
        route_programmed(route, controller_name, owned),
    ensures
        route.parents is Some,
        exists|i: int, k: int, m: int|
            #![trigger route.parents->0@[i], route.parents->0@[i]@.conditions[k],
                route.parents->0@[i]@.conditions[m]]
            {
                let e = route.parents->0@[i]@;
                &&& 0 <= i < route.parents->0@.len()
                &&& e.controller_name == controller_name
                &&& attaches(e.parent_ref, home(route), owned)
                &&& 0 <= k < e.conditions.len() && e.conditions[k].type_ == "Programmed"@
                &&& e.conditions[k].gen() >= route.metadata.gen()
                &&& 0 <= m < e.conditions.len() && e.conditions[m].type_ == "ResolvedRefs"@
                &&& e.conditions[m].gen() >= route.metadata.gen()
            },
{
    let i = choose|i: int|
        0 <= i < route.parents->0@.len() && programmed_by(
            (#[trigger] route.parents->0@[i])@,
            controller_name,
            route.metadata.gen() as int,
            route_ns(route),
            owned,
        );
    let e = route.parents->0@[i]@;
    let g = route.metadata.gen() as int;
    let k = choose|k: int|
        0 <= k < e.conditions.len() && (#[trigger] e.conditions[k]).type_ == "Programmed"@
            && e.conditions[k].gen() >= g;
    let m = choose|m: int|
        0 <= m < e.conditions.len() && (#[trigger] e.conditions[m]).type_ == "ResolvedRefs"@
            && e.conditions[m].gen() >= g;
    assert(0 <= k < e.conditions.len() && e.conditions[k].type_ == "Programmed"@);
    assert(0 <= m < e.conditions.len() && e.conditions[m].type_ == "ResolvedRefs"@);
}

/// A reference is to a ListenerSet exactly if it names that kind, of the Gateway API by name or by
/// default.
pub proof fn listener_sets_are_named_by_kind(group: Option<Seq<char>>, kind: Option<Seq<char>>)
    ensures
        names_listener_set(group, kind) <==> kind is Some && kind->0 == "ListenerSet"@ && (group
            is None || group->0 == "gateway.networking.k8s.io"@),
{
}

/// A parent is owned exactly if it is a Gateway of the Gateway API, by name or by default, and one
/// of those given, in the namespace that is named or the one to fall back on.
pub proof fn owned_parents_are_owned_gateways(
    group: Option<Seq<char>>,
    kind: Option<Seq<char>>,
    namespace: Option<Seq<char>>,
    name: Seq<char>,
    default_ns: Seq<char>,
    owned: Set<(Seq<char>, Seq<char>)>,
)
    ensures
        owned_parent(group, kind, namespace, name, default_ns, owned) <==> {
            &&& group is Some ==> group->0 == "gateway.networking.k8s.io"@
            &&& kind is Some ==> kind->0 == "Gateway"@
            &&& namespace is Some ==> owned.contains((namespace->0, name))
            &&& namespace is None ==> owned.contains((default_ns, name))
        },
{
}

/// The queue of a route writes only a route that has a name, a generation and an owned parent, and
/// then what is written for it in any case.
pub proof fn queue_writes_what_is_owed(
    route: Route,
    controller_name: Seq<char>,
    facts: RouteFacts,
    now: Seq<char>,
)
    ensures
        grpc_write(route, controller_name, facts, now) is Some ==> {
            &&& route.metadata.name is Some
            &&& route.metadata.generation is Some
            &&& has_owned_parent(route, facts)
            &&& grpc_write(route, controller_name, facts, now) == http_write(
                route,
                controller_name,
                facts,
                now,
            )
        },
{
    route_is_written_for_an_owned_parent(route, controller_name, facts, now);
}

/// A reference to a ListenerSet gets a status entry exactly if health was recorded for it, and any
/// other exactly if it leads to an owned Gateway.
pub proof fn sets_get_status_by_their_health(
    p: ParentRefView,
    ns: Seq<char>,
    owned: Set<(Seq<char>, Seq<char>)>,
    health_present: bool,
)
    ensures
        ({
            let r = gets_status(
                p.group,
                p.kind,
                p.namespace,
                p.name,
                ns,
                owned,
                health_present,
            );
            let to_set = p.kind is Some && p.kind->0 == "ListenerSet"@ && (p.group is None
                || p.group->0 == "gateway.networking.k8s.io"@);
            &&& to_set ==> r == health_present
            &&& !to_set ==> r == attaches(p, ns, owned)
        }),
{
}

} // verus!
