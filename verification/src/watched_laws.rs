//! What the watcher knows and writes.

use vstd::prelude::*;

use crate::conditions::{
    condition, condition_json, condition_json_carries_its_parts, conditions_json, states, true_at,
    ConditionView,
};
use crate::config::StatusAddress;
use crate::gateway_status::{address_json, gateway_patch_json, listener_json};
use crate::ingress_laws::ingress_patch_publishes_the_address;
use crate::ingress_status::Ingress;
use crate::json::{lemma_member_one, lemma_member_push, lemma_member_two, opt_str, JsonView};
use crate::leadership::LeaseReply;
use crate::listener_laws::{
    address_json_carries_its_parts, first_entry_counts, is_entry_of,
    listener_json_carries_its_parts,
};
use crate::listenerset_laws::is_api_kind;
use crate::resources::{Gateway, GatewayClass, Listener, ObjectMeta, RouteKindView};
use crate::route_laws::yes_no;
use crate::route_status::{http_write, route_programmed, Route, RouteFacts};
use crate::table::enumerates;
use crate::watched_status::{
    address_current, carried_kinds, gateway_settled, gateway_status_report, gateway_write,
    ingress_write, is_http, is_true, listed_kinds, listener_report, listener_settled,
    lists_foreign_kind, no_ports, GatewayListenerHealth,
};
use crate::watcher::{
    answers, class_patch, due_route, due_routes, health_of, kept_after, ActionView, WatchEvent,
    WatchFacts, WatcherView,
};

verus! {

/// The listener lists the kind at `i`, and it is no `HTTPRoute` of the Gateway API.
pub open spec fn is_foreign(l: Listener, i: int) -> bool {
    l.allowed_kinds is Some && 0 <= i < l.allowed_kinds->0@.len() && !is_api_kind(
        l.allowed_kinds->0@[i]@,
        "HTTPRoute"@,
    )
}

/// A listener carries `HTTPRoute` of the Gateway API where it lists that kind or none at all, and
/// never anything else; its kinds are refused exactly if one of them is another.
pub proof fn watched_listener_carries_http_only(l: Listener)
    ensures
        ({
            let k = carried_kinds(l);
            let listed = l.allowed_kinds is Some && l.allowed_kinds->0@.len() > 0;
            &&& k.len() <= 1
            &&& k.len() == 1 ==> k[0].kind == "HTTPRoute"@ && k[0].group == Some(
                "gateway.networking.k8s.io"@,
            )
            &&& !listed ==> k.len() == 1
            &&& listed ==> (k.len() == 1 <==> exists|i: int|
                0 <= i < l.allowed_kinds->0@.len() && is_api_kind(
                    (#[trigger] l.allowed_kinds->0@[i])@,
                    "HTTPRoute"@,
                ))
            &&& lists_foreign_kind(l) <==> exists|i: int| #[trigger] is_foreign(l, i)
        }),
{
    reveal_strlit("");
    assert forall|k: RouteKindView| #[trigger] is_http(k) == is_api_kind(k, "HTTPRoute"@) by {
        assert(k.group is Some ==> (k.group->0.len() == 0 <==> k.group->0 =~= ""@));
    }
    let a = listed_kinds(l);
    if l.allowed_kinds is Some {
        let v = l.allowed_kinds->0@;
        assert(a.len() == v.len());
        if exists|i: int| 0 <= i < a.len() && is_http(#[trigger] a[i]) {
            let i = choose|i: int| 0 <= i < a.len() && is_http(#[trigger] a[i]);
            assert(is_api_kind(v[i]@, "HTTPRoute"@));
        }
        if exists|i: int| 0 <= i < v.len() && is_api_kind((#[trigger] v[i])@, "HTTPRoute"@) {
            let i = choose|i: int|
                0 <= i < v.len() && is_api_kind((#[trigger] v[i])@, "HTTPRoute"@);
            assert(is_http(a[i]));
        }
        if lists_foreign_kind(l) {
            let i = choose|i: int| 0 <= i < a.len() && !is_http(#[trigger] a[i]);
            assert(is_foreign(l, i));
        }
        if exists|i: int| #[trigger] is_foreign(l, i) {
            let i = choose|i: int| #[trigger] is_foreign(l, i);
            assert(!is_http(a[i]));
        }
    } else {
        assert(a.len() == 0);
        assert(forall|i: int| !(#[trigger] is_foreign(l, i)));
    }
}

/// Nothing is recorded against the certificate of the listener.
pub open spec fn is_healthy(health: GatewayListenerHealth, name: Seq<char>) -> bool {
    health.by_listener@.contains_key(name) ==> health.by_listener@[name].healthy
}

/// The number of routes recorded for the listener.
pub open spec fn recorded_routes(health: GatewayListenerHealth, name: Seq<char>) -> int {
    if health.attached_routes@.contains_key(name) {
        health.attached_routes@[name] as int
    } else {
        0
    }
}

/// A condition of the type is true.
pub open spec fn holds(c: Seq<ConditionView>, t: Seq<char>) -> bool {
    exists|i: int| 0 <= i < c.len() && (#[trigger] c[i]).type_ == t && c[i].status == "True"@
}

/// A Gateway that needs no patch is accepted and programmed, has as many entries as listeners, and
/// reports for each listener as many routes as are recorded for it and that its references resolve
/// exactly if it lists no foreign kind and nothing is recorded against its certificate. Only a
/// listener whose references do not resolve and which has no routes may be without an entry.
pub proof fn settled_watched_gateway_reports_its_listeners(
    gw: Gateway,
    health: GatewayListenerHealth,
    i: int,
) -> (k: int)
    requires
        gateway_settled(gw, health),
        0 <= i < gw.spec.listeners@.len(),
    ensures
        holds(gw.conds(), "Accepted"@),
        holds(gw.conds(), "Programmed"@),
        gw.listener_statuses().len() == gw.spec.listeners@.len(),
        ({
            let l = gw.spec.listeners@[i];
            let s = gw.listener_statuses();
            let resolved = (forall|m: int| !#[trigger] is_foreign(l, m)) && is_healthy(
                health,
                l.name@,
            );
            &&& 0 <= k <= s.len()
            &&& k < s.len() ==> is_entry_of(s, l.name@, k) && s[k].attached_routes
                == recorded_routes(health, l.name@) && (holds(s[k].conditions, "ResolvedRefs"@)
                <==> resolved)
            &&& k == s.len() ==> !resolved && recorded_routes(health, l.name@) == 0 && forall|
                j: int,
            | 0 <= j < s.len() ==> (#[trigger] s[j]).name != l.name@
        }),
{
    let l = gw.spec.listeners@[i];
    let s = gw.listener_statuses();
    watched_listener_carries_http_only(l);
    let k = first_entry_counts(s, l.name@);
    assert(listener_settled(s, l, health));
    if k < s.len() {
        assert(is_true(s[k].conditions, "ResolvedRefs"@) == holds(
            s[k].conditions,
            "ResolvedRefs"@,
        ));
    }
    assert(is_true(gw.conds(), "Accepted"@) == holds(gw.conds(), "Accepted"@));
    assert(is_true(gw.conds(), "Programmed"@) == holds(gw.conds(), "Programmed"@));
    k
}

/// The conditions of the entry of a listener: it is accepted; its references resolve unless it
/// lists a foreign kind or something is recorded against its certificate; and it is programmed
/// unless something is recorded against its certificate.
pub open spec fn tells_of_watched_listener(
    j: JsonView,
    l: Listener,
    health: GatewayListenerHealth,
    generation: int,
    now: Seq<char>,
) -> bool {
    let c = j.at("conditions"@).elements();
    let fit = is_healthy(health, l.name@);
    let o = health.by_listener@[l.name@];
    let foreign = exists|m: int| #[trigger] is_foreign(l, m);
    &&& j.at("name"@) == JsonView::Str(l.name@)
    &&& j.at("attachedRoutes"@) == JsonView::Int(recorded_routes(health, l.name@))
    &&& j.at("supportedKinds"@).elements().len() == carried_kinds(l).len()
    &&& forall|m: int|
        0 <= m < carried_kinds(l).len() ==> (#[trigger] j.at("supportedKinds"@).elements()[m]).at(
            "kind"@,
        ) == JsonView::Str(carried_kinds(l)[m].kind) && j.at("supportedKinds"@).elements()[m].at(
            "group"@,
        ) == opt_str(carried_kinds(l)[m].group)
    &&& c.len() == 3
    &&& states(c[0], "Accepted"@, "True"@, "Accepted"@, ""@, generation, now)
    &&& states(
        c[1],
        "ResolvedRefs"@,
        yes_no(!foreign && fit),
        if foreign {
            "InvalidRouteKinds"@
        } else if fit {
            "ResolvedRefs"@
        } else {
            o.reason@
        },
        if foreign {
            "One or more specified route kinds are not supported by this implementation"@
        } else if fit {
            ""@
        } else {
            o.message@
        },
        generation,
        now,
    )
    &&& states(
        c[2],
        "Programmed"@,
        yes_no(fit),
        if fit {
            "Programmed"@
        } else {
            o.reason@
        },
        if fit {
            ""@
        } else {
            o.message@
        },
        generation,
        now,
    )
}

proof fn lemma_report(
    l: Listener,
    health: GatewayListenerHealth,
    generation: i64,
    now: Seq<char>,
)
    ensures
        tells_of_watched_listener(
            listener_json(listener_report(l, health, generation, now)),
            l,
            health,
            generation as int,
            now,
        ),
{
    let r = listener_report(l, health, generation, now);
    listener_json_carries_its_parts(r);
    watched_listener_carries_http_only(l);
    condition_json_carries_its_parts(r.conditions[0]);
    condition_json_carries_its_parts(r.conditions[1]);
    condition_json_carries_its_parts(r.conditions[2]);
    let c = listener_json(r).at("conditions"@).elements();
    assert(c[0] == condition_json(r.conditions[0]));
    assert(c[1] == condition_json(r.conditions[1]));
    assert(c[2] == condition_json(r.conditions[2]));
}

/// A Gateway with a name is written: as accepted and programmed, with an entry for each of its
/// listeners in their order, and with the address of the controller where there is one.
pub proof fn watched_gateway_write_tells_its_listeners(
    gw: Gateway,
    health: GatewayListenerHealth,
    now: Seq<char>,
    addr: Option<StatusAddress>,
)
    ensures
        ({
            let w = gateway_write(gw, health, now, addr);
            let j = w->0.patch.at("status"@);
            let c = j.at("conditions"@).elements();
            let s = j.at("listeners"@).elements();
            let a = j.at("addresses"@).elements();
            let generation = if gw.metadata.generation is Some {
                gw.metadata.generation->0 as int
            } else {
                0
            };
            &&& w is Some <==> gw.metadata.name is Some
            &&& w is Some ==> {
                &&& w->0.name == gw.metadata.name->0@
                &&& w->0.namespace == if gw.metadata.namespace is Some {
                    gw.metadata.namespace->0@
                } else {
                    "default"@
                }
                &&& c.len() == 2
                &&& states(c[0], "Accepted"@, "True"@, "Accepted"@, ""@, generation, now)
                &&& states(c[1], "Programmed"@, "True"@, "Programmed"@, ""@, generation, now)
                &&& s.len() == gw.spec.listeners@.len()
                &&& forall|i: int|
                    0 <= i < s.len() ==> tells_of_watched_listener(
                        #[trigger] s[i],
                        gw.spec.listeners@[i],
                        health,
                        generation,
                        now,
                    )
                &&& addr is None ==> j.at("addresses"@) is Null
                &&& addr is Some ==> a.len() == 1 && a[0].at("type"@) == JsonView::Str(
                    if addr->0 is Ip {
                        "IPAddress"@
                    } else {
                        "Hostname"@
                    },
                ) && a[0].at("value"@) == JsonView::Str(addr->0.value())
            }
        }),
{
    reveal_strlit("conditions");
    reveal_strlit("listeners");
    reveal_strlit("addresses");
    assert("conditions"@.len() == 10 && "listeners"@.len() == 9 && "addresses"@.len() == 9);
    assert("listeners"@[0] == 'l' && "addresses"@[0] == 'a');
    let p = gateway_status_report(gw, health, gw.metadata.gen(), now, addr);
    let x = ("conditions"@, conditions_json(p.conditions));
    let y = (
        "listeners"@,
        JsonView::Arr(Seq::new(p.listeners.len(), |i: int| listener_json(p.listeners[i]))),
    );
    let list = p.addresses->0;
    let z = ("addresses"@, JsonView::Arr(Seq::new(list.len(), |i: int| address_json(list[i]))));
    let base = seq![x, y];
    let status = if addr is Some {
        base.push(z)
    } else {
        base
    };
    lemma_member_one(("status"@, JsonView::Obj(status)), "status"@);
    lemma_member_two(x, y, "conditions"@);
    lemma_member_two(x, y, "listeners"@);
    lemma_member_two(x, y, "addresses"@);
    lemma_member_push(base, z, "conditions"@);
    lemma_member_push(base, z, "listeners"@);
    lemma_member_push(base, z, "addresses"@);
    let j = gateway_patch_json(p).at("status"@);
    let c = j.at("conditions"@).elements();
    assert(c[0] == condition_json(p.conditions[0]));
    assert(c[1] == condition_json(p.conditions[1]));
    condition_json_carries_its_parts(p.conditions[0]);
    condition_json_carries_its_parts(p.conditions[1]);
    let s = j.at("listeners"@).elements();
    assert forall|i: int| 0 <= i < s.len() implies tells_of_watched_listener(
        #[trigger] s[i],
        gw.spec.listeners@[i],
        health,
        gw.metadata.gen() as int,
        now,
    ) by {
        lemma_report(gw.spec.listeners@[i], health, gw.metadata.gen(), now);
        assert(s[i] == listener_json(p.listeners[i]));
    }
    if addr is Some {
        address_json_carries_its_parts(list[0]);
        assert(j.at("addresses"@).elements()[0] == address_json(list[0]));
    }
}

/// An Ingress with a name is written with the address and no ports; one that needs no patch has the
/// address in its first entry.
pub proof fn watched_ingress_write_publishes_the_address(ing: Ingress, addr: StatusAddress)
    ensures
        ({
            let w = ingress_write(ing, addr);
            let e = w->0.patch.at("status"@).at("loadBalancer"@).at("ingress"@).elements();
            &&& w is Some <==> ing.metadata.name is Some
            &&& w is Some ==> {
                &&& w->0.name == ing.metadata.name->0@
                &&& w->0.namespace == if ing.metadata.namespace is Some {
                    ing.metadata.namespace->0@
                } else {
                    "default"@
                }
                &&& e.len() == 1
                &&& addr is Ip ==> e[0].at("ip"@) == JsonView::Str(addr->Ip_0@) && e[0].at(
                    "hostname"@,
                ) is Null
                &&& addr is Hostname ==> e[0].at("hostname"@) == JsonView::Str(addr->Hostname_0@)
                    && e[0].at("ip"@) is Null
                &&& e[0].at("ports"@) is Null
            }
        }),
        address_current(ing, addr) <==> ing.load_balancer is Some && ing.load_balancer->0@.len()
            > 0 && (addr is Ip ==> ing.load_balancer->0@[0].ip is Some
            && ing.load_balancer->0@[0].ip->0@ == addr->Ip_0@) && (addr is Hostname
            ==> ing.load_balancer->0@[0].hostname is Some && ing.load_balancer->0@[0].hostname->0@
            == addr->Hostname_0@),
{
    ingress_patch_publishes_the_address(addr, no_ports());
}

/// The namespace and name of an object, each empty where there is none.
pub open spec fn full_key(m: ObjectMeta) -> (Seq<char>, Seq<char>) {
    (
        if m.namespace is Some {
            m.namespace->0@
        } else {
            ""@
        },
        if m.name is Some {
            m.name->0@
        } else {
            ""@
        },
    )
}

/// What is applied is known from then on under its namespace and name, until it is deleted; nothing
/// else that is known changes with it.
pub proof fn applied_routes_are_known(x: WatcherView, me: Seq<char>, r: Route)
    ensures
        ({
            let y = kept_after(x, me, WatchEvent::RouteApplied(r));
            let z = kept_after(x, me, WatchEvent::RouteDeleted(r));
            &&& y.routes.contains_key(full_key(r.metadata))
            &&& y.routes[full_key(r.metadata)] == r
            &&& y.routes.remove(full_key(r.metadata)) =~= x.routes.remove(full_key(r.metadata))
            &&& y.leader == x.leader && y.gateways == x.gateways && y.gateway_classes
                == x.gateway_classes && y.ingress_classes == x.ingress_classes
            &&& z.routes =~= x.routes.remove(full_key(r.metadata))
            &&& z.leader == x.leader && z.gateways == x.gateways && z.gateway_classes
                == x.gateway_classes && z.ingress_classes == x.ingress_classes
        }),
{
}

/// A Gateway that is applied is known from then on, until it is deleted, if its class is the
/// controller's; any other is not taken note of.
pub proof fn applied_gateways_of_own_classes_are_known(
    x: WatcherView,
    me: Seq<char>,
    gw: Gateway,
)
    ensures
        ({
            let y = kept_after(x, me, WatchEvent::GatewayApplied(gw));
            let z = kept_after(x, me, WatchEvent::GatewayDeleted(gw));
            let k = full_key(gw.metadata);
            &&& x.gateway_classes.contains(gw.spec.gateway_class_name@)
                ==> y.gateways.contains_key(k) && y.gateways[k] == gw && y.gateways.remove(k)
                =~= x.gateways.remove(k)
            &&& !x.gateway_classes.contains(gw.spec.gateway_class_name@) ==> y.gateways
                == x.gateways
            &&& y.leader == x.leader && y.routes == x.routes && y.gateway_classes
                == x.gateway_classes && y.ingress_classes == x.ingress_classes
            &&& z.gateways =~= x.gateways.remove(k)
            &&& z.leader == x.leader && z.routes == x.routes && z.gateway_classes
                == x.gateway_classes && z.ingress_classes == x.ingress_classes
        }),
{
}

/// A class is the controller's from when it is applied with the controller's name until it is
/// deleted, and an Ingress class also until it is applied with another name; a class of another
/// controller bears on nothing.
pub proof fn classes_are_known_by_their_controller(
    x: WatcherView,
    me: Seq<char>,
    gc: GatewayClass,
    name: Option<String>,
    controller: Option<String>,
    other: Seq<char>,
)
    ensures
        ({
            let n = full_key(gc.metadata).1;
            let mine = gc.controller_name@ == me;
            let y = kept_after(x, me, WatchEvent::GatewayClassApplied(gc)).gateway_classes;
            let z = kept_after(x, me, WatchEvent::GatewayClassDeleted(gc)).gateway_classes;
            &&& mine ==> y.contains(n) && !z.contains(n)
            &&& !mine ==> y == x.gateway_classes && z == x.gateway_classes
            &&& other != n ==> y.contains(other) == x.gateway_classes.contains(other)
                && z.contains(other) == x.gateway_classes.contains(other)
        }),
        ({
            let n = if name is Some {
                name->0@
            } else {
                ""@
            };
            let mine = controller is Some && controller->0@ == me;
            let y = kept_after(
                x,
                me,
                WatchEvent::IngressClassApplied { name, controller },
            ).ingress_classes;
            let z = kept_after(x, me, WatchEvent::IngressClassDeleted { name }).ingress_classes;
            &&& y.contains(n) <==> mine
            &&& !z.contains(n)
            &&& other != n ==> y.contains(other) == x.ingress_classes.contains(other)
                && z.contains(other) == x.ingress_classes.contains(other)
        }),
{
}

/// The watcher leads from when it acquires the lease, and leads no more with any other answer; it
/// makes known that it leads exactly when that changes.
pub proof fn lease_decides_who_leads(
    a: Seq<ActionView>,
    x: WatcherView,
    me: Seq<char>,
    addr: Option<StatusAddress>,
    reply: LeaseReply,
    facts: WatchFacts,
    now: Seq<char>,
)
    requires
        answers(a, x, me, addr, WatchEvent::LeaseReplied(reply), facts, now),
    ensures
        kept_after(x, me, WatchEvent::LeaseReplied(reply)).leader <==> reply is Acquired,
        x.leader == (reply is Acquired) ==> a.len() == 0,
        x.leader != (reply is Acquired) ==> a.len() == 1 && a[0]
            == ActionView::PublishLeadership(reply is Acquired),
{
}

/// The leader writes a route that is applied exactly if it does not count as programmed yet and
/// has something to be told.
pub proof fn applied_route_is_written_once(
    a: Seq<ActionView>,
    x: WatcherView,
    me: Seq<char>,
    addr: Option<StatusAddress>,
    r: Route,
    facts: WatchFacts,
    now: Seq<char>,
)
    requires
        answers(a, x, me, addr, WatchEvent::RouteApplied(r), facts, now),
        x.leader,
    ensures
        a.len() == 1 <==> !route_programmed(r, me, facts.routes.owned_gateways@) && http_write(
            r,
            me,
            facts.routes,
            now,
        ) is Some,
        a.len() <= 1,
        a.len() == 1 ==> a[0] == ActionView::PatchRoute(
            http_write(r, me, facts.routes, now)->0,
        ),
{
}

/// The leader accepts a class of this controller, at its generation, exactly if it is not accepted
/// there yet.
pub proof fn applied_class_is_accepted_once(
    a: Seq<ActionView>,
    x: WatcherView,
    me: Seq<char>,
    addr: Option<StatusAddress>,
    gc: GatewayClass,
    facts: WatchFacts,
    now: Seq<char>,
)
    requires
        answers(a, x, me, addr, WatchEvent::GatewayClassApplied(gc), facts, now),
        x.leader,
    ensures
        ({
            let accepted = exists|i: int|
                0 <= i < gc.conds().len() && (#[trigger] gc.conds()[i]).type_ == "Accepted"@
                    && gc.conds()[i].status == "True"@ && gc.conds()[i].gen()
                    >= gc.metadata.gen();
            let j = a[0]->PatchGatewayClass_patch.at("status"@).at("conditions"@).elements();
            &&& a.len() == 1 <==> gc.controller_name@ == me && !accepted
            &&& a.len() <= 1
            &&& a.len() == 1 ==> {
                &&& a[0] is PatchGatewayClass
                &&& a[0]->PatchGatewayClass_name == full_key(gc.metadata).1
                &&& j.len() == 1
                &&& states(
                    j[0],
                    "Accepted"@,
                    "True"@,
                    "Accepted"@,
                    ""@,
                    gc.metadata.gen() as int,
                    now,
                )
            }
        }),
{
    let g = gc.metadata.gen();
    assert(true_at(gc.conds(), "Accepted"@, g as int) <==> exists|i: int|
        0 <= i < gc.conds().len() && (#[trigger] gc.conds()[i]).type_ == "Accepted"@
            && gc.conds()[i].status == "True"@ && gc.conds()[i].gen() >= g);
    let c = condition("Accepted"@, "True"@, "Accepted"@, ""@, g, now);
    let inner = ("conditions"@, conditions_json(seq![c]));
    lemma_member_one(inner, "conditions"@);
    lemma_member_one(("status"@, JsonView::Obj(seq![inner])), "status"@);
    condition_json_carries_its_parts(c);
    let j = class_patch(g, now).at("status"@).at("conditions"@).elements();
    assert(j[0] == condition_json(c));
}

/// The leader writes a Gateway of its classes that is applied exactly if its status does not agree
/// with its health; before everything has been listed once it only accepts a Gateway that is not
/// accepted yet, as if nothing were known of its health.
pub proof fn applied_gateway_is_written_when_due(
    a: Seq<ActionView>,
    x: WatcherView,
    me: Seq<char>,
    addr: Option<StatusAddress>,
    gw: Gateway,
    facts: WatchFacts,
    now: Seq<char>,
)
    requires
        answers(a, x, me, addr, WatchEvent::GatewayApplied(gw), facts, now),
        x.leader,
        gw.metadata.name is Some,
    ensures
        ({
            let k = full_key(gw.metadata);
            let known = if facts.tls_health@.contains_key(k) {
                facts.tls_health@[k]
            } else {
                facts.unknown_health
            };
            let health = if facts.synced {
                known
            } else {
                facts.unknown_health
            };
            &&& a.len() == 1 <==> x.gateway_classes.contains(gw.spec.gateway_class_name@)
                && !gateway_settled(gw, health) && (facts.synced || !holds(
                gw.conds(),
                "Accepted"@,
            ))
            &&& a.len() <= 1
            &&& a.len() == 1 ==> a[0] == ActionView::PatchGateway(
                gateway_write(gw, health, now, addr)->0,
            )
        }),
{
    assert(is_true(gw.conds(), "Accepted"@) == holds(gw.conds(), "Accepted"@));
    assert(health_of(facts, full_key(gw.metadata)) == health_of(facts, gw.metadata.key_view()));
}

/// The leader writes an Ingress that is applied exactly if there is an address to publish, the
/// class that the Ingress claims is the controller's, and the address is not published yet.
pub proof fn applied_ingress_is_written_when_due(
    a: Seq<ActionView>,
    x: WatcherView,
    me: Seq<char>,
    addr: Option<StatusAddress>,
    ing: Ingress,
    facts: WatchFacts,
    now: Seq<char>,
)
    requires
        answers(a, x, me, addr, WatchEvent::IngressApplied(ing), facts, now),
        x.leader,
        ing.metadata.name is Some,
    ensures
        a.len() == 1 <==> addr is Some && ing.claimed_class is Some && x.ingress_classes.contains(
            ing.claimed_class->0@,
        ) && !address_current(ing, addr->0),
        a.len() <= 1,
        a.len() == 1 ==> a[0] == ActionView::PatchIngress(ingress_write(ing, addr->0)->0),
{
}

/// A watcher that is told to stop steps down first if it leads, and then stops.
pub proof fn watcher_steps_down_before_it_stops(
    a: Seq<ActionView>,
    x: WatcherView,
    me: Seq<char>,
    addr: Option<StatusAddress>,
    facts: WatchFacts,
    now: Seq<char>,
)
    requires
        answers(a, x, me, addr, WatchEvent::Shutdown, facts, now),
    ensures
        a.len() > 0,
        a[a.len() - 1] is Stop,
        x.leader ==> a.len() == 2 && a[0] is StepDown,
        !x.leader ==> a.len() == 1,
{
}

/// When the health of routes changes, the leader writes exactly the known routes that have
/// something to be told.
pub proof fn changed_route_health_is_written_through(
    a: Seq<ActionView>,
    x: WatcherView,
    me: Seq<char>,
    addr: Option<StatusAddress>,
    facts: WatchFacts,
    now: Seq<char>,
    act: ActionView,
)
    requires
        answers(a, x, me, addr, WatchEvent::RouteHealthChanged, facts, now),
        x.leader,
    ensures
        a.contains(act) <==> exists|k: (Seq<char>, Seq<char>)| #[trigger]
            x.routes.contains_key(k) && http_write(x.routes[k], me, facts.routes, now) is Some
                && act == ActionView::PatchRoute(
                http_write(x.routes[k], me, facts.routes, now)->0,
            ),
{
    let keys = choose|keys: Seq<(Seq<char>, Seq<char>)>| #[trigger]
        enumerates(keys, x.routes.dom()) && a == due_routes(keys, x, me, facts.routes, now);
    lemma_due_routes(keys, x, me, facts.routes, now, act);
    if a.contains(act) {
        let i = choose|i: int|
            0 <= i < keys.len() && http_write(
                x.routes[#[trigger] keys[i]],
                me,
                facts.routes,
                now,
            ) is Some && act == ActionView::PatchRoute(
                http_write(x.routes[keys[i]], me, facts.routes, now)->0,
            );
        assert(keys.contains(keys[i]));
        assert(x.routes.contains_key(keys[i]));
    }
    if exists|k: (Seq<char>, Seq<char>)| #[trigger]
        x.routes.contains_key(k) && http_write(x.routes[k], me, facts.routes, now) is Some && act
            == ActionView::PatchRoute(http_write(x.routes[k], me, facts.routes, now)->0) {
        let k = choose|k: (Seq<char>, Seq<char>)| #[trigger]
            x.routes.contains_key(k) && http_write(x.routes[k], me, facts.routes, now) is Some
                && act == ActionView::PatchRoute(
                http_write(x.routes[k], me, facts.routes, now)->0,
            );
        assert(x.routes.dom().contains(k));
        assert(keys.contains(k));
        let i = choose|i: int| 0 <= i < keys.len() && keys[i] == k;
        assert(keys[i] == k);
    }
}

proof fn lemma_due_routes(
    keys: Seq<(Seq<char>, Seq<char>)>,
    x: WatcherView,
    me: Seq<char>,
    facts: RouteFacts,
    now: Seq<char>,
    act: ActionView,
)
    ensures
        due_routes(keys, x, me, facts, now).contains(act) <==> exists|i: int|
            0 <= i < keys.len() && http_write(x.routes[#[trigger] keys[i]], me, facts, now) is Some
                && act == ActionView::PatchRoute(
                http_write(x.routes[keys[i]], me, facts, now)->0,
            ),
    decreases keys.len(),
{
    if keys.len() > 0 {
        let d = keys.drop_last();
        let n = d.len() as int;
        lemma_due_routes(d, x, me, facts, now, act);
        let head = due_routes(d, x, me, facts, now);
        let tail = due_route(x.routes[keys[n]], me, facts, now);
        let all = due_routes(keys, x, me, facts, now);
        assert(all == head + tail);
        assert(forall|j: int| 0 <= j < n ==> #[trigger] d[j] == keys[j]);
        if all.contains(act) {
            let m = choose|m: int| 0 <= m < all.len() && all[m] == act;
            if m < head.len() {
                assert(head[m] == act);
                let i = choose|i: int|
                    0 <= i < d.len() && http_write(x.routes[#[trigger] d[i]], me, facts, now)
                        is Some && act == ActionView::PatchRoute(
                        http_write(x.routes[d[i]], me, facts, now)->0,
                    );
                assert(keys[i] == d[i]);
            } else {
                assert(tail[m - head.len()] == act);
                assert(keys[n] == keys.last());
            }
        }
        if exists|i: int|
            0 <= i < keys.len() && http_write(x.routes[#[trigger] keys[i]], me, facts, now) is Some
                && act == ActionView::PatchRoute(
                http_write(x.routes[keys[i]], me, facts, now)->0,
            ) {
            let i = choose|i: int|
                0 <= i < keys.len() && http_write(x.routes[#[trigger] keys[i]], me, facts, now)
                    is Some && act == ActionView::PatchRoute(
                    http_write(x.routes[keys[i]], me, facts, now)->0,
                );
            if i < n {
                assert(d[i] == keys[i]);
                let m = choose|m: int| 0 <= m < head.len() && head[m] == act;
                assert(all[m] == act);
            } else {
                assert(tail[0] == act);
                assert(all[head.len() as int] == act);
            }
        }
    }
}

/// What only changes what is known calls for nothing to be done; that the routes have been listed
/// is made known.
pub proof fn deletions_call_for_nothing(
    a: Seq<ActionView>,
    x: WatcherView,
    me: Seq<char>,
    addr: Option<StatusAddress>,
    event: WatchEvent,
    facts: WatchFacts,
    now: Seq<char>,
)
    requires
        answers(a, x, me, addr, event, facts, now),
    ensures
        event is RouteDeleted || event is GatewayClassDeleted || event is GatewayDeleted || event
            is IngressClassApplied || event is IngressClassDeleted || event is Nothing
            ==> a.len() == 0,
        event is RoutesListed ==> a.len() == 1 && a[0] is PublishSynced,
        event is RoutesListed || event is TlsHealthChanged || event is RouteHealthChanged || event
            is IngressApplied || event is Nothing || event is Shutdown ==> kept_after(x, me, event)
            == x,
{
}

} // verus!
