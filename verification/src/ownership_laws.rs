//! Whose objects this controller takes care of.

use vstd::prelude::*;

use crate::gateway_reconcile::{entry_action, Action};
use crate::ingress_status::Ingress;
use crate::listenerset_status::ListenerSet;
use crate::ownership::{
    dedicated, dedicated_classes, default_ingress_classes, keys_of_class, keys_of_sets,
    our_ingress, ours, owned_classes, owned_ingress_classes, parent_of, points_at_params, IngressClass,
};
use crate::reconcile::{owns_ingress, reports_on};
use crate::resources::{Gateway, GatewayClass, ObjectMeta, ParamsRef};
use crate::text::opt_text;

verus! {

/// The reference is to this controller's parameters.
pub open spec fn to_own_params(r: Option<ParamsRef>) -> bool {
    r is Some && r->0.group@ == "gateway.coxswain-labs.dev"@ && r->0.kind@
        == "CoxswainGatewayParameters"@
}

/// The class with this name names this controller.
pub open spec fn is_own_class(gc: GatewayClass, me: Seq<char>, name: Seq<char>) -> bool {
    gc.controller_name@ == me && gc.metadata.name is Some && gc.metadata.name->0@ == name
}

/// Some class with this name names this controller.
pub open spec fn class_is_own(
    classes: Seq<GatewayClass>,
    me: Seq<char>,
    name: Seq<char>,
) -> bool {
    exists|i: int| 0 <= i < classes.len() && is_own_class(#[trigger] classes[i], me, name)
}

/// Some class with this name names this controller and refers to its parameters.
pub open spec fn class_has_own_params(
    classes: Seq<GatewayClass>,
    me: Seq<char>,
    name: Seq<char>,
) -> bool {
    exists|i: int|
        0 <= i < classes.len() && is_own_class(#[trigger] classes[i], me, name) && to_own_params(
            classes[i].parameters_ref,
        )
}

/// A class is owned exactly if it names this controller, and makes its Gateways dedicated exactly
/// if moreover it refers to this controller's parameters. A Gateway is dedicated exactly if it
/// refers to them itself or its class does.
pub proof fn classes_are_owned_by_name(
    gw: Gateway,
    classes: Seq<GatewayClass>,
    me: Seq<char>,
    name: Seq<char>,
)
    ensures
        owned_classes(classes, me).contains(name) <==> class_is_own(classes, me, name),
        dedicated_classes(classes, me).contains(name) <==> class_has_own_params(classes, me, name),
        dedicated(gw, dedicated_classes(classes, me)) <==> to_own_params(gw.spec.parameters_ref)
            || class_has_own_params(classes, me, gw.spec.gateway_class_name@),
{
    lemma_class(classes, me, name);
    lemma_class(classes, me, gw.spec.gateway_class_name@);
}

proof fn lemma_class(classes: Seq<GatewayClass>, me: Seq<char>, name: Seq<char>)
    ensures
        owned_classes(classes, me).contains(name) <==> class_is_own(classes, me, name),
        dedicated_classes(classes, me).contains(name) <==> class_has_own_params(classes, me, name),
{
    assert forall|gc: GatewayClass| #[trigger] ours(gc, me, name) == is_own_class(
        gc,
        me,
        name,
    ) by {}
    assert forall|r: Option<ParamsRef>| #[trigger] points_at_params(r) == to_own_params(r) by {}
    if class_is_own(classes, me, name) {
        let i = choose|i: int|
            0 <= i < classes.len() && is_own_class(#[trigger] classes[i], me, name);
        assert(ours(classes[i], me, name));
    }
    if class_has_own_params(classes, me, name) {
        let i = choose|i: int|
            0 <= i < classes.len() && is_own_class(#[trigger] classes[i], me, name)
                && to_own_params(classes[i].parameters_ref);
        assert(ours(classes[i], me, name));
    }
    if owned_classes(classes, me).contains(name) {
        let i = choose|i: int| 0 <= i < classes.len() && ours(#[trigger] classes[i], me, name);
        assert(is_own_class(classes[i], me, name));
    }
    if dedicated_classes(classes, me).contains(name) {
        let i = choose|i: int|
            0 <= i < classes.len() && ours(#[trigger] classes[i], me, name) && points_at_params(
                classes[i].parameters_ref,
            );
        assert(is_own_class(classes[i], me, name));
    }
}

/// The Gateway is one that this controller reports on: its class is the controller's, and it is
/// not dedicated.
pub open spec fn is_shared(gw: Gateway, classes: Seq<GatewayClass>, me: Seq<char>) -> bool {
    &&& class_is_own(classes, me, gw.spec.gateway_class_name@)
    &&& !to_own_params(gw.spec.parameters_ref)
    &&& !class_has_own_params(classes, me, gw.spec.gateway_class_name@)
}

/// The leader goes on with a Gateway exactly if it is one that this controller reports on, and
/// leaves any other alone until it changes; a standby comes back after twenty seconds whatever the
/// Gateway is.
pub proof fn leader_reports_on_shared_gateways(
    leader: bool,
    gw: Gateway,
    classes: Seq<GatewayClass>,
    me: Seq<char>,
)
    ensures
        !leader ==> entry_action(leader, gw, classes, me) is Some && entry_action(
            leader,
            gw,
            classes,
            me,
        )->0 is Requeue && entry_action(leader, gw, classes, me)->0->Requeue_0.nanos
            == 20_000_000_000,
        leader && is_shared(gw, classes, me) ==> entry_action(leader, gw, classes, me) is None,
        leader && !is_shared(gw, classes, me) ==> entry_action(leader, gw, classes, me) == Some(
            Action::AwaitChange,
        ),
{
    classes_are_owned_by_name(gw, classes, me, gw.spec.gateway_class_name@);
}

/// A ListenerSet is reported on exactly if its parent is known and is a Gateway that this
/// controller reports on.
pub proof fn sets_of_shared_gateways_are_reported(
    parent: Option<&Gateway>,
    classes: Seq<GatewayClass>,
    me: Seq<char>,
)
    ensures
        reports_on(parent, classes, me) <==> parent is Some && is_shared(*parent->0, classes, me),
{
    if parent is Some {
        let gw = *parent->0;
        classes_are_owned_by_name(gw, classes, me, gw.spec.gateway_class_name@);
    }
}

/// The parent of a ListenerSet is in the namespace that its reference names, else in that of the
/// set, else in the one given.
pub proof fn parent_is_in_the_namespace_of_the_set(ls: ListenerSet, fallback: Seq<char>)
    ensures
        parent_of(ls, fallback).1 == ls.parent_name@,
        ls.parent_namespace is Some ==> parent_of(ls, fallback).0 == ls.parent_namespace->0@,
        ls.parent_namespace is None && ls.metadata.namespace is Some ==> parent_of(
            ls,
            fallback,
        ).0 == ls.metadata.namespace->0@,
        ls.parent_namespace is None && ls.metadata.namespace is None ==> parent_of(
            ls,
            fallback,
        ).0 == fallback,
{
}

/// The Ingress class with this name names this controller.
pub open spec fn is_own_ingress_class(ic: IngressClass, me: Seq<char>, name: Seq<char>) -> bool {
    ic.controller is Some && ic.controller->0@ == me && ic.name is Some && ic.name->0@ == name
}

/// An Ingress is this controller's exactly if the class that it claims names the controller, or if
/// it claims none and some class with a name that names the controller is a default.
pub proof fn ingresses_are_owned_by_class(
    ing: Ingress,
    classes: Seq<IngressClass>,
    me: Seq<char>,
)
    ensures
        ing.claimed_class is Some ==> (owns_ingress(ing, classes, me) <==> exists|i: int|
            0 <= i < classes.len() && is_own_ingress_class(
                #[trigger] classes[i],
                me,
                ing.claimed_class->0@,
            )),
        ing.claimed_class is None ==> (owns_ingress(ing, classes, me) <==> exists|i: int|
            0 <= i < classes.len() && (#[trigger] classes[i]).is_default && classes[i].name is Some
                && classes[i].controller is Some && classes[i].controller->0@ == me),
{
    assert forall|ic: IngressClass, n: Seq<char>| #[trigger]
        our_ingress(ic, me, n) == is_own_ingress_class(ic, me, n) by {}
    if ing.claimed_class is Some {
        let n = ing.claimed_class->0@;
        if owned_ingress_classes(classes, me).contains(n) {
            let i = choose|i: int|
                0 <= i < classes.len() && our_ingress(#[trigger] classes[i], me, n);
            assert(is_own_ingress_class(classes[i], me, n));
        }
        if exists|i: int|
            0 <= i < classes.len() && is_own_ingress_class(#[trigger] classes[i], me, n) {
            let i = choose|i: int|
                0 <= i < classes.len() && is_own_ingress_class(#[trigger] classes[i], me, n);
            assert(our_ingress(classes[i], me, n));
        }
    } else {
        let d = default_ingress_classes(classes, me);
        if d != Set::<Seq<char>>::empty() {
            assert(exists|n: Seq<char>| d.contains(n)) by {
                if forall|n: Seq<char>| !d.contains(n) {
                    assert(d =~= Set::<Seq<char>>::empty());
                }
            }
            let n = choose|n: Seq<char>| d.contains(n);
            let i = choose|i: int|
                0 <= i < classes.len() && our_ingress(#[trigger] classes[i], me, n)
                    && classes[i].is_default;
            assert(classes[i].is_default && is_own_ingress_class(classes[i], me, n));
        }
        if exists|i: int|
            0 <= i < classes.len() && (#[trigger] classes[i]).is_default && classes[i].name is Some
                && classes[i].controller is Some && classes[i].controller->0@ == me {
            let i = choose|i: int|
                0 <= i < classes.len() && (#[trigger] classes[i]).is_default && classes[i].name
                    is Some && classes[i].controller is Some && classes[i].controller->0@ == me;
            let n = classes[i].name->0@;
            assert(opt_text(classes[i].name) == Some(n));
            assert(our_ingress(classes[i], me, n));
            assert(d.contains(n));
        }
    }
}

/// When a class changes, exactly the Gateways that name it are looked at again, as often as they
/// are listed; a class without a name has none.
pub proof fn gateways_are_found_by_class(
    name: Option<Seq<char>>,
    gateways: Seq<Gateway>,
    next: Gateway,
)
    ensures
        keys_of_class(name, Seq::empty()).len() == 0,
        name is Some && next.spec.gateway_class_name@ == name->0 ==> keys_of_class(
            name,
            gateways.push(next),
        ) == keys_of_class(name, gateways).push(object_key(next.metadata)),
        name is None || next.spec.gateway_class_name@ != name->0 ==> keys_of_class(
            name,
            gateways.push(next),
        ) == keys_of_class(name, gateways),
{
    reveal(Seq::filter);
    if name is Some {
        let n = name->0;
        let keep = |gw: Gateway| gw.spec.gateway_class_name@ == n;
        gateways.lemma_filter_push(next, keep);
        assert(keys_of_class(name, Seq::empty()) =~= Seq::empty());
        assert(keys_of_class(name, gateways.push(next)) =~= if keep(next) {
            keys_of_class(name, gateways).push(object_key(next.metadata))
        } else {
            keys_of_class(name, gateways)
        });
    }
}

/// The namespace and name of an object, each empty where there is none.
pub open spec fn object_key(m: ObjectMeta) -> (Seq<char>, Seq<char>) {
    (
        if m.namespace is Some {
            m.namespace->0@
        } else {
            ""@
        },
        if m.name is Some {
            m.name->0@
        } else {
            ""@
        },
    )
}

/// The ListenerSet attaches to the Gateway: by name, in the namespace of the reference, or else in
/// its own.
pub open spec fn attaches_to_gateway(ls: ListenerSet, gw: Gateway) -> bool {
    &&& ls.parent_name@ == object_key(gw.metadata).1
    &&& (if ls.parent_namespace is Some {
        ls.parent_namespace->0@
    } else {
        object_key(ls.metadata).0
    }) == object_key(gw.metadata).0
}

/// When a Gateway changes, exactly the ListenerSets that attach to it are looked at again, as often
/// as they are listed.
pub proof fn sets_are_found_by_gateway(gw: Gateway, sets: Seq<ListenerSet>, next: ListenerSet)
    ensures
        keys_of_sets(gw, Seq::empty()).len() == 0,
        attaches_to_gateway(next, gw) ==> keys_of_sets(gw, sets.push(next)) == keys_of_sets(
            gw,
            sets,
        ).push(object_key(next.metadata)),
        !attaches_to_gateway(next, gw) ==> keys_of_sets(gw, sets.push(next)) == keys_of_sets(gw, sets),
{
    reveal(Seq::filter);
    let keep = |ls: ListenerSet| parent_of(ls, ""@) == gw.metadata.key_view();
    sets.lemma_filter_push(next, keep);
    assert(keep(next) == attaches_to_gateway(next, gw));
    assert(keys_of_sets(gw, Seq::empty()) =~= Seq::empty());
    assert(keys_of_sets(gw, sets.push(next)) =~= if keep(next) {
        keys_of_sets(gw, sets).push(object_key(next.metadata))
    } else {
        keys_of_sets(gw, sets)
    });
}

} // verus!
