//! One pass over the other objects: whether to write their status, and when to look again.

use vstd::prelude::*;

use crate::conditions::{Condition, ConditionView};
use crate::config::{IngressPorts, StatusAddress};
use crate::gateway_class_status::{
    build_gateway_class_status_patch, class_current, class_patch_json,
    gateway_class_needs_status_patch, GatewayApiCapabilities,
};
use crate::gateway_reconcile::{
    requeue, requeue_after, Action, ReconcileStep, DEFERRED_PROGRAMMED_REQUEUE,
    NON_LEADER_REQUEUE,
};
use crate::ingress_status::{
    build_ingress_status_patch, entry_json, ingress_current, ingress_lb_already_matches,
    ingress_patch, Ingress,
};
use crate::json::{Json, JsonView};
use crate::listener_status::{GatewayListenerStatus, ListenerEntry};
use crate::listenerset_status::{
    all_programmed, bases_view, build_listenerset_status_patch, listenerset_accepted,
    listenerset_current, listenerset_needs_status_patch, merged, set_accepted, set_conditions,
    set_listener_statuses, set_patch_json, ListenerSet,
};
use crate::ownership::{
    classify_gateway_classes, classify_ingress_classes, dedicated, dedicated_classes,
    default_ingress_classes, is_dedicated_mode, owned_classes, owned_ingress_classes, parent_of,
    IngressClass,
};
use crate::resources::{str_or, text_or, Gateway, GatewayClass, ObjectKey};
use crate::text::str_eq;
use crate::write::{opt_write, write_status, write_to, StatusWrite, WriteView};

verus! {

/// The key of the Gateway that the ListenerSet attaches to.
pub fn parent_key(ls: &ListenerSet) -> (r: ObjectKey)
    ensures
        r@ == parent_of(*ls, "default"@),
{
    let own_ns = str_or(&ls.metadata.namespace, "default");
    ObjectKey::new(str_or(&ls.parent_namespace, own_ns), ls.parent_name.as_str())
}

/// The ListenerSet is this controller's to report on: its Gateway is there, is this controller's
/// and is not dedicated.
pub open spec fn reports_on(
    parent: Option<&Gateway>,
    classes: Seq<GatewayClass>,
    me: Seq<char>,
) -> bool {
    parent matches Some(gw) && owned_classes(classes, me).contains(gw.spec.gateway_class_name@)
        && !dedicated(*gw, dedicated_classes(classes, me))
}

/// When the leader looks again, and a standby.
pub open spec fn next_look(leader: bool) -> Action {
    if leader {
        Action::AwaitChange
    } else {
        requeue_after(NON_LEADER_REQUEUE)
    }
}

/// What a pass over a ListenerSet comes to; `e` holds what is recorded for the listeners of its
/// Gateway.
pub open spec fn listenerset_step(
    leader: bool,
    ls: ListenerSet,
    parent: Option<&Gateway>,
    classes: Seq<GatewayClass>,
    me: Seq<char>,
    ready: bool,
    e: Seq<ListenerEntry>,
    still_leading: bool,
) -> ReconcileStep {
    let ours = leader && reports_on(parent, classes, me);
    ReconcileStep {
        patch: ours && ready && still_leading && !listenerset_current(ls, e, set_accepted(ls, e)),
        action: if ours && !ready {
            requeue_after(DEFERRED_PROGRAMMED_REQUEUE)
        } else {
            next_look(leader)
        },
    }
}

/// One pass over a ListenerSet. `parent` is the Gateway that it attaches to, if that is there, and
/// `parent_health` the health of that Gateway's listeners, if that is known. `ready` says whether
/// the data plane has been built once; `still_leading` is read at the very end.
pub fn reconcile_listenerset(
    leader: bool,
    ls: &ListenerSet,
    parent: Option<&Gateway>,
    classes: &Vec<GatewayClass>,
    controller_name: &str,
    ready: bool,
    parent_health: Option<&GatewayListenerStatus>,
    still_leading: bool,
) -> (r: ReconcileStep)
    ensures
        r == listenerset_step(
            leader,
            *ls,
            parent,
            classes@,
            controller_name@,
            ready,
            merged(parent_health),
            still_leading,
        ),
{
    if !leader {
        return ReconcileStep { patch: false, action: requeue(NON_LEADER_REQUEUE) };
    }
    let gw: &Gateway = match parent {
        Some(gw) => gw,
        None => {
            return ReconcileStep { patch: false, action: Action::AwaitChange };
        },
    };
    let (owned, owned_dedicated) = classify_gateway_classes(classes, controller_name);
    if !owned.contains(&gw.spec.gateway_class_name) || is_dedicated_mode(gw, &owned_dedicated) {
        return ReconcileStep { patch: false, action: Action::AwaitChange };
    }
    if !ready {
        return ReconcileStep { patch: false, action: requeue(DEFERRED_PROGRAMMED_REQUEUE) };
    }
    let accepted = listenerset_accepted(ls, parent_health);
    let patch = listenerset_needs_status_patch(ls, parent_health, accepted) && still_leading;
    ReconcileStep { patch, action: Action::AwaitChange }
}

/// The write of a ListenerSet's status, if there is one.
pub open spec fn listenerset_write(
    ls: ListenerSet,
    e: Seq<ListenerEntry>,
    accepted: bool,
    bases: Seq<Seq<ConditionView>>,
    now: Seq<char>,
) -> Option<WriteView> {
    if ls.metadata.name is None || ls.metadata.generation is None {
        None
    } else {
        let l = set_listener_statuses(ls, e, bases, ls.metadata.gen(), now);
        Some(
            write_to(
                ls.metadata,
                set_patch_json(
                    set_conditions(accepted, all_programmed(l), ls.metadata.gen(), now),
                    l,
                ),
            ),
        )
    }
}

/// The write of a ListenerSet's status: none for one without a name or a generation. `bases` holds
/// the conditions of each listener as its health alone calls for them.
pub fn patch_listenerset_status(
    ls: &ListenerSet,
    parent_health: Option<&GatewayListenerStatus>,
    accepted: bool,
    bases: &Vec<Vec<Condition>>,
    now: &str,
) -> (r: Option<StatusWrite>)
    requires
        bases.len() == ls.listeners.len(),
    ensures
        opt_write(r) == listenerset_write(
            *ls,
            merged(parent_health),
            accepted,
            bases_view(bases@),
            now@,
        ),
{
    if ls.metadata.name.is_none() {
        return None;
    }
    let generation: i64 = match ls.metadata.generation {
        Some(g) => g,
        None => {
            return None;
        },
    };
    let patch = build_listenerset_status_patch(
        ls,
        parent_health,
        accepted,
        bases,
        generation,
        now,
    );
    Some(write_status(&ls.metadata, patch))
}

/// What a pass over a GatewayClass comes to.
pub open spec fn class_step(
    leader: bool,
    gc: GatewayClass,
    me: Seq<char>,
    caps: GatewayApiCapabilities,
    still_leading: bool,
) -> ReconcileStep {
    ReconcileStep {
        patch: leader && gc.controller_name@ == me && !class_current(gc, caps)
            && gc.metadata.generation is Some && still_leading,
        action: next_look(leader),
    }
}

/// One pass over a GatewayClass. One without a generation gets no status.
pub fn reconcile_gateway_class(
    leader: bool,
    gc: &GatewayClass,
    controller_name: &str,
    caps: &GatewayApiCapabilities,
    still_leading: bool,
) -> (r: ReconcileStep)
    ensures
        r == class_step(leader, *gc, controller_name@, *caps, still_leading),
{
    if !leader {
        return ReconcileStep { patch: false, action: requeue(NON_LEADER_REQUEUE) };
    }
    if !str_eq(gc.controller_name.as_str(), controller_name) {
        return ReconcileStep { patch: false, action: Action::AwaitChange };
    }
    let patch = gateway_class_needs_status_patch(gc, caps) && gc.metadata.generation.is_some()
        && still_leading;
    ReconcileStep { patch, action: Action::AwaitChange }
}

/// A merge patch for the status of an object that is in no namespace.
pub struct ClusterWrite {
    /// Name.
    pub name: String,
    /// What to merge.
    pub patch: Json,
}

/// The write of a GatewayClass's status, if there is one: to whom, and what to merge.
pub open spec fn class_write(
    gc: GatewayClass,
    caps: GatewayApiCapabilities,
    now: Seq<char>,
) -> Option<(Seq<char>, JsonView)> {
    match gc.metadata.generation {
        Some(g) => Some((text_or(gc.metadata.name, ""@), class_patch_json(g, now, caps))),
        None => None,
    }
}

/// The write of a GatewayClass's status: none for one without a generation.
pub fn patch_gateway_class_status(
    gc: &GatewayClass,
    caps: &GatewayApiCapabilities,
    now: &str,
) -> (r: Option<ClusterWrite>)
    ensures
        class_write(*gc, *caps, now@) == match r {
            Some(w) => Some((w.name@, w.patch@)),
            None => None,
        },
{
    match gc.metadata.generation {
        Some(g) => Some(
            ClusterWrite {
                name: str_or(&gc.metadata.name, "").to_owned(),
                patch: build_gateway_class_status_patch(g, now, caps),
            },
        ),
        None => None,
    }
}

/// What a pass over a route or a policy comes to.
pub open spec fn route_step(leader: bool, still_leading: bool) -> ReconcileStep {
    ReconcileStep { patch: leader && still_leading, action: next_look(leader) }
}

/// One pass over a route or a policy. Whether there is anything to write is for the write itself to
/// say.
pub fn reconcile_route(leader: bool, still_leading: bool) -> (r: ReconcileStep)
    ensures
        r == route_step(leader, still_leading),
{
    if leader {
        ReconcileStep { patch: still_leading, action: Action::AwaitChange }
    } else {
        ReconcileStep { patch: false, action: requeue(NON_LEADER_REQUEUE) }
    }
}

/// The Ingress is this controller's: it claims one of its classes, or none while one of them is
/// default.
pub open spec fn owns_ingress(ing: Ingress, classes: Seq<IngressClass>, me: Seq<char>) -> bool {
    match ing.claimed_class {
        Some(c) => owned_ingress_classes(classes, me).contains(c@),
        None => default_ingress_classes(classes, me) != Set::<Seq<char>>::empty(),
    }
}

/// What a pass over an Ingress comes to.
pub open spec fn ingress_step(
    leader: bool,
    ing: Ingress,
    addr: Option<StatusAddress>,
    classes: Seq<IngressClass>,
    me: Seq<char>,
    ports: IngressPorts,
    still_leading: bool,
) -> ReconcileStep {
    ReconcileStep {
        patch: leader && still_leading && addr is Some && !ingress_current(ing, addr->0, ports)
            && owns_ingress(ing, classes, me),
        action: next_look(leader),
    }
}

/// One pass over an Ingress. Without an address to publish there is nothing to do.
pub fn reconcile_ingress(
    leader: bool,
    ing: &Ingress,
    status_address: Option<&StatusAddress>,
    classes: &Vec<IngressClass>,
    controller_name: &str,
    ports: IngressPorts,
    still_leading: bool,
) -> (r: ReconcileStep)
    ensures
        r == ingress_step(
            leader,
            *ing,
            match status_address {
                Some(a) => Some(*a),
                None => None,
            },
            classes@,
            controller_name@,
            ports,
            still_leading,
        ),
{
    if !leader {
        return ReconcileStep { patch: false, action: requeue(NON_LEADER_REQUEUE) };
    }
    let addr: &StatusAddress = match status_address {
        Some(a) => a,
        None => {
            return ReconcileStep { patch: false, action: Action::AwaitChange };
        },
    };
    let (owned_classes, default_classes) = classify_ingress_classes(classes, controller_name);
    let owned = match &ing.claimed_class {
        Some(c) => owned_classes.contains(c),
        None => !default_classes.is_empty(),
    };
    let patch = owned && !ingress_lb_already_matches(ing, addr, ports) && still_leading;
    ReconcileStep { patch, action: Action::AwaitChange }
}

/// The write of an Ingress's status, if there is one.
pub open spec fn ingress_write(
    ing: Ingress,
    addr: StatusAddress,
    ports: IngressPorts,
) -> Option<WriteView> {
    if ing.metadata.name is None {
        None
    } else {
        Some(write_to(ing.metadata, ingress_patch(entry_json(addr, ports))))
    }
}

/// The write of an Ingress's status: none for one without a name.
pub fn patch_ingress_status(ing: &Ingress, addr: &StatusAddress, ports: IngressPorts) -> (r:
    Option<StatusWrite>)
    ensures
        opt_write(r) == ingress_write(*ing, *addr, ports),
{
    if ing.metadata.name.is_none() {
        return None;
    }
    Some(write_status(&ing.metadata, build_ingress_status_patch(addr, ports)))
}

} // verus!
