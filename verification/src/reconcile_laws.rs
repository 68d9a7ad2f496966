//! What a pass over an object comes to.

use vstd::prelude::*;

use crate::conditions::{true_at, ConditionView};
use crate::config::{IngressPorts, StatusAddress};
use crate::gateway_class_status::{class_current, class_patch_json, GatewayApiCapabilities};
use crate::gateway_reconcile::{
    gateway_step, knows_nothing, look_after, outcome_after, requeue_after, settled_action, Action,
    PatchReply,
};
use crate::gateway_state_laws::is_true;
use crate::gateway_status::{gateway_current, SharedAddressDecision};
use crate::ingress_status::{entry_json, ingress_current, ingress_patch, Ingress};
use crate::listener_status::{GatewayListenerStatus, ListenerEntry};
use crate::listenerset_status::{
    all_programmed, listenerset_current, set_accepted, set_conditions, set_listener_statuses,
    set_patch_json, ListenerSet,
};
use crate::ownership::IngressClass;
use crate::ownership_laws::{is_shared, sets_of_shared_gateways_are_reported};
use crate::reconcile::{
    class_step, class_write, ingress_step, ingress_write, listenerset_step, listenerset_write,
    owns_ingress, route_step,
};
use crate::resources::{Gateway, GatewayClass};

verus! {

/// A standby writes nothing and comes back after twenty seconds.
pub open spec fn is_idle(patch: bool, action: Action) -> bool {
    !patch && action is Requeue && action->Requeue_0.nanos == 20_000_000_000
}

/// The leader writes a route or a policy if it still leads, and then waits for a change; a standby
/// is idle.
pub proof fn routes_are_written_by_the_leader(still_leading: bool)
    ensures
        route_step(true, still_leading).patch == still_leading,
        route_step(true, still_leading).action is AwaitChange,
        is_idle(route_step(false, still_leading).patch, route_step(false, still_leading).action),
{
}

/// The leader writes a class of this controller that has a generation exactly if its status does
/// not agree with the cluster and it still leads, and then waits for a change; a standby is idle.
/// What is written goes to the class.
pub proof fn classes_are_written_by_the_leader(
    gc: GatewayClass,
    me: Seq<char>,
    caps: GatewayApiCapabilities,
    still_leading: bool,
    now: Seq<char>,
)
    ensures
        ({
            let s = class_step(true, gc, me, caps, still_leading);
            let t = class_step(false, gc, me, caps, still_leading);
            let w = class_write(gc, caps, now);
            &&& s.patch <==> gc.controller_name@ == me && gc.metadata.generation is Some
                && !class_current(gc, caps) && still_leading
            &&& s.action is AwaitChange
            &&& is_idle(t.patch, t.action)
            &&& w is Some <==> gc.metadata.generation is Some
            &&& w is Some && gc.metadata.name is Some ==> w->Some_0.0 == gc.metadata.name->0@
            &&& w is Some ==> w->Some_0.1 == class_patch_json(
                gc.metadata.generation->0,
                now,
                caps,
            )
        }),
{
}

/// The leader writes an Ingress exactly if there is an address to publish, the Ingress is this
/// controller's and does not publish the address yet, and it still leads; then it waits for a
/// change. A standby is idle. What is written goes to the Ingress.
pub proof fn ingresses_are_written_by_the_leader(
    ing: Ingress,
    addr: Option<StatusAddress>,
    classes: Seq<IngressClass>,
    me: Seq<char>,
    ports: IngressPorts,
    still_leading: bool,
)
    ensures
        ({
            let s = ingress_step(true, ing, addr, classes, me, ports, still_leading);
            let t = ingress_step(false, ing, addr, classes, me, ports, still_leading);
            &&& addr is None ==> !s.patch
            &&& addr is Some ==> (s.patch <==> owns_ingress(ing, classes, me) && !ingress_current(
                ing,
                addr->0,
                ports,
            ) && still_leading)
            &&& s.action is AwaitChange
            &&& is_idle(t.patch, t.action)
        }),
        addr is Some ==> {
            let w = ingress_write(ing, addr->0, ports);
            &&& w is Some <==> ing.metadata.name is Some
            &&& w is Some ==> w->0.name == ing.metadata.name->0@ && w->0.namespace
                == (if ing.metadata.namespace is Some {
                ing.metadata.namespace->0@
            } else {
                "default"@
            }) && w->0.patch == ingress_patch(entry_json(addr->0, ports))
        },
{
}

/// The leader writes a ListenerSet exactly if its parent is a Gateway that this controller reports
/// on, the data plane has been built, the status does not agree with the health of the listeners,
/// and it still leads. It comes back after two seconds where only the data plane is missing, and
/// waits for a change otherwise. A standby is idle.
pub proof fn listenersets_are_written_by_the_leader(
    ls: ListenerSet,
    parent: Option<&Gateway>,
    classes: Seq<GatewayClass>,
    me: Seq<char>,
    ready: bool,
    e: Seq<ListenerEntry>,
    still_leading: bool,
)
    ensures
        ({
            let s = listenerset_step(true, ls, parent, classes, me, ready, e, still_leading);
            let t = listenerset_step(false, ls, parent, classes, me, ready, e, still_leading);
            let ours = parent is Some && is_shared(*parent->0, classes, me);
            &&& s.patch <==> ours && ready && still_leading && !listenerset_current(
                ls,
                e,
                set_accepted(ls, e),
            )
            &&& ours && !ready ==> s.action is Requeue && s.action->Requeue_0.nanos
                == 2_000_000_000
            &&& !ours || ready ==> s.action is AwaitChange
            &&& is_idle(t.patch, t.action)
        }),
{
    sets_of_shared_gateways_are_reported(parent, classes, me);
}

/// A ListenerSet is written exactly if it has a name and a generation; what is written goes to it
/// and is its patch at that generation.
pub proof fn listenerset_write_goes_to_the_set(
    ls: ListenerSet,
    e: Seq<ListenerEntry>,
    accepted: bool,
    bases: Seq<Seq<ConditionView>>,
    now: Seq<char>,
)
    ensures
        ({
            let w = listenerset_write(ls, e, accepted, bases, now);
            let g = ls.metadata.generation->0;
            let l = set_listener_statuses(ls, e, bases, g, now);
            &&& w is Some <==> ls.metadata.name is Some && ls.metadata.generation is Some
            &&& w is Some ==> {
                &&& w->0.name == ls.metadata.name->0@
                &&& w->0.namespace == if ls.metadata.namespace is Some {
                    ls.metadata.namespace->0@
                } else {
                    "default"@
                }
                &&& w->0.patch == set_patch_json(
                    set_conditions(accepted, all_programmed(l), g, now),
                    l,
                )
            }
        }),
{
}

/// A Gateway is written exactly if its status does not agree with what was decided on it, by one
/// that still leads; before the data plane has been built, only if moreover it is not accepted yet,
/// and it is looked at again after two seconds.
pub proof fn gateways_are_written_by_the_leader(
    gw: Gateway,
    ready: bool,
    health: GatewayListenerStatus,
    d: SharedAddressDecision,
    still_leading: bool,
)
    ensures
        ({
            let s = gateway_step(gw, ready, health, d, still_leading);
            &&& ready ==> (s.patch <==> still_leading && !gateway_current(gw, health, d))
            &&& !ready ==> (s.patch <==> still_leading && !gateway_current(gw, health, d)
                && !is_true(gw.conds(), "Accepted"@))
            &&& ready ==> s.action == settled_action(d)
            &&& !ready ==> s.action is Requeue && s.action->Requeue_0.nanos == 2_000_000_000
        }),
{
    assert(true_at(gw.conds(), "Accepted"@, 0) <==> is_true(gw.conds(), "Accepted"@));
}

/// A write that was applied, or whose Gateway is gone, leaves the plan as it is. One that lost to
/// another change is tried again after two seconds, and one that failed after fifteen.
pub proof fn failed_writes_are_tried_again(planned: Action, reply: PatchReply)
    ensures
        ({
            let a = look_after(planned, outcome_after(reply));
            &&& reply is Applied ==> a == planned
            &&& reply matches PatchReply::Refused(code) ==> {
                &&& code == 404 ==> a == planned
                &&& code == 409 ==> a is Requeue && a->Requeue_0.nanos == 2_000_000_000
                &&& code != 404 && code != 409 ==> a is Requeue && a->Requeue_0.nanos
                    == 15_000_000_000
            }
            &&& reply is Lost ==> a is Requeue && a->Requeue_0.nanos == 15_000_000_000
        }),
{
}

/// A period of seconds is that many thousand million nanoseconds.
pub proof fn requeue_waits_for_the_seconds(secs: u64)
    ensures
        requeue_after(secs) is Requeue,
        requeue_after(secs)->Requeue_0.nanos == secs * 1_000_000_000,
{
    assert(secs * 1_000_000_000 <= 18_446_744_073_709_551_615 * 1_000_000_000);
}

/// A Gateway of which nothing is known has no listener, and nothing is said of its frontend or its
/// own certificate.
pub proof fn nothing_known_is_nothing_recorded(h: GatewayListenerStatus)
    ensures
        knows_nothing(h) <==> h.listeners@.len() == 0 && h.frontend_validation is None
            && h.backend_client_cert is None,
{
}

} // verus!
