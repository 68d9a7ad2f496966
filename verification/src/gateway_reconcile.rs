//! One pass over a shared Gateway: what its status should say, whether to write it, and when to
//! look again.

use vstd::prelude::*;

use crate::conditions::{gateway_accepted, gateway_programmed_at_current_gen, true_at};
use crate::config::{Period, StatusAddress, SECOND};
use crate::gateway_status::{
    desired_gateway_status, desired_patch, gateway_current, gateway_needs_status_patch,
    gateway_patch_json, typed_pairs, GatewayConditionReason, SharedAddressDecision,
    StaticAddressOutcome, TypedAddress,
};
use crate::json::{members, text, Json, JsonView, Object};
use crate::listener_status::GatewayListenerStatus;
use crate::ownership::{
    classify_gateway_classes, dedicated, dedicated_classes, is_dedicated_mode, owned_classes,
};
use crate::ports::PortSet;
use crate::resources::{listener_views, Gateway, GatewayClass, ListenerStatus, ListenerStatusView};
use crate::shared_vip::{
    advertised, bind_detail, current_status_typed_addresses, known_addresses, opt_address,
    proxy_bind_pending_detail, select_shared_gateway_address, status_address_to_typed, NodeEntry,
    SharedVip, VipAddress,
};
use crate::text::{cat, opt_text, signed_decimal, signed_text};
use crate::write::{opt_write, write_status, write_to, StatusWrite, WriteView};

verus! {

/// Seconds after which a replica that does not lead looks again.
pub const NON_LEADER_REQUEUE: u64 = 20;

/// Seconds after which a failed pass is repeated.
pub const ERROR_REQUEUE: u64 = 15;

/// Seconds after which a Gateway that is not yet served is looked at again.
pub const DEFERRED_PROGRAMMED_REQUEUE: u64 = 2;

/// Seconds after which a Gateway whose address cannot be used is looked at again.
pub const SETTLED_NEGATIVE_REQUEUE: u64 = 15;

/// When to look at an object again.
#[derive(Debug, Clone, Copy, PartialEq, Eq)]
pub enum Action {
    /// When something changes.
    AwaitChange,
    /// After this time.
    Requeue(Period),
}

/// Look again after so many seconds.
pub open spec fn requeue_after(secs: u64) -> Action {
    Action::Requeue(Period { nanos: (secs * SECOND) as u128 })
}

/// Look again after so many seconds.
pub fn requeue(secs: u64) -> (r: Action)
    ensures
        r == requeue_after(secs),
{
    Action::Requeue(Period::from_secs(secs))
}

/// When to look again after a failed pass.
pub fn error_policy() -> (r: Action)
    ensures
        r == requeue_after(ERROR_REQUEUE),
{
    requeue(ERROR_REQUEUE)
}

/// What ends the pass before the Gateway's address is looked at: that this replica does not lead,
/// or that the Gateway is not this controller's, or the operator's.
pub open spec fn entry_action(
    leader: bool,
    gw: Gateway,
    classes: Seq<GatewayClass>,
    me: Seq<char>,
) -> Option<Action> {
    if !leader {
        Some(requeue_after(NON_LEADER_REQUEUE))
    } else if !owned_classes(classes, me).contains(gw.spec.gateway_class_name@) || dedicated(
        gw,
        dedicated_classes(classes, me),
    ) {
        Some(Action::AwaitChange)
    } else {
        None
    }
}

/// What ends the pass before the Gateway's address is looked at.
pub fn gateway_entry(
    leader: bool,
    gw: &Gateway,
    classes: &Vec<GatewayClass>,
    controller_name: &str,
) -> (r: Option<Action>)
    ensures
        r == entry_action(leader, *gw, classes@, controller_name@),
{
    if !leader {
        return Some(requeue(NON_LEADER_REQUEUE));
    }
    let (owned, owned_dedicated) = classify_gateway_classes(classes, controller_name);
    if !owned.contains(&gw.spec.gateway_class_name) || is_dedicated_mode(gw, &owned_dedicated) {
        return Some(Action::AwaitChange);
    }
    None
}

/// The addresses that a requested address is checked against: the advertised one, where there is
/// one.
pub fn resolved_addresses(
    vip: &VipAddress,
    shared_vip_addressing: bool,
    global_status_address: Option<&StatusAddress>,
) -> (r: Vec<TypedAddress>)
    ensures
        typed_pairs(r@) == match advertised(
            *vip,
            shared_vip_addressing,
            match global_status_address {
                Some(a) => Some(*a),
                None => None,
            },
        ) {
            Some(p) => seq![p],
            None => Seq::empty(),
        },
{
    let mut out: Vec<TypedAddress> = Vec::new();
    match select_shared_gateway_address(vip, shared_vip_addressing, global_status_address) {
        Some(a) => {
            out.push(status_address_to_typed(&a));
            assert(typed_pairs(out@) =~= seq![(a.tag(), a.value())]);
        },
        None => {
            assert(typed_pairs(out@) =~= Seq::<(Seq<char>, Seq<char>)>::empty());
        },
    }
    out
}

/// When a snapshot with the Gateway was handed to the proxies.
#[derive(Debug, Clone, Copy, PartialEq, Eq)]
pub struct PublishStamp {
    /// The generation of the Gateway in that snapshot.
    pub generation: i64,
    /// Whether all proxies of the shared pool have applied a snapshot at least as new.
    pub acked: bool,
}

/// What is known about the shared pool.
pub struct PoolReport {
    /// Whether there are proxies, and all have bound the Gateway's ports.
    pub ports_bound: bool,
    /// Whether it is recorded when snapshots are handed out.
    pub indexed: bool,
    /// When a snapshot with the Gateway was handed out.
    pub stamp: Option<PublishStamp>,
    /// The connected proxies.
    pub nodes: Vec<NodeEntry>,
}

/// What the status of one Gateway depends on, besides the Gateway.
pub struct GatewayInputs {
    /// Its Service.
    pub vip: SharedVip,
    /// Whether Gateways have addresses of their own.
    pub shared_vip_addressing: bool,
    /// The address that all share where they do not.
    pub global_address: Option<StatusAddress>,
    /// How the addresses that it requests came out.
    pub static_outcome: StaticAddressOutcome,
    /// Whether a request that came out badly may still come out well.
    pub hold_pending: bool,
    /// The shared pool, where one is known.
    pub pool: Option<PoolReport>,
    /// Whether none of its listeners can ever be served.
    pub listeners_unserviceable: bool,
}

/// The Gateway's own address is still to come.
pub open spec fn awaits_vip(x: GatewayInputs) -> bool {
    x.shared_vip_addressing && !(x.vip.address is Resolved)
}

/// Why the Gateway is not programmed, where a request rules that out for good.
pub open spec fn settled_override(x: GatewayInputs) -> Option<GatewayConditionReason> {
    if x.hold_pending {
        None
    } else {
        x.static_outcome.programmed_override
    }
}

/// The Gateway is already programmed at its generation.
pub open spec fn latched(gw: Gateway) -> bool {
    true_at(gw.conds(), "Programmed"@, gw.metadata.gen() as int)
}

/// The requested addresses to publish. A programmed Gateway for which none has come out, with
/// nothing settled against it, keeps those that it has published.
pub open spec fn published(gw: Gateway, x: GatewayInputs) -> Seq<(Seq<char>, Seq<char>)> {
    let fresh = typed_pairs(x.static_outcome.status_addresses@);
    if latched(gw) && x.static_outcome.feature_engaged && settled_override(x) is None
        && fresh.len() == 0 {
        known_addresses(gw.addresses())
    } else {
        fresh
    }
}

/// The pool is asked: addresses are per Gateway, and the Gateway is not yet programmed.
pub open spec fn gated(gw: Gateway, x: GatewayInputs) -> bool {
    x.pool is Some && x.shared_vip_addressing && !latched(gw)
}

/// All proxies have applied a snapshot with the Gateway at its generation.
pub open spec fn snapshot_applied(gw: Gateway, p: PoolReport) -> bool {
    !p.indexed || (p.stamp matches Some(s) && s.generation >= gw.metadata.gen() && s.acked)
}

/// The pool serves the Gateway.
pub open spec fn pool_serves(gw: Gateway, x: GatewayInputs) -> bool {
    gated(gw, x) ==> x.pool->0.ports_bound && snapshot_applied(gw, x.pool->0)
}

/// What the Gateway waits for, where that is the pool.
pub open spec fn pool_detail(gw: Gateway, x: GatewayInputs) -> Option<Seq<char>> {
    if pool_serves(gw, x) || awaits_vip(x) {
        None
    } else if x.pool->0.ports_bound {
        Some(
            "waiting for all connected shared proxies to apply the routing snapshot containing generation "@
                + signed_decimal(gw.metadata.gen() as int),
        )
    } else {
        Some(bind_detail(x.pool->0.nodes@, x.vip.internal_ports@))
    }
}

/// There is something to publish in the place of addresses: none is requested, or the request is
/// ruled out, or there are addresses.
pub open spec fn publishable(gw: Gateway, x: GatewayInputs) -> bool {
    !x.static_outcome.feature_engaged || settled_override(x) is Some || published(gw, x).len() > 0
}

/// It is certain that the Gateway will not be served as it is.
pub open spec fn hopeless(gw: Gateway, x: GatewayInputs) -> bool {
    gw.spec.parameters_ref is Some || x.listeners_unserviceable
}

/// The Gateway is fully served at its generation, or will never be.
pub open spec fn settled(gw: Gateway, x: GatewayInputs) -> bool {
    hopeless(gw, x) || ((latched(gw) || (!awaits_vip(x) && pool_serves(gw, x))) && publishable(
        gw,
        x,
    ))
}

/// The decision that the inputs lead to.
pub open spec fn decides(d: SharedAddressDecision, gw: Gateway, x: GatewayInputs) -> bool {
    &&& opt_address(d.legacy_addr) == advertised(
        x.vip.address,
        x.shared_vip_addressing,
        x.global_address,
    )
    &&& d.static_outcome.accepted_override == x.static_outcome.accepted_override
    &&& d.static_outcome.programmed_override == settled_override(x)
    &&& typed_pairs(d.static_outcome.status_addresses@) == published(gw, x)
    &&& d.static_outcome.feature_engaged == x.static_outcome.feature_engaged
    &&& d.static_outcome.requests_pinnable_ip == x.static_outcome.requests_pinnable_ip
    &&& d.params_ref_unsupported == (gw.spec.parameters_ref is Some)
    &&& d.converged == settled(gw, x)
    &&& d.settled_negative == hopeless(gw, x)
    &&& opt_text(d.pending_detail) == pool_detail(gw, x)
}

fn ask_pool(gw: &Gateway, p: &PoolReport, ports: &PortSet, awaiting: bool) -> (r: (
    bool,
    Option<String>,
))
    ensures
        r.0 == (p.ports_bound && snapshot_applied(*gw, *p)),
        opt_text(r.1) == if r.0 || awaiting {
            None
        } else if p.ports_bound {
            Some(
                "waiting for all connected shared proxies to apply the routing snapshot containing generation "@
                    + signed_decimal(gw.metadata.gen() as int),
            )
        } else {
            Some(bind_detail(p.nodes@, ports@))
        },
{
    let generation: i64 = gw.metadata.generation_or_zero();
    let acked = if p.indexed {
        match p.stamp {
            Some(s) => s.generation >= generation && s.acked,
            None => false,
        }
    } else {
        true
    };
    let bound = p.ports_bound && acked;
    let detail: Option<String> = if bound || awaiting {
        None
    } else if p.ports_bound {
        Some(
            cat(
                "waiting for all connected shared proxies to apply the routing snapshot containing generation ",
                signed_text(generation).as_str(),
            ),
        )
    } else {
        Some(proxy_bind_pending_detail(&p.nodes, ports))
    };
    (bound, detail)
}

/// What the status of a shared Gateway should say about its addresses and its service.
pub fn decide_gateway(gw: &Gateway, x: GatewayInputs) -> (d: SharedAddressDecision)
    ensures
        decides(d, *gw, x),
{
    let global: Option<&StatusAddress> = match &x.global_address {
        Some(a) => Some(a),
        None => None,
    };
    let legacy_addr = select_shared_gateway_address(
        &x.vip.address,
        x.shared_vip_addressing,
        global,
    );
    let resolved = match &x.vip.address {
        VipAddress::Resolved(_) => true,
        _ => false,
    };
    let awaiting_own_vip = x.shared_vip_addressing && !resolved;
    let latched = gateway_programmed_at_current_gen(gw);
    let (proxies_bound, pending_detail): (bool, Option<String>) = match &x.pool {
        Some(p) => if x.shared_vip_addressing && !latched {
            ask_pool(gw, p, &x.vip.internal_ports, awaiting_own_vip)
        } else {
            (true, None)
        },
        None => (true, None),
    };
    let ghost inputs = x;
    let mut outcome = x.static_outcome;
    let ghost given = outcome;
    if x.hold_pending {
        outcome.programmed_override = None;
    }
    let ghost fresh = typed_pairs(given.status_addresses@);
    assert(fresh.len() == given.status_addresses@.len());
    if latched && outcome.feature_engaged && outcome.programmed_override.is_none()
        && outcome.status_addresses.len() == 0 {
        outcome.status_addresses = current_status_typed_addresses(gw);
    }
    assert(typed_pairs(outcome.status_addresses@) == published(*gw, inputs));
    assert(typed_pairs(outcome.status_addresses@).len() == outcome.status_addresses@.len());
    let publishable = !outcome.feature_engaged || outcome.programmed_override.is_some()
        || outcome.status_addresses.len() > 0;
    let params_ref_unsupported = gw.spec.parameters_ref.is_some();
    let settled_negative = params_ref_unsupported || x.listeners_unserviceable;
    let converged = settled_negative || ((latched || (!awaiting_own_vip && proxies_bound))
        && publishable);
    SharedAddressDecision {
        legacy_addr,
        static_outcome: outcome,
        params_ref_unsupported,
        converged,
        settled_negative,
        pending_detail,
    }
}

/// What a pass ends with.
#[derive(Debug, Clone, Copy, PartialEq, Eq)]
pub struct ReconcileStep {
    /// Whether to write the status.
    pub patch: bool,
    /// When to look again.
    pub action: Action,
}

/// Nothing is known of any listener.
pub open spec fn knows_nothing(h: GatewayListenerStatus) -> bool {
    h.listeners@.len() == 0 && h.frontend_validation is None && h.backend_client_cert is None
}

/// Nothing is known of any listener.
pub fn unknown_listeners() -> (r: GatewayListenerStatus)
    ensures
        knows_nothing(r),
{
    GatewayListenerStatus {
        listeners: Vec::new(),
        frontend_validation: None,
        backend_client_cert: None,
    }
}

/// When to look again at a Gateway whose listeners are known: soon while it is not settled, slowly
/// while its address cannot be used, else when something changes.
pub open spec fn settled_action(d: SharedAddressDecision) -> Action {
    if !d.converged {
        requeue_after(DEFERRED_PROGRAMMED_REQUEUE)
    } else if d.static_outcome.programmed_override == Some(
        GatewayConditionReason::AddressNotUsable,
    ) {
        requeue_after(SETTLED_NEGATIVE_REQUEUE)
    } else {
        Action::AwaitChange
    }
}

/// What a pass over a Gateway comes to.
pub open spec fn gateway_step(
    gw: Gateway,
    ready: bool,
    health: GatewayListenerStatus,
    d: SharedAddressDecision,
    still_leading: bool,
) -> ReconcileStep {
    ReconcileStep {
        patch: still_leading && (ready || !true_at(gw.conds(), "Accepted"@, 0))
            && !gateway_current(gw, health, d),
        action: if ready {
            settled_action(d)
        } else {
            requeue_after(DEFERRED_PROGRAMMED_REQUEUE)
        },
    }
}

/// Whether to write the status, and when to look again. Until the data plane has been built once,
/// only a Gateway that is not yet accepted gets a status, and one that knows of no listener; the
/// `health` to write with is that of `unknown_listeners` then. `still_leading` is read at the very
/// end of the pass.
pub fn reconcile_gateway(
    gw: &Gateway,
    ready: bool,
    health: &GatewayListenerStatus,
    decision: &SharedAddressDecision,
    still_leading: bool,
) -> (r: ReconcileStep)
    requires
        !ready ==> knows_nothing(*health),
    ensures
        r == gateway_step(*gw, ready, *health, *decision, still_leading),
{
    if ready {
        let patch = gateway_needs_status_patch(gw, health, decision) && still_leading;
        let action = if !decision.converged {
            requeue(DEFERRED_PROGRAMMED_REQUEUE)
        } else if decision.static_outcome.is_address_not_usable() {
            requeue(SETTLED_NEGATIVE_REQUEUE)
        } else {
            Action::AwaitChange
        };
        ReconcileStep { patch, action }
    } else {
        let patch = !gateway_accepted(gw) && gateway_needs_status_patch(gw, health, decision)
            && still_leading;
        ReconcileStep { patch, action: requeue(DEFERRED_PROGRAMMED_REQUEUE) }
    }
}

/// The patch of a Gateway's status, bound to the version of the Gateway that it was made from.
pub open spec fn versioned(patch: JsonView, version: Option<Seq<char>>) -> JsonView {
    match version {
        Some(v) => JsonView::Obj(
            patch->Obj_0.push(
                ("metadata"@, JsonView::Obj(seq![("resourceVersion"@, JsonView::Str(v))])),
            ),
        ),
        None => patch,
    }
}

fn bind_version(patch: Json, version: &Option<String>) -> (r: Json)
    requires
        patch@ is Obj,
    ensures
        r@ == versioned(patch@, opt_text(*version)),
{
    match version {
        Some(v) => {
            let ghost before = patch@->Obj_0;
            let o = Object::new().with("resourceVersion", text(v.as_str()));
            assert(o@ =~= seq![("resourceVersion"@, JsonView::Str(v@))]);
            let m = o.done();
            match patch {
                Json::Obj(entries) => {
                    let mut e = entries;
                    assert(members(e@) =~= before);
                    let ghost meta = m@;
                    e.push(("metadata".to_owned(), m));
                    let r = Json::Obj(e);
                    assert(members(e@) =~= before.push(("metadata"@, meta)));
                    assert(r@->Obj_0 =~= before.push(("metadata"@, meta)));
                    r
                },
                other => other,
            }
        },
        None => patch,
    }
}

/// The write of a Gateway's status: none for one without a name or a generation.
pub open spec fn gateway_status_write(
    gw: Gateway,
    health: GatewayListenerStatus,
    listeners: Seq<ListenerStatusView>,
    now: Seq<char>,
    d: SharedAddressDecision,
) -> Option<WriteView> {
    if gw.metadata.name is None || gw.metadata.generation is None {
        None
    } else {
        let p = desired_patch(gw, health, listeners, gw.metadata.gen(), now, d);
        Some(
            write_to(
                gw.metadata,
                versioned(gateway_patch_json(p), opt_text(gw.metadata.resource_version)),
            ),
        )
    }
}

/// The write of a Gateway's status. `listeners` holds the status entries of its listeners.
pub fn patch_gateway_status(
    gw: &Gateway,
    health: &GatewayListenerStatus,
    listeners: Vec<ListenerStatus>,
    decision: &SharedAddressDecision,
    now: &str,
) -> (r: Option<StatusWrite>)
    ensures
        opt_write(r) == gateway_status_write(
            *gw,
            *health,
            listener_views(listeners@),
            now@,
            *decision,
        ),
{
    if gw.metadata.name.is_none() {
        return None;
    }
    let generation: i64 = match gw.metadata.generation {
        Some(g) => g,
        None => {
            return None;
        },
    };
    let patch = desired_gateway_status(
        gw,
        health,
        listeners,
        generation,
        now,
        decision,
    ).to_json();
    Some(write_status(&gw.metadata, bind_version(patch, &gw.metadata.resource_version)))
}

/// What came back from a write.
#[derive(Debug, Clone, Copy, PartialEq, Eq)]
pub enum PatchReply {
    /// It was applied.
    Applied,
    /// The API server refused it with this code.
    Refused(u16),
    /// It did not get through.
    Lost,
}

/// What a write of a Gateway's status came to.
#[derive(Debug, Clone, Copy, PartialEq, Eq)]
pub enum GatewayPatchOutcome {
    /// It is done, or there is nothing to be done.
    Landed,
    /// The Gateway has changed meanwhile.
    Conflict,
    /// It failed.
    Failed,
}

/// What a write of a Gateway's status came to.
pub open spec fn outcome_after(reply: PatchReply) -> GatewayPatchOutcome {
    match reply {
        PatchReply::Applied => GatewayPatchOutcome::Landed,
        PatchReply::Refused(code) => if code == 409 {
            GatewayPatchOutcome::Conflict
        } else if code == 404 {
            GatewayPatchOutcome::Landed
        } else {
            GatewayPatchOutcome::Failed
        },
        PatchReply::Lost => GatewayPatchOutcome::Failed,
    }
}

/// When to look again once the write has come to its end.
pub open spec fn look_after(planned: Action, outcome: GatewayPatchOutcome) -> Action {
    match outcome {
        GatewayPatchOutcome::Landed => planned,
        GatewayPatchOutcome::Conflict => requeue_after(DEFERRED_PROGRAMMED_REQUEUE),
        GatewayPatchOutcome::Failed => requeue_after(ERROR_REQUEUE),
    }
}

/// What a write of a Gateway's status came to. A Gateway that is gone needs no status.
pub fn gateway_patch_outcome(reply: PatchReply) -> (r: GatewayPatchOutcome)
    ensures
        r == outcome_after(reply),
        r is Landed <==> reply is Applied || reply == PatchReply::Refused(404),
        r is Conflict <==> reply == PatchReply::Refused(409),
        r is Failed <==> (reply is Lost || (reply matches PatchReply::Refused(c) && c != 404 && c
            != 409)),
{
    match reply {
        PatchReply::Applied => GatewayPatchOutcome::Landed,
        PatchReply::Refused(code) => if code == 409 {
            GatewayPatchOutcome::Conflict
        } else if code == 404 {
            GatewayPatchOutcome::Landed
        } else {
            GatewayPatchOutcome::Failed
        },
        PatchReply::Lost => GatewayPatchOutcome::Failed,
    }
}

/// When to look again once the write has come to its end: as planned if it landed, soon if the
/// Gateway has changed meanwhile, slowly if it failed.
pub fn action_after_patch(planned: Action, outcome: GatewayPatchOutcome) -> (r: Action)
    ensures
        r == look_after(planned, outcome),
{
    match outcome {
        GatewayPatchOutcome::Landed => planned,
        GatewayPatchOutcome::Conflict => requeue(DEFERRED_PROGRAMMED_REQUEUE),
        GatewayPatchOutcome::Failed => requeue(ERROR_REQUEUE),
    }
}

/// A Gateway that requests addresses is never said to be programmed without one.
pub proof fn programmed_gateway_has_an_address(
    d: SharedAddressDecision,
    gw: Gateway,
    x: GatewayInputs,
)
    requires
        decides(d, gw, x),
        x.static_outcome.feature_engaged,
        d.programmed().0 == "True"@,
    ensures
        d.static_outcome.status_addresses@.len() > 0,
{
    reveal_strlit("True");
    reveal_strlit("False");
    assert("True"@.len() != "False"@.len());
    assert(typed_pairs(d.static_outcome.status_addresses@).len()
        == d.static_outcome.status_addresses@.len());
}

/// Where Gateways have addresses of their own, a Gateway that is not yet programmed at its
/// generation becomes so only once it has its address, and every proxy has bound its ports and
/// applied a snapshot with that generation.
pub proof fn programmed_only_once_served(d: SharedAddressDecision, gw: Gateway, x: GatewayInputs)
    requires
        decides(d, gw, x),
        x.shared_vip_addressing,
        x.pool is Some,
        !latched(gw),
        d.programmed().0 == "True"@,
    ensures
        x.vip.address is Resolved,
        x.pool->0.ports_bound,
        snapshot_applied(gw, x.pool->0),
{
    reveal_strlit("True");
    reveal_strlit("False");
    assert("True"@.len() != "False"@.len());
}

/// A Gateway that is programmed at its generation stays so, whatever becomes of its Service and of
/// the pool, unless something is settled against it; one that requests addresses keeps one that it
/// has published.
pub proof fn programmed_does_not_flap(d: SharedAddressDecision, gw: Gateway, x: GatewayInputs)
    requires
        decides(d, gw, x),
        latched(gw),
        !hopeless(gw, x),
        settled_override(x) is None,
        x.static_outcome.feature_engaged ==> known_addresses(gw.addresses()).len() > 0,
    ensures
        d.programmed() == ("True"@, GatewayConditionReason::Programmed),
        d.pending_detail is None,
{
}

/// A Gateway that is not settled is looked at again without waiting for a change.
pub proof fn unsettled_gateway_is_looked_at_again(d: SharedAddressDecision)
    requires
        !d.converged,
    ensures
        settled_action(d) == requeue_after(DEFERRED_PROGRAMMED_REQUEUE),
{
}

} // verus!
