//! The watching controller: what it keeps of the cluster, and what it does on each event.

use vstd::prelude::*;

use crate::conditions::{
    condition, conditions_json, conditions_to_json, conds, gateway_class_accepted, make_condition,
    true_at, Condition,
};
use crate::config::StatusAddress;
use crate::ingress_status::Ingress;
use crate::json::{Json, JsonView, Object};
use crate::leadership::LeaseReply;
use crate::resources::{str_or, text_or, Gateway, GatewayClass, ObjectKey};
use crate::route_status::{
    http_route_programmed, http_write, mark_http_route_programmed, route_programmed, Route,
    RouteFacts,
};
use crate::table::{enumerates, keys_of, KeySet, Table};
use crate::text::{opt_is, opt_text, str_eq};
use crate::watched_status::{
    address_current, gateway_accepted, gateway_needs_status_patch, gateway_settled, gateway_write,
    ingress_lb_already_matches, ingress_write, is_true, patch_gateway_status, patch_ingress_status,
    ControllerConfig, GatewayListenerHealth,
};
use crate::write::{StatusWrite, WriteView};

verus! {

/// What the watching controller keeps.
pub struct Watcher {
    /// Configuration.
    pub config: ControllerConfig,
    /// Whether this replica leads.
    pub is_leader: bool,
    /// The classes of Gateways that are this controller's.
    pub owned_gateway_classes: KeySet<String>,
    /// The classes of Ingresses that are this controller's.
    pub owned_ingress_classes: KeySet<String>,
    /// The Gateways of owned classes.
    pub known_gateways: Table<ObjectKey, Gateway>,
    /// The HTTP routes.
    pub known_routes: Table<ObjectKey, Route>,
}

/// What the watching controller keeps, without its configuration.
#[verifier::ext_equal]
pub struct WatcherView {
    /// Whether this replica leads.
    pub leader: bool,
    /// The classes of Gateways that are this controller's.
    pub gateway_classes: Set<Seq<char>>,
    /// The classes of Ingresses that are this controller's.
    pub ingress_classes: Set<Seq<char>>,
    /// The Gateways of owned classes.
    pub gateways: Map<(Seq<char>, Seq<char>), Gateway>,
    /// The HTTP routes.
    pub routes: Map<(Seq<char>, Seq<char>), Route>,
}

impl View for Watcher {
    type V = WatcherView;

    open spec fn view(&self) -> WatcherView {
        WatcherView {
            leader: self.is_leader,
            gateway_classes: self.owned_gateway_classes@,
            ingress_classes: self.owned_ingress_classes@,
            gateways: self.known_gateways@,
            routes: self.known_routes@,
        }
    }
}

/// What can happen.
pub enum WatchEvent {
    /// The lease service replied.
    LeaseReplied(LeaseReply),
    /// All HTTP routes have been listed once.
    RoutesListed,
    /// An HTTP route is there.
    RouteApplied(Route),
    /// An HTTP route is gone.
    RouteDeleted(Route),
    /// A GatewayClass is there.
    GatewayClassApplied(GatewayClass),
    /// A GatewayClass is gone.
    GatewayClassDeleted(GatewayClass),
    /// A Gateway is there.
    GatewayApplied(Gateway),
    /// A Gateway is gone.
    GatewayDeleted(Gateway),
    /// The health of listeners changed.
    TlsHealthChanged,
    /// The health of routes changed.
    RouteHealthChanged,
    /// An IngressClass is there.
    IngressClassApplied {
        /// Name.
        name: Option<String>,
        /// `spec.controller`.
        controller: Option<String>,
    },
    /// An IngressClass is gone.
    IngressClassDeleted {
        /// Name.
        name: Option<String>,
    },
    /// An Ingress is there.
    IngressApplied(Ingress),
    /// A watch failed, or reported what calls for nothing.
    Nothing,
    /// The process is to stop.
    Shutdown,
}

/// What to do.
pub enum WatchAction {
    /// Publish whether this replica leads.
    PublishLeadership(bool),
    /// Publish that the first listing is complete.
    PublishSynced,
    /// Write the status of an HTTP route.
    PatchRoute(StatusWrite),
    /// Write the status of a GatewayClass.
    PatchGatewayClass {
        /// Name.
        name: String,
        /// What to merge.
        patch: Json,
    },
    /// Write the status of a Gateway.
    PatchGateway(StatusWrite),
    /// Write the status of an Ingress.
    PatchIngress(StatusWrite),
    /// Give up the lease.
    StepDown,
    /// Leave the loop.
    Stop,
}

/// What an action holds.
pub enum ActionView {
    /// Publish whether this replica leads.
    PublishLeadership(bool),
    /// Publish that the first listing is complete.
    PublishSynced,
    /// Write the status of an HTTP route.
    PatchRoute(WriteView),
    /// Write the status of a GatewayClass.
    PatchGatewayClass {
        /// Name.
        name: Seq<char>,
        /// What to merge.
        patch: JsonView,
    },
    /// Write the status of a Gateway.
    PatchGateway(WriteView),
    /// Write the status of an Ingress.
    PatchIngress(WriteView),
    /// Give up the lease.
    StepDown,
    /// Leave the loop.
    Stop,
}

impl View for WatchAction {
    type V = ActionView;

    open spec fn view(&self) -> ActionView {
        match self {
            WatchAction::PublishLeadership(b) => ActionView::PublishLeadership(*b),
            WatchAction::PublishSynced => ActionView::PublishSynced,
            WatchAction::PatchRoute(w) => ActionView::PatchRoute(w@),
            WatchAction::PatchGatewayClass { name, patch } => ActionView::PatchGatewayClass {
                name: name@,
                patch: patch@,
            },
            WatchAction::PatchGateway(w) => ActionView::PatchGateway(w@),
            WatchAction::PatchIngress(w) => ActionView::PatchIngress(w@),
            WatchAction::StepDown => ActionView::StepDown,
            WatchAction::Stop => ActionView::Stop,
        }
    }
}

/// What a list of actions holds.
pub open spec fn action_views(v: Seq<WatchAction>) -> Seq<ActionView> {
    Seq::new(v.len(), |i: int| v[i]@)
}

/// What others have found out by the time of the event.
pub struct WatchFacts {
    /// About routes and their parents.
    pub routes: RouteFacts,
    /// About the listeners of Gateways.
    pub tls_health: Table<ObjectKey, GatewayListenerHealth>,
    /// Where nothing is known about the listeners of a Gateway.
    pub unknown_health: GatewayListenerHealth,
    /// Whether the first listing is complete.
    pub synced: bool,
}

/// What the Gateway's listeners are known to do.
pub open spec fn health_of(
    facts: WatchFacts,
    key: (Seq<char>, Seq<char>),
) -> GatewayListenerHealth {
    if facts.tls_health@.contains_key(key) {
        facts.tls_health@[key]
    } else {
        facts.unknown_health
    }
}

/// What is kept after the event.
pub open spec fn kept_after(x: WatcherView, me: Seq<char>, event: WatchEvent) -> WatcherView {
    match event {
        WatchEvent::LeaseReplied(reply) => WatcherView { leader: reply is Acquired, ..x },
        WatchEvent::RouteApplied(r) => WatcherView {
            routes: x.routes.insert(r.metadata.key_view(), r),
            ..x
        },
        WatchEvent::RouteDeleted(r) => WatcherView {
            routes: x.routes.remove(r.metadata.key_view()),
            ..x
        },
        WatchEvent::GatewayClassApplied(gc) => if gc.controller_name@ == me {
            WatcherView {
                gateway_classes: x.gateway_classes.insert(text_or(gc.metadata.name, ""@)),
                ..x
            }
        } else {
            x
        },
        WatchEvent::GatewayClassDeleted(gc) => if gc.controller_name@ == me {
            WatcherView {
                gateway_classes: x.gateway_classes.remove(text_or(gc.metadata.name, ""@)),
                ..x
            }
        } else {
            x
        },
        WatchEvent::GatewayApplied(gw) => if x.gateway_classes.contains(
            gw.spec.gateway_class_name@,
        ) {
            WatcherView { gateways: x.gateways.insert(gw.metadata.key_view(), gw), ..x }
        } else {
            x
        },
        WatchEvent::GatewayDeleted(gw) => WatcherView {
            gateways: x.gateways.remove(gw.metadata.key_view()),
            ..x
        },
        WatchEvent::IngressClassApplied { name, controller } => if opt_text(controller) == Some(
            me,
        ) {
            WatcherView { ingress_classes: x.ingress_classes.insert(text_or(name, ""@)), ..x }
        } else {
            WatcherView { ingress_classes: x.ingress_classes.remove(text_or(name, ""@)), ..x }
        },
        WatchEvent::IngressClassDeleted { name } => WatcherView {
            ingress_classes: x.ingress_classes.remove(text_or(name, ""@)),
            ..x
        },
        _ => x,
    }
}

/// The patch that accepts a GatewayClass.
pub open spec fn class_patch(generation: i64, now: Seq<char>) -> JsonView {
    let c = seq![condition("Accepted"@, "True"@, "Accepted"@, ""@, generation, now)];
    JsonView::Obj(
        seq![("status"@, JsonView::Obj(seq![("conditions"@, conditions_json(c))]))],
    )
}

/// The write of a Gateway's status, if it needs one.
pub open spec fn due_gateway(
    gw: Gateway,
    health: GatewayListenerHealth,
    addr: Option<StatusAddress>,
    now: Seq<char>,
) -> Seq<ActionView> {
    if gateway_settled(gw, health) {
        Seq::empty()
    } else {
        match gateway_write(gw, health, now, addr) {
            Some(w) => seq![ActionView::PatchGateway(w)],
            None => Seq::empty(),
        }
    }
}

/// The write of a route's status, if it has an owned parent.
pub open spec fn due_route(r: Route, me: Seq<char>, facts: RouteFacts, now: Seq<char>) -> Seq<
    ActionView,
> {
    match http_write(r, me, facts, now) {
        Some(w) => seq![ActionView::PatchRoute(w)],
        None => Seq::empty(),
    }
}

/// The due writes of the Gateways with these keys, one after the other.
pub open spec fn due_gateways(
    keys: Seq<(Seq<char>, Seq<char>)>,
    x: WatcherView,
    facts: WatchFacts,
    addr: Option<StatusAddress>,
    now: Seq<char>,
) -> Seq<ActionView>
    decreases keys.len(),
{
    if keys.len() == 0 {
        Seq::empty()
    } else {
        let k = keys.last();
        let rest = due_gateways(keys.drop_last(), x, facts, addr, now);
        if x.gateway_classes.contains(x.gateways[k].spec.gateway_class_name@) {
            rest + due_gateway(x.gateways[k], health_of(facts, k), addr, now)
        } else {
            rest
        }
    }
}

/// The writes of the routes with these keys, one after the other.
pub open spec fn due_routes(
    keys: Seq<(Seq<char>, Seq<char>)>,
    x: WatcherView,
    me: Seq<char>,
    facts: RouteFacts,
    now: Seq<char>,
) -> Seq<ActionView>
    decreases keys.len(),
{
    if keys.len() == 0 {
        Seq::empty()
    } else {
        due_routes(keys.drop_last(), x, me, facts, now) + due_route(
            x.routes[keys.last()],
            me,
            facts,
            now,
        )
    }
}

/// What to do on the arrival of a Gateway of an owned class. Before the first listing is complete
/// only a Gateway that is not yet accepted gets a status, and one that knows of no health.
pub open spec fn on_gateway(
    x: WatcherView,
    gw: Gateway,
    facts: WatchFacts,
    addr: Option<StatusAddress>,
    now: Seq<char>,
) -> Seq<ActionView> {
    if !x.leader || !x.gateway_classes.contains(gw.spec.gateway_class_name@) {
        Seq::empty()
    } else if facts.synced {
        due_gateway(gw, health_of(facts, gw.metadata.key_view()), addr, now)
    } else if !is_true(gw.conds(), "Accepted"@) {
        due_gateway(gw, facts.unknown_health, addr, now)
    } else {
        Seq::empty()
    }
}

/// `a` is what there is to do on the event. What is kept of Gateways and routes has no order, so
/// that the writes that one event calls for come in any.
pub open spec fn answers(
    a: Seq<ActionView>,
    x: WatcherView,
    me: Seq<char>,
    addr: Option<StatusAddress>,
    event: WatchEvent,
    facts: WatchFacts,
    now: Seq<char>,
) -> bool {
    match event {
        WatchEvent::LeaseReplied(reply) => a == if x.leader != (reply is Acquired) {
            seq![ActionView::PublishLeadership(reply is Acquired)]
        } else {
            Seq::empty()
        },
        WatchEvent::RoutesListed => a == seq![ActionView::PublishSynced],
        WatchEvent::RouteApplied(r) => a == if x.leader && !route_programmed(
            r,
            me,
            facts.routes.owned_gateways@,
        ) {
            due_route(r, me, facts.routes, now)
        } else {
            Seq::empty()
        },
        WatchEvent::GatewayClassApplied(gc) => a == if x.leader && gc.controller_name@ == me
            && !true_at(gc.conds(), "Accepted"@, gc.metadata.gen() as int) {
            seq![
                ActionView::PatchGatewayClass {
                    name: text_or(gc.metadata.name, ""@),
                    patch: class_patch(gc.metadata.gen(), now),
                },
            ]
        } else {
            Seq::empty()
        },
        WatchEvent::GatewayApplied(gw) => a == on_gateway(x, gw, facts, addr, now),
        WatchEvent::TlsHealthChanged => if x.leader && facts.synced {
            exists|keys: Seq<(Seq<char>, Seq<char>)>| #[trigger]
                enumerates(keys, x.gateways.dom()) && a == due_gateways(keys, x, facts, addr, now)
        } else {
            a == Seq::<ActionView>::empty()
        },
        WatchEvent::RouteHealthChanged => if x.leader {
            exists|keys: Seq<(Seq<char>, Seq<char>)>| #[trigger]
                enumerates(keys, x.routes.dom()) && a == due_routes(
                    keys,
                    x,
                    me,
                    facts.routes,
                    now,
                )
        } else {
            a == Seq::<ActionView>::empty()
        },
        WatchEvent::IngressApplied(ing) => a == if x.leader && addr is Some
            && ing.claimed_class is Some && x.ingress_classes.contains(ing.claimed_class->0@)
            && !address_current(ing, addr->0) {
            match ingress_write(ing, addr->0) {
                Some(w) => seq![ActionView::PatchIngress(w)],
                None => Seq::empty(),
            }
        } else {
            Seq::empty()
        },
        WatchEvent::Shutdown => a == if x.leader {
            seq![ActionView::StepDown, ActionView::Stop]
        } else {
            seq![ActionView::Stop]
        },
        _ => a == Seq::<ActionView>::empty(),
    }
}

fn accept_gateway_class(generation: i64, now: &str) -> (r: Json)
    ensures
        r@ == class_patch(generation, now@),
{
    let mut c: Vec<Condition> = Vec::new();
    c.push(make_condition("Accepted", "True", "Accepted", "", generation, now));
    assert(conds(c@) =~= seq![
        condition("Accepted"@, "True"@, "Accepted"@, ""@, generation, now@),
    ]);
    let ghost want = class_patch(generation, now@);
    let o = Object::new().with("conditions", conditions_to_json(&c));
    assert(o@ =~= want->Obj_0[0].1->Obj_0);
    let p = Object::new().with("status", o.done());
    assert(p@ =~= want->Obj_0);
    p.done()
}

fn opt_str(o: &Option<String>) -> (r: String)
    ensures
        r@ == text_or(*o, ""@),
{
    str_or(o, "").to_owned()
}

impl Watcher {
    /// A controller that knows nothing yet; `reply` is the outcome of its first try for the lease.
    pub fn new(config: ControllerConfig, reply: LeaseReply) -> (r: Self)
        ensures
            r.config == config,
            r@ == (WatcherView {
                leader: reply is Acquired,
                gateway_classes: Set::empty(),
                ingress_classes: Set::empty(),
                gateways: Map::empty(),
                routes: Map::empty(),
            }),
    {
        Watcher {
            config,
            is_leader: leads(reply),
            owned_gateway_classes: KeySet::new(),
            owned_ingress_classes: KeySet::new(),
            known_gateways: Table::new(),
            known_routes: Table::new(),
        }
    }

    fn gateway_actions(
        &self,
        gw: &Gateway,
        health: &GatewayListenerHealth,
        now: &str,
        out: &mut Vec<WatchAction>,
    )
        ensures
            action_views(final(out)@) == action_views(old(out)@) + due_gateway(
                *gw,
                *health,
                self.config.status_address,
                now@,
            ),
    {
        let ghost before = action_views(out@);
        let ghost due = due_gateway(*gw, *health, self.config.status_address, now@);
        if gateway_needs_status_patch(gw, health) {
            if let Some(w) = patch_gateway_status(gw, health, now, &self.config.status_address) {
                out.push(WatchAction::PatchGateway(w));
            }
        }
        assert(action_views(out@) =~= before + due);
    }

    fn route_actions(
        &self,
        route: &Route,
        facts: &RouteFacts,
        now: &str,
        out: &mut Vec<WatchAction>,
    )
        ensures
            action_views(final(out)@) == action_views(old(out)@) + due_route(
                *route,
                self.config.controller_name@,
                *facts,
                now@,
            ),
    {
        let ghost before = action_views(out@);
        let ghost due = due_route(*route, self.config.controller_name@, *facts, now@);
        if let Some(w) = mark_http_route_programmed(
            route,
            self.config.controller_name.as_str(),
            facts,
            now,
        ) {
            out.push(WatchAction::PatchRoute(w));
        }
        assert(action_views(out@) =~= before + due);
    }

    fn all_gateways(&self, facts: &WatchFacts, now: &str) -> (r: Vec<WatchAction>)
        ensures
            exists|keys: Seq<(Seq<char>, Seq<char>)>| #[trigger]
                enumerates(keys, self@.gateways.dom()) && action_views(r@) == due_gateways(
                    keys,
                    self@,
                    *facts,
                    self.config.status_address,
                    now@,
                ),
    {
        let n: usize = self.known_gateways.count();
        let ghost keys = keys_of(self.known_gateways.listing());
        let ghost addr = self.config.status_address;
        let mut out: Vec<WatchAction> = Vec::new();
        let mut i: usize = 0;
        assert(keys.take(0) =~= Seq::<(Seq<char>, Seq<char>)>::empty());
        assert(action_views(out@) =~= Seq::<ActionView>::empty());
        while i < n
            invariant
                i <= n,
                n == self.known_gateways.listing().len(),
                keys == keys_of(self.known_gateways.listing()),
                addr == self.config.status_address,
                forall|j: int|
                    0 <= j < n ==> self.known_gateways@[(
                    #[trigger] self.known_gateways.listing()[j]).0@]
                        == self.known_gateways.listing()[j].1,
                action_views(out@) == due_gateways(
                    keys.take(i as int),
                    self@,
                    *facts,
                    addr,
                    now@,
                ),
            decreases n - i,
        {
            let (key, gw) = self.known_gateways.entry(i);
            proof {
                assert(keys.take(i + 1).drop_last() =~= keys.take(i as int));
                assert(keys.take(i + 1).last() == key@);
                assert(self@.gateways[key@] == *gw);
            }
            if self.owned_gateway_classes.contains(&gw.spec.gateway_class_name) {
                let health: &GatewayListenerHealth = match facts.tls_health.get(key) {
                    Some(h) => h,
                    None => &facts.unknown_health,
                };
                self.gateway_actions(gw, health, now, &mut out);
            }
            i = i + 1;
        }
        assert(keys.take(i as int) =~= keys);
        out
    }

    fn all_routes(&self, facts: &RouteFacts, now: &str) -> (r: Vec<WatchAction>)
        ensures
            exists|keys: Seq<(Seq<char>, Seq<char>)>| #[trigger]
                enumerates(keys, self@.routes.dom()) && action_views(r@) == due_routes(
                    keys,
                    self@,
                    self.config.controller_name@,
                    *facts,
                    now@,
                ),
    {
        let n: usize = self.known_routes.count();
        let ghost keys = keys_of(self.known_routes.listing());
        let ghost me = self.config.controller_name@;
        let mut out: Vec<WatchAction> = Vec::new();
        let mut i: usize = 0;
        assert(keys.take(0) =~= Seq::<(Seq<char>, Seq<char>)>::empty());
        assert(action_views(out@) =~= Seq::<ActionView>::empty());
        while i < n
            invariant
                i <= n,
                n == self.known_routes.listing().len(),
                keys == keys_of(self.known_routes.listing()),
                me == self.config.controller_name@,
                forall|j: int|
                    0 <= j < n ==> self.known_routes@[(
                    #[trigger] self.known_routes.listing()[j]).0@]
                        == self.known_routes.listing()[j].1,
                action_views(out@) == due_routes(keys.take(i as int), self@, me, *facts, now@),
            decreases n - i,
        {
            let (key, route) = self.known_routes.entry(i);
            proof {
                assert(keys.take(i + 1).drop_last() =~= keys.take(i as int));
                assert(keys.take(i + 1).last() == key@);
                assert(self@.routes[key@] == *route);
            }
            self.route_actions(route, facts, now, &mut out);
            i = i + 1;
        }
        assert(keys.take(i as int) =~= keys);
        out
    }

    fn arrived_gateway(&self, gw: &Gateway, facts: &WatchFacts, now: &str) -> (r: Vec<WatchAction>)
        ensures
            action_views(r@) == on_gateway(
                self@,
                *gw,
                *facts,
                self.config.status_address,
                now@,
            ),
    {
        let mut out: Vec<WatchAction> = Vec::new();
        assert(action_views(out@) =~= Seq::<ActionView>::empty());
        if self.is_leader && self.owned_gateway_classes.contains(&gw.spec.gateway_class_name) {
            if facts.synced {
                let health: &GatewayListenerHealth = match facts.tls_health.get(
                    &gw.metadata.key(),
                ) {
                    Some(h) => h,
                    None => &facts.unknown_health,
                };
                self.gateway_actions(gw, health, now, &mut out);
            } else if !gateway_accepted(gw) {
                self.gateway_actions(gw, &facts.unknown_health, now, &mut out);
            }
        }
        assert(action_views(out@) =~= on_gateway(
            self@,
            *gw,
            *facts,
            self.config.status_address,
            now@,
        ));
        out
    }

    fn arrived_class(&self, gc: &GatewayClass, now: &str) -> (r: Vec<WatchAction>)
        ensures
            action_views(r@) == if self@.leader && gc.controller_name@
                == self.config.controller_name@ && !true_at(
                gc.conds(),
                "Accepted"@,
                gc.metadata.gen() as int,
            ) {
                seq![
                    ActionView::PatchGatewayClass {
                        name: text_or(gc.metadata.name, ""@),
                        patch: class_patch(gc.metadata.gen(), now@),
                    },
                ]
            } else {
                Seq::empty()
            },
    {
        let mut out: Vec<WatchAction> = Vec::new();
        assert(action_views(out@) =~= Seq::<ActionView>::empty());
        if self.is_leader && str_eq(
            gc.controller_name.as_str(),
            self.config.controller_name.as_str(),
        ) && !gateway_class_accepted(gc) {
            let patch = accept_gateway_class(gc.metadata.generation_or_zero(), now);
            out.push(
                WatchAction::PatchGatewayClass { name: opt_str(&gc.metadata.name), patch },
            );
            assert(action_views(out@) =~= seq![
                ActionView::PatchGatewayClass {
                    name: text_or(gc.metadata.name, ""@),
                    patch: class_patch(gc.metadata.gen(), now@),
                },
            ]);
        }
        out
    }

    fn arrived_ingress(&self, ing: &Ingress) -> (r: Vec<WatchAction>)
        ensures
            action_views(r@) == if self@.leader && self.config.status_address is Some
                && ing.claimed_class is Some && self@.ingress_classes.contains(
                ing.claimed_class->0@,
            ) && !address_current(*ing, self.config.status_address->0) {
                match ingress_write(*ing, self.config.status_address->0) {
                    Some(w) => seq![ActionView::PatchIngress(w)],
                    None => Seq::empty(),
                }
            } else {
                Seq::empty()
            },
    {
        let mut out: Vec<WatchAction> = Vec::new();
        assert(action_views(out@) =~= Seq::<ActionView>::empty());
        if let Some(addr) = &self.config.status_address {
            let owned = match &ing.claimed_class {
                Some(c) => self.owned_ingress_classes.contains(c),
                None => false,
            };
            if self.is_leader && owned && !ingress_lb_already_matches(ing, addr) {
                if let Some(w) = patch_ingress_status(ing, addr) {
                    let ghost view = w@;
                    out.push(WatchAction::PatchIngress(w));
                    assert(action_views(out@) =~= seq![ActionView::PatchIngress(view)]);
                }
            }
        }
        out
    }

    /// Take in an event, and say what to do.
    pub fn step(&mut self, event: WatchEvent, facts: &WatchFacts, now: &str) -> (r: Vec<
        WatchAction,
    >)
        ensures
            final(self).config == old(self).config,
            final(self)@ == kept_after(old(self)@, old(self).config.controller_name@, event),
            answers(
                action_views(r@),
                old(self)@,
                old(self).config.controller_name@,
                old(self).config.status_address,
                event,
                *facts,
                now@,
            ),
    {
        let ghost x = self@;
        let ghost me = self.config.controller_name@;
        let mut out: Vec<WatchAction> = Vec::new();
        assert(action_views(out@) =~= Seq::<ActionView>::empty());
        match event {
            WatchEvent::LeaseReplied(reply) => {
                let leading = leads(reply);
                if leading != self.is_leader {
                    out.push(WatchAction::PublishLeadership(leading));
                    assert(action_views(out@) =~= seq![ActionView::PublishLeadership(leading)]);
                }
                self.is_leader = leading;
            },
            WatchEvent::RoutesListed => {
                out.push(WatchAction::PublishSynced);
                assert(action_views(out@) =~= seq![ActionView::PublishSynced]);
            },
            WatchEvent::RouteApplied(route) => {
                if self.is_leader && !http_route_programmed(
                    &route,
                    self.config.controller_name.as_str(),
                    &facts.routes.owned_gateways,
                ) {
                    self.route_actions(&route, &facts.routes, now, &mut out);
                    assert(action_views(out@) =~= due_route(route, me, facts.routes, now@));
                }
                let key = route.metadata.key();
                self.known_routes.insert(key, route);
            },
            WatchEvent::RouteDeleted(route) => {
                self.known_routes.remove(&route.metadata.key());
            },
            WatchEvent::GatewayClassApplied(gc) => {
                out = self.arrived_class(&gc, now);
                if str_eq(gc.controller_name.as_str(), self.config.controller_name.as_str()) {
                    self.owned_gateway_classes.insert(opt_str(&gc.metadata.name));
                }
            },
            WatchEvent::GatewayClassDeleted(gc) => {
                if str_eq(gc.controller_name.as_str(), self.config.controller_name.as_str()) {
                    self.owned_gateway_classes.remove(&opt_str(&gc.metadata.name));
                }
            },
            WatchEvent::GatewayApplied(gw) => {
                out = self.arrived_gateway(&gw, facts, now);
                if self.owned_gateway_classes.contains(&gw.spec.gateway_class_name) {
                    let key = gw.metadata.key();
                    self.known_gateways.insert(key, gw);
                }
            },
            WatchEvent::GatewayDeleted(gw) => {
                self.known_gateways.remove(&gw.metadata.key());
            },
            WatchEvent::TlsHealthChanged => {
                if self.is_leader && facts.synced {
                    out = self.all_gateways(facts, now);
                }
            },
            WatchEvent::RouteHealthChanged => {
                if self.is_leader {
                    out = self.all_routes(&facts.routes, now);
                }
            },
            WatchEvent::IngressClassApplied { name, controller } => {
                if opt_is(&controller, self.config.controller_name.as_str()) {
                    self.owned_ingress_classes.insert(opt_str(&name));
                } else {
                    self.owned_ingress_classes.remove(&opt_str(&name));
                }
            },
            WatchEvent::IngressClassDeleted { name } => {
                self.owned_ingress_classes.remove(&opt_str(&name));
            },
            WatchEvent::IngressApplied(ing) => {
                out = self.arrived_ingress(&ing);
            },
            WatchEvent::Nothing => {},
            WatchEvent::Shutdown => {
                if self.is_leader {
                    out.push(WatchAction::StepDown);
                    out.push(WatchAction::Stop);
                    assert(action_views(out@) =~= seq![ActionView::StepDown, ActionView::Stop]);
                } else {
                    out.push(WatchAction::Stop);
                    assert(action_views(out@) =~= seq![ActionView::Stop]);
                }
            },
        }
        assert(self@ =~= kept_after(x, me, event));
        out
    }
}

/// Whether the reply says that this replica holds the lease; a failure says that it does not.
pub fn leads(reply: LeaseReply) -> (r: bool)
    ensures
        r == (reply is Acquired),
{
    match reply {
        LeaseReply::Acquired => true,
        _ => false,
    }
}

/// The action writes to the cluster.
pub open spec fn writes(a: ActionView) -> bool {
    a is PatchRoute || a is PatchGatewayClass || a is PatchGateway || a is PatchIngress
}

/// Only the leader writes to the cluster.
pub proof fn only_the_leader_writes(
    a: Seq<ActionView>,
    x: WatcherView,
    me: Seq<char>,
    addr: Option<StatusAddress>,
    event: WatchEvent,
    facts: WatchFacts,
    now: Seq<char>,
)
    requires
        answers(a, x, me, addr, event, facts, now),
        !x.leader,
    ensures
        forall|i: int| 0 <= i < a.len() ==> !writes(#[trigger] a[i]),
{
}

proof fn lemma_due_gateways(
    keys: Seq<(Seq<char>, Seq<char>)>,
    x: WatcherView,
    facts: WatchFacts,
    addr: Option<StatusAddress>,
    now: Seq<char>,
    a: ActionView,
)
    ensures
        due_gateways(keys, x, facts, addr, now).contains(a) <==> exists|i: int|
            0 <= i < keys.len() && x.gateway_classes.contains(
                x.gateways[#[trigger] keys[i]].spec.gateway_class_name@,
            ) && due_gateway(x.gateways[keys[i]], health_of(facts, keys[i]), addr, now).contains(a),
    decreases keys.len(),
{
    let all = due_gateways(keys, x, facts, addr, now);
    if keys.len() > 0 {
        let n = keys.len() - 1;
        let k = keys[n];
        let front = keys.drop_last();
        let rest = due_gateways(front, x, facts, addr, now);
        let own = due_gateway(x.gateways[k], health_of(facts, k), addr, now);
        lemma_due_gateways(front, x, facts, addr, now, a);
        let owned = x.gateway_classes.contains(x.gateways[k].spec.gateway_class_name@);
        if owned {
            assert(all == rest + own);
            if all.contains(a) {
                let i = choose|i: int| 0 <= i < all.len() && all[i] == a;
                if i < rest.len() {
                    assert(rest[i] == a);
                } else {
                    assert(own[i - rest.len()] == a);
                }
            }
            if rest.contains(a) {
                let i = choose|i: int| 0 <= i < rest.len() && rest[i] == a;
                assert(all[i] == a);
            }
            if own.contains(a) {
                let i = choose|i: int| 0 <= i < own.len() && own[i] == a;
                assert(all[rest.len() + i] == a);
            }
        }
        if rest.contains(a) {
            let i = choose|i: int|
                0 <= i < front.len() && x.gateway_classes.contains(
                    x.gateways[#[trigger] front[i]].spec.gateway_class_name@,
                ) && due_gateway(
                    x.gateways[front[i]],
                    health_of(facts, front[i]),
                    addr,
                    now,
                ).contains(a);
            assert(keys[i] == front[i]);
        }
        assert(forall|i: int| 0 <= i < n ==> #[trigger] keys[i] == front[i]);
    }
}

/// When the health of listeners changes, the leader writes exactly the statuses that no longer
/// agree with it: those of the known Gateways whose class is still its own.
pub proof fn changed_health_is_written_through(
    a: Seq<ActionView>,
    x: WatcherView,
    me: Seq<char>,
    addr: Option<StatusAddress>,
    facts: WatchFacts,
    now: Seq<char>,
    act: ActionView,
)
    requires
        answers(a, x, me, addr, WatchEvent::TlsHealthChanged, facts, now),
        x.leader,
        facts.synced,
    ensures
        a.contains(act) <==> exists|k: (Seq<char>, Seq<char>)| #[trigger]
            x.gateways.contains_key(k) && x.gateway_classes.contains(
                x.gateways[k].spec.gateway_class_name@,
            ) && due_gateway(x.gateways[k], health_of(facts, k), addr, now).contains(act),
{
    let keys = choose|keys: Seq<(Seq<char>, Seq<char>)>| #[trigger]
        enumerates(keys, x.gateways.dom()) && a == due_gateways(keys, x, facts, addr, now);
    lemma_due_gateways(keys, x, facts, addr, now, act);
    if a.contains(act) {
        let i = choose|i: int|
            0 <= i < keys.len() && x.gateway_classes.contains(
                x.gateways[#[trigger] keys[i]].spec.gateway_class_name@,
            ) && due_gateway(x.gateways[keys[i]], health_of(facts, keys[i]), addr, now).contains(
                act,
            );
        assert(keys.contains(keys[i]));
        assert(x.gateways.contains_key(keys[i]));
    }
    if exists|k: (Seq<char>, Seq<char>)| #[trigger]
        x.gateways.contains_key(k) && x.gateway_classes.contains(
            x.gateways[k].spec.gateway_class_name@,
        ) && due_gateway(x.gateways[k], health_of(facts, k), addr, now).contains(act) {
        let k = choose|k: (Seq<char>, Seq<char>)| #[trigger]
            x.gateways.contains_key(k) && x.gateway_classes.contains(
                x.gateways[k].spec.gateway_class_name@,
            ) && due_gateway(x.gateways[k], health_of(facts, k), addr, now).contains(act);
        assert(keys.contains(k));
        let i = choose|i: int| 0 <= i < keys.len() && keys[i] == k;
        assert(keys[i] == k);
    }
}

} // verus!
