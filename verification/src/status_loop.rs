//! The loop of the status writer: who leads, and which work queues are driven again.

use vstd::prelude::*;

use crate::config::LeaseSettings;
use crate::leadership::{
    deadline, leadership_change, renew_outcome, step_down, LeaseReply, LeadershipState,
    RenewOutcome,
};

verus! {

/// The work queues of the status writer.
#[derive(Debug, Clone, Copy, PartialEq, Eq, Structural)]
pub enum Queue {
    /// Gateways.
    Gateway,
    /// ListenerSets.
    ListenerSet,
    /// GatewayClasses.
    GatewayClass,
    /// HTTPRoutes.
    HttpRoute,
    /// GRPCRoutes.
    GrpcRoute,
    /// TLSRoutes.
    TlsRoute,
    /// TCPRoutes.
    TcpRoute,
    /// UDPRoutes.
    UdpRoute,
    /// Ingresses.
    Ingress,
    /// BackendTLSPolicies.
    BackendTlsPolicy,
    /// ClientTrafficPolicies.
    ClientTrafficPolicy,
    /// CoxswainBackendPolicies.
    CoxswainBackendPolicy,
    /// CoxswainExternalAuths.
    CoxswainExternalAuth,
}

/// What drives work queues again, besides changes of the objects themselves.
#[derive(Debug, Clone, Copy, PartialEq, Eq, Structural)]
pub enum Signal {
    /// The health of listeners changed.
    ListenerHealth,
    /// A node of the shared pool came, went or reported other ports.
    PoolReadiness,
    /// The health of HTTPRoutes changed.
    HttpRouteHealth,
    /// The health of GRPCRoutes changed.
    GrpcRouteHealth,
    /// The health of TLSRoutes changed.
    TlsRouteHealth,
    /// The health of TCPRoutes changed.
    TcpRouteHealth,
    /// The health of UDPRoutes changed.
    UdpRouteHealth,
    /// The health of BackendTLSPolicies changed.
    PolicyHealth,
    /// The health of ClientTrafficPolicies changed.
    TrafficPolicyHealth,
    /// The health of CoxswainBackendPolicies changed.
    BackendPolicyHealth,
    /// The health of CoxswainExternalAuths changed.
    ExternalAuthHealth,
    /// This replica leads from now on.
    Promotion,
}

/// The queues that a signal drives.
pub open spec fn drives(s: Signal, q: Queue) -> bool {
    match s {
        Signal::ListenerHealth => q == Queue::Gateway || q == Queue::ListenerSet,
        Signal::PoolReadiness => q == Queue::Gateway,
        Signal::HttpRouteHealth => q == Queue::HttpRoute,
        Signal::GrpcRouteHealth => q == Queue::GrpcRoute,
        Signal::TlsRouteHealth => q == Queue::TlsRoute,
        Signal::TcpRouteHealth => q == Queue::TcpRoute,
        Signal::UdpRouteHealth => q == Queue::UdpRoute,
        Signal::PolicyHealth => q == Queue::BackendTlsPolicy,
        Signal::TrafficPolicyHealth => q == Queue::ClientTrafficPolicy,
        Signal::BackendPolicyHealth => q == Queue::CoxswainBackendPolicy,
        Signal::ExternalAuthHealth => q == Queue::CoxswainExternalAuth,
        Signal::Promotion => true,
    }
}

/// Whether the signal drives the queue.
pub fn is_driven(s: Signal, q: Queue) -> (r: bool)
    ensures
        r == drives(s, q),
{
    match s {
        Signal::ListenerHealth => q == Queue::Gateway || q == Queue::ListenerSet,
        Signal::PoolReadiness => q == Queue::Gateway,
        Signal::HttpRouteHealth => q == Queue::HttpRoute,
        Signal::GrpcRouteHealth => q == Queue::GrpcRoute,
        Signal::TlsRouteHealth => q == Queue::TlsRoute,
        Signal::TcpRouteHealth => q == Queue::TcpRoute,
        Signal::UdpRouteHealth => q == Queue::UdpRoute,
        Signal::PolicyHealth => q == Queue::BackendTlsPolicy,
        Signal::TrafficPolicyHealth => q == Queue::ClientTrafficPolicy,
        Signal::BackendPolicyHealth => q == Queue::CoxswainBackendPolicy,
        Signal::ExternalAuthHealth => q == Queue::CoxswainExternalAuth,
        Signal::Promotion => true,
    }
}

/// All queues.
pub fn all_queues() -> (r: Vec<Queue>)
    ensures
        forall|q: Queue| #[trigger] r@.contains(q),
        r@.no_duplicates(),
{
    let mut r: Vec<Queue> = Vec::new();
    r.push(Queue::Gateway);
    r.push(Queue::GatewayClass);
    r.push(Queue::HttpRoute);
    r.push(Queue::GrpcRoute);
    r.push(Queue::TlsRoute);
    r.push(Queue::TcpRoute);
    r.push(Queue::UdpRoute);
    r.push(Queue::Ingress);
    r.push(Queue::BackendTlsPolicy);
    r.push(Queue::ListenerSet);
    r.push(Queue::ClientTrafficPolicy);
    r.push(Queue::CoxswainBackendPolicy);
    r.push(Queue::CoxswainExternalAuth);
    assert forall|q: Queue| #[trigger] r@.contains(q) by {
        let i: int = match q {
            Queue::Gateway => 0,
            Queue::GatewayClass => 1,
            Queue::HttpRoute => 2,
            Queue::GrpcRoute => 3,
            Queue::TlsRoute => 4,
            Queue::TcpRoute => 5,
            Queue::UdpRoute => 6,
            Queue::Ingress => 7,
            Queue::BackendTlsPolicy => 8,
            Queue::ListenerSet => 9,
            Queue::ClientTrafficPolicy => 10,
            Queue::CoxswainBackendPolicy => 11,
            Queue::CoxswainExternalAuth => 12,
        };
        assert(r@[i] == q);
    }
    r
}

/// The queues that a signal drives, each once.
pub fn driven(s: Signal) -> (r: Vec<Queue>)
    ensures
        forall|q: Queue| #[trigger] r@.contains(q) <==> drives(s, q),
        r@.no_duplicates(),
{
    let all = all_queues();
    let mut out: Vec<Queue> = Vec::new();
    let mut i: usize = 0;
    while i < all.len()
        invariant
            i <= all.len(),
            all@.no_duplicates(),
            forall|q: Queue| #[trigger] all@.contains(q),
            out@.no_duplicates(),
            forall|q: Queue| #[trigger] out@.contains(q) ==> drives(s, q) && all@.take(i as int).contains(q),
            forall|q: Queue|
                #![trigger out@.contains(q)]
                drives(s, q) && all@.take(i as int).contains(q) ==> out@.contains(q),
        decreases all.len() - i,
    {
        let q = all[i];
        let ghost before = out@;
        let ghost seen = all@.take(i as int);
        proof {
            assert(all@.take(i + 1) =~= seen.push(q));
            assert(!seen.contains(q)) by {
                if seen.contains(q) {
                    let j = choose|j: int| 0 <= j < seen.len() && seen[j] == q;
                    assert(all@[j] == all@[i as int]);
                }
            }
        }
        if is_driven(s, q) {
            out.push(q);
        }
        proof {
            let now = all@.take(i + 1);
            assert forall|p: Queue| #[trigger] now.contains(p) <==> (seen.contains(p) || p == q) by {
                if seen.contains(p) {
                    let j = choose|j: int| 0 <= j < seen.len() && seen[j] == p;
                    assert(now[j] == p);
                }
                if p == q {
                    assert(now[i as int] == p);
                }
                if now.contains(p) {
                    let j = choose|j: int| 0 <= j < now.len() && now[j] == p;
                    if j < i {
                        assert(seen[j] == p);
                    }
                }
            }
            if drives(s, q) {
                assert forall|p: Queue| #[trigger] out@.contains(p) <==> (before.contains(p) || p
                    == q) by {
                    if before.contains(p) {
                        let j = choose|j: int| 0 <= j < before.len() && before[j] == p;
                        assert(out@[j] == p);
                    }
                    if p == q {
                        assert(out@[before.len() as int] == p);
                    }
                    if out@.contains(p) {
                        let j = choose|j: int| 0 <= j < out@.len() && out@[j] == p;
                        if j < before.len() {
                            assert(before[j] == p);
                        }
                    }
                }
                assert(!before.contains(q));
            }
        }
        i = i + 1;
    }
    assert(all@.take(i as int) =~= all@);
    out
}

/// A promotion drives every queue.
pub proof fn promotion_drives_every_queue(q: Queue)
    ensures
        drives(Signal::Promotion, q),
{
}

/// Each signal drives at least one queue.
pub proof fn every_signal_drives_a_queue(s: Signal) -> (q: Queue)
    ensures
        drives(s, q),
{
    match s {
        Signal::ListenerHealth => Queue::Gateway,
        Signal::PoolReadiness => Queue::Gateway,
        Signal::HttpRouteHealth => Queue::HttpRoute,
        Signal::GrpcRouteHealth => Queue::GrpcRoute,
        Signal::TlsRouteHealth => Queue::TlsRoute,
        Signal::TcpRouteHealth => Queue::TcpRoute,
        Signal::UdpRouteHealth => Queue::UdpRoute,
        Signal::PolicyHealth => Queue::BackendTlsPolicy,
        Signal::TrafficPolicyHealth => Queue::ClientTrafficPolicy,
        Signal::BackendPolicyHealth => Queue::CoxswainBackendPolicy,
        Signal::ExternalAuthHealth => Queue::CoxswainExternalAuth,
        Signal::Promotion => Queue::Gateway,
    }
}

/// What can happen to the loop.
#[derive(Debug, Clone, Copy, PartialEq, Eq)]
pub enum LoopEvent {
    /// The lease was asked for, and this came back.
    Renewal {
        /// What came back.
        reply: LeaseReply,
        /// When.
        now: u128,
    },
    /// The process is to stop.
    Shutdown,
    /// A background task ended.
    TaskEnded,
    /// No background task is left.
    NoTaskLeft,
}

/// What the loop does about an event; `steps` gives the order.
#[derive(Debug, Clone, Copy, PartialEq, Eq, Structural)]
pub struct LoopActions {
    /// Tell everyone who watches it whether this replica leads.
    pub publish: Option<bool>,
    /// Drive all queues again.
    pub redrive_all: bool,
    /// Take the leader label off this replica's pod.
    pub drop_label: bool,
    /// Release the lease.
    pub release_lease: bool,
    /// Leave the loop.
    pub stop: bool,
}

/// One thing that the loop does.
#[derive(Debug, Clone, Copy, PartialEq, Eq, Structural)]
pub enum LoopStep {
    /// Tell everyone who watches it whether this replica leads.
    Publish(bool),
    /// Drive all queues again.
    RedriveAll,
    /// Take the leader label off this replica's pod.
    DropLabel,
    /// Release the lease.
    ReleaseLease,
    /// Leave the loop.
    Stop,
}

/// The step, where it is due.
pub open spec fn due(is_due: bool, step: LoopStep) -> Seq<LoopStep> {
    if is_due {
        seq![step]
    } else {
        Seq::empty()
    }
}

/// What is to be done, one thing after the other: everyone hears who leads before the queues are
/// driven, the label is dropped or the lease is released, and the loop is left last.
pub open spec fn in_order(a: LoopActions) -> Seq<LoopStep> {
    (match a.publish {
        Some(leads) => seq![LoopStep::Publish(leads)],
        None => Seq::empty(),
    }) + due(a.redrive_all, LoopStep::RedriveAll) + due(a.drop_label, LoopStep::DropLabel) + due(
        a.release_lease,
        LoopStep::ReleaseLease,
    ) + due(a.stop, LoopStep::Stop)
}

impl LoopActions {
    /// What is to be done, one thing after the other.
    pub fn steps(self) -> (r: Vec<LoopStep>)
        ensures
            r@ == in_order(self),
    {
        let mut out: Vec<LoopStep> = Vec::new();
        if let Some(leads) = self.publish {
            out.push(LoopStep::Publish(leads));
        }
        if self.redrive_all {
            out.push(LoopStep::RedriveAll);
        }
        if self.drop_label {
            out.push(LoopStep::DropLabel);
        }
        if self.release_lease {
            out.push(LoopStep::ReleaseLease);
        }
        if self.stop {
            out.push(LoopStep::Stop);
        }
        assert(out@ =~= in_order(self));
        out
    }
}

/// The state of the loop.
pub struct StatusLoop {
    /// What is known of the lease.
    pub lease: LeadershipState,
}

/// What a reply says about the lease.
pub open spec fn outcome_of(reply: LeaseReply) -> RenewOutcome {
    match reply {
        LeaseReply::Acquired => RenewOutcome::Leading,
        LeaseReply::NotAcquired => RenewOutcome::Standby,
        LeaseReply::Failed => RenewOutcome::RenewError,
        LeaseReply::TimedOut => RenewOutcome::RenewError,
    }
}

/// What is known of the lease after an event.
pub open spec fn lease_after(lease: LeadershipState, event: LoopEvent) -> LeadershipState {
    match event {
        LoopEvent::Renewal { reply, now } => lease.after(outcome_of(reply), now),
        _ => lease,
    }
}

/// What is done about an event.
pub open spec fn acts(lease: LeadershipState, event: LoopEvent) -> LoopActions {
    let leads = lease_after(lease, event).is_leader;
    match event {
        LoopEvent::Renewal { .. } => LoopActions {
            publish: if leads != lease.is_leader {
                Some(leads)
            } else {
                None
            },
            redrive_all: leads && !lease.is_leader,
            drop_label: false,
            release_lease: false,
            stop: false,
        },
        LoopEvent::Shutdown => LoopActions {
            publish: if lease.is_leader {
                Some(false)
            } else {
                None
            },
            redrive_all: false,
            drop_label: lease.is_leader,
            release_lease: lease.is_leader,
            stop: true,
        },
        LoopEvent::TaskEnded => LoopActions {
            publish: None,
            redrive_all: false,
            drop_label: false,
            release_lease: false,
            stop: false,
        },
        LoopEvent::NoTaskLeft => LoopActions {
            publish: None,
            redrive_all: false,
            drop_label: false,
            release_lease: false,
            stop: true,
        },
    }
}

impl StatusLoop {
    /// The loop at its start, once the lease has been asked for. What is returned with it is
    /// published before any queue runs.
    pub fn new(lease: LeaseSettings, reply: LeaseReply, now: u128) -> (r: (Self, bool))
        ensures
            r.0.lease.valid(),
            r.0.lease.is_leader == (reply is Acquired),
            r.0.lease.is_leader ==> r.0.lease.last_confirmed == Some(now),
            r.0.lease.error_deadline.nanos == deadline(
                lease.ttl.nanos as int,
                lease.renew_interval.nanos as int,
            ),
            r.1 == r.0.lease.is_leader,
    {
        let mut state = LeadershipState::new(lease.ttl, lease.renew_interval);
        let leads = state.observe(renew_outcome(reply), now);
        (StatusLoop { lease: state }, leads)
    }

    /// Takes in an event, and says what is done about it.
    pub fn step(&mut self, event: LoopEvent) -> (r: LoopActions)
        ensures
            final(self).lease == lease_after(old(self).lease, event),
            r == acts(old(self).lease, event),
    {
        match event {
            LoopEvent::Renewal { reply, now } => {
                let was = self.lease.is_leader;
                let outcome = renew_outcome(reply);
                assert(outcome == outcome_of(reply));
                let leads = self.lease.observe(outcome, now);
                let change = leadership_change(was, leads);
                LoopActions {
                    publish: if change.publish {
                        Some(leads)
                    } else {
                        None
                    },
                    redrive_all: change.redrive_all,
                    drop_label: false,
                    release_lease: false,
                    stop: false,
                }
            },
            LoopEvent::Shutdown => {
                let down = step_down(self.lease.is_leader);
                LoopActions {
                    publish: if down.publish_demotion {
                        Some(false)
                    } else {
                        None
                    },
                    redrive_all: false,
                    drop_label: down.drop_label,
                    release_lease: down.release_lease,
                    stop: true,
                }
            },
            LoopEvent::TaskEnded => LoopActions {
                publish: None,
                redrive_all: false,
                drop_label: false,
                release_lease: false,
                stop: false,
            },
            LoopEvent::NoTaskLeft => LoopActions {
                publish: None,
                redrive_all: false,
                drop_label: false,
                release_lease: false,
                stop: true,
            },
        }
    }
}

/// What is known of the lease after a run of events.
pub open spec fn lease_after_all(lease: LeadershipState, events: Seq<LoopEvent>) -> LeadershipState
    decreases events.len(),
{
    if events.len() == 0 {
        lease
    } else {
        lease_after(lease_after_all(lease, events.drop_last()), events.last())
    }
}

/// What was published last, where `start` was published before the loop.
pub open spec fn last_published(
    start: bool,
    lease: LeadershipState,
    events: Seq<LoopEvent>,
) -> bool
    decreases events.len(),
{
    if events.len() == 0 {
        start
    } else {
        match acts(lease_after_all(lease, events.drop_last()), events.last()).publish {
            Some(leads) => leads,
            None => last_published(start, lease, events.drop_last()),
        }
    }
}

/// As long as the loop runs, what it published last is whether this replica leads.
pub proof fn published_is_current(lease: LeadershipState, events: Seq<LoopEvent>)
    requires
        forall|i: int| 0 <= i < events.len() ==> !((#[trigger] events[i]) is Shutdown),
    ensures
        last_published(lease.is_leader, lease, events) == lease_after_all(lease, events).is_leader,
    decreases events.len(),
{
    if events.len() > 0 {
        let front = events.drop_last();
        assert forall|i: int| 0 <= i < front.len() implies !((#[trigger] front[i]) is Shutdown) by {
            assert(front[i] == events[i]);
        }
        published_is_current(lease, front);
        assert(!(events[events.len() - 1] is Shutdown));
    }
}

/// A loop that is told to stop ends with nobody being told any more that this replica leads.
pub proof fn shutdown_publishes_the_demotion(lease: LeadershipState, events: Seq<LoopEvent>)
    requires
        forall|i: int| 0 <= i < events.len() ==> !((#[trigger] events[i]) is Shutdown),
    ensures
        !last_published(lease.is_leader, lease, events.push(LoopEvent::Shutdown)),
{
    published_is_current(lease, events);
    let all = events.push(LoopEvent::Shutdown);
    assert(all.drop_last() =~= events);
    assert(all.last() == LoopEvent::Shutdown);
}

/// A leader that is told to stop tells everyone that it leads no more before it lets go of its
/// label and of the lease, and only then leaves the loop; a standby just leaves.
pub proof fn demotion_comes_before_the_release(lease: LeadershipState)
    ensures
        in_order(acts(lease, LoopEvent::Shutdown)) == if lease.is_leader {
            seq![
                LoopStep::Publish(false),
                LoopStep::DropLabel,
                LoopStep::ReleaseLease,
                LoopStep::Stop,
            ]
        } else {
            seq![LoopStep::Stop]
        },
{
    let all = in_order(acts(lease, LoopEvent::Shutdown));
    if lease.is_leader {
        assert(all =~= seq![
            LoopStep::Publish(false),
            LoopStep::DropLabel,
            LoopStep::ReleaseLease,
            LoopStep::Stop,
        ]);
    } else {
        assert(all =~= seq![LoopStep::Stop]);
    }
}

/// A replica that becomes the leader is known to lead before its queues are driven.
pub proof fn promotion_is_known_before_the_queues_run(
    lease: LeadershipState,
    reply: LeaseReply,
    now: u128,
)
    requires
        !lease.is_leader,
        lease_after(lease, LoopEvent::Renewal { reply, now }).is_leader,
    ensures
        in_order(acts(lease, LoopEvent::Renewal { reply, now })) == seq![
            LoopStep::Publish(true),
            LoopStep::RedriveAll,
        ],
{
    assert(in_order(acts(lease, LoopEvent::Renewal { reply, now })) =~= seq![
        LoopStep::Publish(true),
        LoopStep::RedriveAll,
    ]);
}

} // verus!
