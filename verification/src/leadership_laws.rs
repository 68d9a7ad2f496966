//! Who leads, for how long, and what follows from it.

use vstd::prelude::*;

use crate::leadership::{deadline, LeadershipState, LeaseReply, RenewOutcome};
use crate::status_loop::{acts, drives, lease_after, outcome_of, LoopEvent, Queue, Signal};

verus! {

/// A confirmed renewal makes the replica the leader from then on. A failed one changes nothing
/// before the deadline, counted from the last confirmation, and ends leadership from the deadline
/// on. What was set for the deadline never changes.
pub proof fn leadership_lasts_until_the_deadline(
    s: LeadershipState,
    now: u128,
    outcome: RenewOutcome,
)
    requires
        s.valid(),
    ensures
        s.after(outcome, now).error_deadline == s.error_deadline,
        outcome is Leading ==> s.after(outcome, now).is_leader && s.after(
            outcome,
            now,
        ).last_confirmed == Some(now),
        outcome is Standby ==> !s.after(outcome, now).is_leader && s.after(
            outcome,
            now,
        ).last_confirmed is None,
        outcome is RenewError && !s.is_leader ==> s.after(outcome, now) == s,
        outcome is RenewError && s.is_leader && now - s.last_confirmed->0 < s.error_deadline.nanos
            && s.error_deadline.nanos > 0 ==> s.after(outcome, now) == s,
        outcome is RenewError && s.is_leader && now - s.last_confirmed->0 >= s.error_deadline.nanos
            ==> !s.after(outcome, now).is_leader && s.after(outcome, now).last_confirmed is None,
{
}

/// The deadline is one renewal interval short of the lease, or one interval where that is longer,
/// and never more than the lease.
pub proof fn deadline_leaves_one_interval(ttl: int, renew: int)
    requires
        0 <= renew,
        0 <= ttl,
    ensures
        2 * renew <= ttl ==> deadline(ttl, renew) == ttl - renew,
        renew <= ttl <= 2 * renew ==> deadline(ttl, renew) == renew,
        ttl <= renew ==> deadline(ttl, renew) == ttl,
{
}

/// The answer of the cluster decides how a renewal ends: only an acquired lease confirms, only one
/// that another holds rules out, and an answer that did not come is an error.
pub proof fn answer_decides_the_renewal(reply: LeaseReply)
    ensures
        outcome_of(reply) is Leading <==> reply is Acquired,
        outcome_of(reply) is Standby <==> reply is NotAcquired,
        outcome_of(reply) is RenewError <==> reply is Failed || reply is TimedOut,
{
}

/// In the loop, leadership is made known exactly when it changes, and all queues are driven exactly
/// when it is gained; label and lease are let go of exactly when a leader is told to stop.
pub proof fn change_of_leadership_is_acted_on(lease: LeadershipState, event: LoopEvent)
    requires
        lease.valid(),
    ensures
        ({
            let was = lease.is_leader;
            let is = lease_after(lease, event).is_leader;
            let a = acts(lease, event);
            &&& event is Renewal ==> (a.publish is Some <==> was != is)
            &&& event is Renewal && a.publish is Some ==> a.publish->0 == is
            &&& a.redrive_all <==> event is Renewal && !was && is
            &&& event is Shutdown ==> (a.publish == if was {
                Some(false)
            } else {
                None
            })
            &&& a.drop_label <==> event is Shutdown && was
            &&& a.release_lease <==> event is Shutdown && was
            &&& a.stop <==> event is Shutdown || event is NoTaskLeft
            &&& !(event is Renewal) ==> lease_after(lease, event) == lease
            &&& event is TaskEnded || event is NoTaskLeft ==> a.publish is None
        }),
        event matches LoopEvent::Renewal { reply, now } && reply is Acquired ==> lease_after(
            lease,
            event,
        ).is_leader,
        event matches LoopEvent::Renewal { reply, now } && reply is NotAcquired ==> !lease_after(
            lease,
            event,
        ).is_leader,
{
}

/// What is known of objects of one kind drives the queue of that kind, and no other, save that what
/// is known of listeners also drives the queue of the sets that have them.
pub proof fn signals_drive_the_queue_of_their_kind(q: Queue)
    ensures
        drives(Signal::ListenerHealth, q) <==> q is Gateway || q is ListenerSet,
        drives(Signal::PoolReadiness, q) <==> q is Gateway,
        drives(Signal::HttpRouteHealth, q) <==> q is HttpRoute,
        drives(Signal::GrpcRouteHealth, q) <==> q is GrpcRoute,
        drives(Signal::TlsRouteHealth, q) <==> q is TlsRoute,
        drives(Signal::TcpRouteHealth, q) <==> q is TcpRoute,
        drives(Signal::UdpRouteHealth, q) <==> q is UdpRoute,
        drives(Signal::PolicyHealth, q) <==> q is BackendTlsPolicy,
        drives(Signal::TrafficPolicyHealth, q) <==> q is ClientTrafficPolicy,
        drives(Signal::BackendPolicyHealth, q) <==> q is CoxswainBackendPolicy,
        drives(Signal::ExternalAuthHealth, q) <==> q is CoxswainExternalAuth,
        drives(Signal::Promotion, q),
{
}

} // verus!
