//! Who leads: a decision that tolerates failed renewals for a bounded time.

use vstd::prelude::*;

use crate::config::Period;

verus! {

/// What one attempt to acquire or renew the lease showed.
#[derive(Debug, Clone, Copy, PartialEq, Eq)]
pub enum RenewOutcome {
    /// This replica holds the lease.
    Leading,
    /// Another replica holds the lease.
    Standby,
    /// The attempt failed or timed out; the state of the lease is unknown.
    RenewError,
}

/// What came back from the lease service.
#[derive(Debug, Clone, Copy, PartialEq, Eq)]
pub enum LeaseReply {
    /// The lease was acquired or renewed.
    Acquired,
    /// Another holder has the lease.
    NotAcquired,
    /// The operation failed.
    Failed,
    /// The operation did not finish in time.
    TimedOut,
}

/// What a reply says about the lease.
pub fn renew_outcome(reply: LeaseReply) -> (r: RenewOutcome)
    ensures
        r is Leading <==> reply is Acquired,
        r is Standby <==> reply is NotAcquired,
        r is RenewError <==> (reply is Failed || reply is TimedOut),
{
    match reply {
        LeaseReply::Acquired => RenewOutcome::Leading,
        LeaseReply::NotAcquired => RenewOutcome::Standby,
        LeaseReply::Failed => RenewOutcome::RenewError,
        LeaseReply::TimedOut => RenewOutcome::RenewError,
    }
}

/// Whether this replica leads, and since when that was last confirmed.
///
/// Times are nanoseconds since one fixed instant.
#[derive(Debug, Clone, Copy, PartialEq, Eq)]
pub struct LeadershipState {
    /// Whether this replica leads.
    pub is_leader: bool,
    /// When the lease was last acquired or renewed; nothing while on standby.
    pub last_confirmed: Option<u128>,
    /// How long failed renewals are tolerated after the last confirmation.
    pub error_deadline: Period,
}

/// How long failed renewals are tolerated: the lease's lifetime less one renewal interval, but no
/// less than one interval, or the whole lifetime where that is shorter.
pub open spec fn deadline(ttl: int, renew: int) -> int {
    let margin = if ttl > renew {
        ttl - renew
    } else {
        0
    };
    let floor = if renew < ttl {
        renew
    } else {
        ttl
    };
    if margin > floor {
        margin
    } else {
        floor
    }
}

/// The time from `from` to `to`; none where `to` is the earlier of the two.
pub open spec fn elapsed(from: u128, to: u128) -> int {
    if to > from {
        to - from
    } else {
        0
    }
}

impl LeadershipState {
    /// A leader has a confirmation, a standby has none.
    pub open spec fn valid(self) -> bool {
        self.is_leader <==> self.last_confirmed is Some
    }

    /// The state after one observation.
    pub open spec fn after(self, outcome: RenewOutcome, now: u128) -> LeadershipState {
        match outcome {
            RenewOutcome::Leading => LeadershipState {
                is_leader: true,
                last_confirmed: Some(now),
                ..self
            },
            RenewOutcome::Standby => LeadershipState {
                is_leader: false,
                last_confirmed: None,
                ..self
            },
            RenewOutcome::RenewError => if self.is_leader && (self.last_confirmed is None
                || elapsed(self.last_confirmed->0, now) >= self.error_deadline.nanos) {
                LeadershipState { is_leader: false, last_confirmed: None, ..self }
            } else {
                self
            },
        }
    }

    /// A standby with the given lease settings.
    pub fn new(ttl: Period, renew_interval: Period) -> (r: Self)
        ensures
            r.valid(),
            !r.is_leader,
            r.error_deadline.nanos == deadline(ttl.nanos as int, renew_interval.nanos as int),
    {
        let margin: u128 = if ttl.nanos > renew_interval.nanos {
            ttl.nanos - renew_interval.nanos
        } else {
            0
        };
        let floor: u128 = if renew_interval.nanos < ttl.nanos {
            renew_interval.nanos
        } else {
            ttl.nanos
        };
        let nanos: u128 = if margin > floor {
            margin
        } else {
            floor
        };
        LeadershipState { is_leader: false, last_confirmed: None, error_deadline: Period { nanos } }
    }

    /// Take in one observation made at `now`, and say whether this replica leads from then on.
    pub fn observe(&mut self, outcome: RenewOutcome, now: u128) -> (r: bool)
        ensures
            *final(self) == old(self).after(outcome, now),
            r == final(self).is_leader,
            old(self).valid() ==> final(self).valid(),
    {
        match outcome {
            RenewOutcome::Leading => {
                self.is_leader = true;
                self.last_confirmed = Some(now);
            },
            RenewOutcome::Standby => {
                self.is_leader = false;
                self.last_confirmed = None;
            },
            RenewOutcome::RenewError => {
                if self.is_leader {
                    let held_for: u128 = match self.last_confirmed {
                        Some(t) => if now > t {
                            now - t
                        } else {
                            0
                        },
                        None => self.error_deadline.nanos,
                    };
                    if held_for >= self.error_deadline.nanos {
                        self.is_leader = false;
                        self.last_confirmed = None;
                    }
                }
            },
        }
        self.is_leader
    }
}

/// What a change of leadership calls for.
#[derive(Debug, Clone, Copy, PartialEq, Eq)]
pub struct LeadershipChange {
    /// Whether the new state is published to everyone who watches it.
    pub publish: bool,
    /// Whether every work queue is driven again, since this replica has just been promoted.
    pub redrive_all: bool,
}

/// What to do when leadership was `was` and now is `is`.
pub fn leadership_change(was: bool, is: bool) -> (r: LeadershipChange)
    ensures
        r.publish == (was != is),
        r.redrive_all == (!was && is),
{
    LeadershipChange { publish: was != is, redrive_all: was != is && is }
}

/// What a replica does when it is told to shut down.
#[derive(Debug, Clone, Copy, PartialEq, Eq)]
pub struct StepDown {
    /// Publish the demotion first.
    pub publish_demotion: bool,
    /// Take the leader label off its own pod.
    pub drop_label: bool,
    /// Release the lease.
    pub release_lease: bool,
}

/// The steps of a shutdown: all of them for a leader, none for a standby.
pub fn step_down(is_leader: bool) -> (r: StepDown)
    ensures
        r.publish_demotion == is_leader,
        r.drop_label == is_leader,
        r.release_lease == is_leader,
{
    StepDown { publish_demotion: is_leader, drop_label: is_leader, release_lease: is_leader }
}

/// One observation and the time at which it was made.
pub struct Observation {
    /// What the attempt showed.
    pub outcome: RenewOutcome,
    /// When.
    pub now: u128,
}

/// The state after a run of observations.
pub open spec fn run(s: LeadershipState, events: Seq<Observation>) -> LeadershipState
    decreases events.len(),
{
    if events.len() == 0 {
        s
    } else {
        run(s, events.drop_last()).after(events.last().outcome, events.last().now)
    }
}

/// Failed renewals never make a standby the leader.
pub proof fn errors_never_promote(s: LeadershipState, now: u128)
    requires
        !s.is_leader,
    ensures
        !s.after(RenewOutcome::RenewError, now).is_leader,
{
}

/// A positive observation that another replica holds the lease ends leadership at once.
pub proof fn standby_demotes_at_once(s: LeadershipState, now: u128)
    ensures
        !s.after(RenewOutcome::Standby, now).is_leader,
{
}

/// Failed renewals end leadership before the lease itself can expire: the time that they are
/// tolerated never exceeds the lifetime, and leaves one renewal interval of it wherever the
/// interval is at most half of the lifetime.
pub proof fn deadline_lies_within_the_lease(ttl: int, renew: int)
    requires
        0 <= ttl,
        0 <= renew,
    ensures
        deadline(ttl, renew) <= ttl,
        2 * renew <= ttl ==> deadline(ttl, renew) == ttl - renew,
        0 < ttl && 0 < renew ==> deadline(ttl, renew) > 0,
{
}

/// Whoever leads after a run of observations saw the lease confirmed during that run, saw no
/// other holder since, and every failed renewal since then came before the deadline.
pub proof fn leader_was_confirmed(s: LeadershipState, events: Seq<Observation>) -> (k: int)
    requires
        s.valid(),
        !s.is_leader,
        run(s, events).is_leader,
    ensures
        0 <= k < events.len(),
        events[k].outcome is Leading,
        run(s, events).last_confirmed == Some(events[k].now),
        forall|j: int|
            k < j < events.len() ==> {
                &&& (#[trigger] events[j]).outcome is RenewError
                &&& elapsed(events[k].now, events[j].now) < s.error_deadline.nanos
            },
    decreases events.len(),
{
    lemma_deadline_is_kept(s, events);
    let head = events.drop_last();
    let last = events.last();
    lemma_deadline_is_kept(s, head);
    if last.outcome is Leading {
        events.len() - 1
    } else {
        let k = leader_was_confirmed(s, head);
        assert(head[k] == events[k]);
        assert forall|j: int| k < j < events.len() implies {
            &&& (#[trigger] events[j]).outcome is RenewError
            &&& elapsed(events[k].now, events[j].now) < s.error_deadline.nanos
        } by {
            if j < events.len() - 1 {
                assert(head[j] == events[j]);
            }
        }
        k
    }
}

proof fn lemma_deadline_is_kept(s: LeadershipState, events: Seq<Observation>)
    ensures
        run(s, events).error_deadline == s.error_deadline,
    decreases events.len(),
{
    if events.len() > 0 {
        lemma_deadline_is_kept(s, events.drop_last());
    }
}

} // verus!
