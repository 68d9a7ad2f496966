//! Reasons that the provisioning operator asks the status writer to report.

use vstd::prelude::*;

use crate::resources::ObjectKey;
use crate::table::Table;

verus! {

/// Why a Gateway should be reported as not accepted.
#[derive(Debug, Clone, Copy, PartialEq, Eq, Structural)]
pub enum AcceptedReason {
    /// The parameters reference names an object that does not exist.
    InvalidParameters,
}

impl AcceptedReason {
    /// The reason as it is written in the condition.
    pub fn reason(self) -> (r: &'static str)
        ensures
            r@ == "InvalidParameters"@,
    {
        match self {
            AcceptedReason::InvalidParameters => "InvalidParameters",
        }
    }

    /// The message of the condition.
    pub fn message(self) -> (r: &'static str)
        ensures
            r@ == "parametersRef target CoxswainGatewayParameters object does not exist"@,
    {
        match self {
            AcceptedReason::InvalidParameters => {
                "parametersRef target CoxswainGatewayParameters object does not exist"
            },
        }
    }
}

/// Reasons by Gateway, at most one for each.
pub struct AcceptedOverrides {
    entries: Table<ObjectKey, AcceptedReason>,
}

impl View for AcceptedOverrides {
    type V = Map<(Seq<char>, Seq<char>), AcceptedReason>;

    closed spec fn view(&self) -> Map<(Seq<char>, Seq<char>), AcceptedReason> {
        self.entries@
    }
}

/// The reason recorded for a Gateway, if there is one.
pub open spec fn reason_for(
    m: Map<(Seq<char>, Seq<char>), AcceptedReason>,
    key: (Seq<char>, Seq<char>),
) -> Option<AcceptedReason> {
    if m.contains_key(key) {
        Some(m[key])
    } else {
        None
    }
}

/// The reason recorded last for a Gateway is the one read back until it is dropped, and neither
/// bears on any other Gateway.
pub proof fn last_reason_counts(
    m: Map<(Seq<char>, Seq<char>), AcceptedReason>,
    key: (Seq<char>, Seq<char>),
    other: (Seq<char>, Seq<char>),
    reason: AcceptedReason,
)
    ensures
        reason_for(m.insert(key, reason), key) == Some(reason),
        reason_for(m.remove(key), key) is None,
        other != key ==> reason_for(m.insert(key, reason), other) == reason_for(m, other),
        other != key ==> reason_for(m.remove(key), other) == reason_for(m, other),
{
}

impl AcceptedOverrides {
    /// No reasons at all.
    pub fn new() -> (r: Self)
        ensures
            r@ == Map::<(Seq<char>, Seq<char>), AcceptedReason>::empty(),
    {
        AcceptedOverrides { entries: Table::new() }
    }

    /// Record a reason for a Gateway, in place of any earlier one.
    pub fn set(&mut self, key: ObjectKey, reason: AcceptedReason)
        ensures
            final(self)@ == old(self)@.insert(key@, reason),
    {
        self.entries.insert(key, reason);
    }

    /// Drop the reason for a Gateway, if there is one.
    pub fn clear(&mut self, key: &ObjectKey)
        ensures
            final(self)@ == old(self)@.remove(key@),
    {
        self.entries.remove(key);
    }

    /// The reason for a Gateway, if there is one.
    pub fn get(&self, key: &ObjectKey) -> (r: Option<AcceptedReason>)
        ensures
            r == reason_for(self@, key@),
    {
        match self.entries.get(key) {
            Some(v) => Some(*v),
            None => None,
        }
    }
}

} // verus!
