//! What is told to the owner of an Ingress.

use vstd::prelude::*;

use crate::text::cat;

verus! {

/// Something about an Ingress that its owner should know.
pub enum IngressEvent {
    /// One of its rules is shadowed by an earlier one.
    Conflict {
        /// Namespace of the Ingress.
        namespace: String,
        /// Name of the Ingress.
        name: String,
        /// The route that is served instead.
        winner_route_id: String,
        /// Host of the rule.
        host: String,
        /// Path of the rule.
        path: String,
    },
    /// One of its annotations cannot be read.
    InvalidAnnotation {
        /// Namespace of the Ingress.
        namespace: String,
        /// Name of the Ingress.
        name: String,
        /// The annotation.
        annotation: String,
        /// What is wrong with it.
        message: String,
    },
    /// Anything else, of which nothing is told.
    Other,
}

/// A warning about an Ingress.
pub struct Warning {
    /// Namespace of the Ingress.
    pub namespace: String,
    /// Name of the Ingress.
    pub name: String,
    /// Action and reason.
    pub reason: &'static str,
    /// In words.
    pub note: String,
}

/// What a warning holds.
#[verifier::ext_equal]
pub struct WarningView {
    /// Namespace of the Ingress.
    pub namespace: Seq<char>,
    /// Name of the Ingress.
    pub name: Seq<char>,
    /// Action and reason.
    pub reason: Seq<char>,
    /// In words.
    pub note: Seq<char>,
}

/// What there is to tell about the event.
pub open spec fn told(e: IngressEvent) -> Option<WarningView> {
    match e {
        IngressEvent::Conflict { namespace, name, winner_route_id, host, path } => Some(
            WarningView {
                namespace: namespace@,
                name: name@,
                reason: "RouteConflict"@,
                note: "Route on host "@ + host@ + " path "@ + path@ + " is shadowed by "@
                    + winner_route_id@,
            },
        ),
        IngressEvent::InvalidAnnotation { namespace, name, annotation, message } => Some(
            WarningView {
                namespace: namespace@,
                name: name@,
                reason: "InvalidAnnotation"@,
                note: annotation@ + ": "@ + message@,
            },
        ),
        IngressEvent::Other => None,
    }
}

/// What there is to tell about the event.
pub fn warning_for(event: IngressEvent) -> (r: Option<Warning>)
    ensures
        told(event) == match r {
            Some(w) => Some(
                WarningView {
                    namespace: w.namespace@,
                    name: w.name@,
                    reason: w.reason@,
                    note: w.note@,
                },
            ),
            None => None,
        },
{
    match event {
        IngressEvent::Conflict { namespace, name, winner_route_id, host, path } => {
            let mut note = cat("Route on host ", host.as_str());
            note.append(" path ");
            note.append(path.as_str());
            note.append(" is shadowed by ");
            note.append(winner_route_id.as_str());
            Some(Warning { namespace, name, reason: "RouteConflict", note })
        },
        IngressEvent::InvalidAnnotation { namespace, name, annotation, message } => {
            let note = cat(cat(annotation.as_str(), ": ").as_str(), message.as_str());
            Some(Warning { namespace, name, reason: "InvalidAnnotation", note })
        },
        IngressEvent::Other => None,
    }
}

} // verus!
