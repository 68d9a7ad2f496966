//! Health of listeners, as the data plane reports it for one Gateway.

use vstd::prelude::*;

use crate::resources::ObjectKey;
use crate::table::{KeySet, Same};
use crate::text::str_eq;

verus! {

/// Where a merged listener comes from.
#[derive(Debug, Clone, PartialEq, Eq)]
pub enum ListenerSource {
    /// The Gateway itself.
    Gateway,
    /// An attached ListenerSet.
    ListenerSet(ObjectKey),
}

/// The key of the ListenerSet that a listener comes from; none for the Gateway itself.
pub open spec fn source_key(s: ListenerSource) -> Option<(Seq<char>, Seq<char>)> {
    match s {
        ListenerSource::Gateway => None,
        ListenerSource::ListenerSet(k) => Some(k@),
    }
}

/// What a listener carries, as far as the choice of an acceptor goes.
#[derive(Debug, Clone, Copy, PartialEq, Eq, Structural)]
pub enum ListenerReadiness {
    /// Plain HTTP: there is nothing to resolve.
    NotApplicable,
    /// TLS handed through to the backend.
    TlsPassthrough,
    /// TLS terminated in front of a TCP backend.
    TlsTerminate,
    /// Raw TCP.
    TcpProxy,
    /// Datagrams.
    UdpProxy,
    /// TLS terminated in front of an HTTP backend, resolved or not.
    Https,
}

/// The PROXY protocol settings of a listener.
#[derive(Debug, Clone, Default, PartialEq, Eq)]
pub struct ProxyProtocolConfig {
    /// Whether the header is required.
    pub enabled: bool,
    /// The networks that may send it.
    pub trusted_sources: Vec<String>,
}

impl ProxyProtocolConfig {
    /// What the settings hold.
    pub open spec fn view(&self) -> (bool, Seq<Seq<char>>) {
        (self.enabled, crate::text::texts(self.trusted_sources@))
    }

    /// A copy of the settings.
    pub fn copy(&self) -> (r: Self)
        ensures
            r@ == self@,
    {
        ProxyProtocolConfig {
            enabled: self.enabled,
            trusted_sources: crate::text::copy_texts(&self.trusted_sources),
        }
    }
}

/// Health of one listener.
#[derive(Debug, Clone, PartialEq, Eq)]
pub struct ListenerInfo {
    /// Whether the listener is accepted.
    pub accepted: bool,
    /// Whether everything that it refers to is resolved.
    pub healthy: bool,
    /// Whether its protocol and mode are ones that cannot be served.
    pub unsupported: bool,
    /// Whether the client-certificate settings failed to resolve.
    pub frontend_failed: bool,
    /// Whether it lost against a listener of higher precedence.
    pub conflicted: bool,
    /// How many routes are attached.
    pub attached_routes: i32,
    /// The port in its spec.
    pub port: u16,
    /// The port allocated for it in the shared pool; zero where there is none.
    pub internal_port: u16,
    /// What it carries.
    pub readiness: ListenerReadiness,
    /// Its PROXY protocol settings.
    pub proxy_protocol: Option<ProxyProtocolConfig>,
}

impl Default for ListenerInfo {
    fn default() -> (r: Self)
        ensures
            r.accepted && r.healthy && !r.unsupported && !r.frontend_failed && !r.conflicted,
            r.attached_routes == 0 && r.port == 0 && r.internal_port == 0,
            r.readiness == ListenerReadiness::NotApplicable,
            r.proxy_protocol is None,
    {
        ListenerInfo {
            accepted: true,
            healthy: true,
            unsupported: false,
            frontend_failed: false,
            conflicted: false,
            attached_routes: 0,
            port: 0,
            internal_port: 0,
            readiness: ListenerReadiness::NotApplicable,
            proxy_protocol: None,
        }
    }
}

impl ListenerInfo {
    /// The port to accept on: the allocated one, or the one in the spec where none is allocated.
    pub open spec fn bind(&self) -> u16 {
        if self.internal_port != 0 {
            self.internal_port
        } else {
            self.port
        }
    }

    /// The port to accept on: the allocated one, or the one in the spec where none is allocated.
    pub fn bind_port(&self) -> (r: u16)
        ensures
            r == self.bind(),
    {
        if self.internal_port != 0 {
            self.internal_port
        } else {
            self.port
        }
    }
}

/// One listener of a Gateway with its health.
#[derive(Debug, Clone, PartialEq, Eq)]
pub struct ListenerEntry {
    /// Where it comes from.
    pub source: ListenerSource,
    /// Its name.
    pub name: String,
    /// Its health.
    pub info: ListenerInfo,
}

/// How client certificates are checked.
#[derive(Debug, Clone, Copy, Default, PartialEq, Eq)]
pub struct FrontendValidation {
    /// Whether connections without a valid certificate are let through.
    pub insecure_fallback: bool,
}

/// How the reference to a backend client certificate resolved.
#[derive(Debug, Clone, Default, PartialEq, Eq)]
pub struct BackendClientCertOutcome {
    /// Status of the `ResolvedRefs` condition.
    pub resolved_refs_status: String,
    /// Reason of the `ResolvedRefs` condition.
    pub resolved_refs_reason: String,
    /// Message of the `ResolvedRefs` condition.
    pub message: String,
}

/// Health of all listeners merged into one Gateway.
#[derive(Debug, Clone, Default, PartialEq, Eq)]
pub struct GatewayListenerStatus {
    /// The listeners.
    pub listeners: Vec<ListenerEntry>,
    /// How client certificates are checked, where that is configured.
    pub frontend_validation: Option<FrontendValidation>,
    /// How the backend client certificate resolved, where one is configured.
    pub backend_client_cert: Option<BackendClientCertOutcome>,
}

/// The health recorded for the listener `name` of `source`.
pub open spec fn lookup(
    e: Seq<ListenerEntry>,
    source: Option<(Seq<char>, Seq<char>)>,
    name: Seq<char>,
) -> Option<ListenerInfo>
    decreases e.len(),
{
    if e.len() == 0 {
        None
    } else if source_key(e[0].source) == source && e[0].name@ == name {
        Some(e[0].info)
    } else {
        lookup(e.drop_first(), source, name)
    }
}

pub proof fn lemma_lookup(
    e: Seq<ListenerEntry>,
    source: Option<(Seq<char>, Seq<char>)>,
    name: Seq<char>,
    i: int,
)
    requires
        0 <= i <= e.len(),
        forall|j: int|
            0 <= j < i ==> !(source_key((#[trigger] e[j]).source) == source && e[j].name@ == name),
        i < e.len() ==> source_key(e[i].source) == source && e[i].name@ == name,
    ensures
        lookup(e, source, name) == if i < e.len() {
            Some(e[i].info)
        } else {
            None
        },
    decreases i,
{
    if i > 0 {
        assert(!(source_key(e[0].source) == source && e[0].name@ == name));
        let d = e.drop_first();
        assert(forall|j: int| 0 <= j < d.len() ==> #[trigger] d[j] == e[j + 1]);
        lemma_lookup(d, source, name, i - 1);
    }
}

/// The health recorded for a listener of the Gateway itself.
pub fn gateway_listener<'a>(e: &'a Vec<ListenerEntry>, name: &str) -> (r: Option<&'a ListenerInfo>)
    ensures
        match r {
            Some(i) => lookup(e@, None, name@) == Some(*i),
            None => lookup(e@, None, name@) is None,
        },
{
    let mut i: usize = 0;
    while i < e.len()
        invariant
            i <= e.len(),
            forall|j: int|
                0 <= j < i ==> !(source_key((#[trigger] e@[j]).source) == None::<
                    (Seq<char>, Seq<char>),
                > && e@[j].name@ == name@),
        decreases e.len() - i,
    {
        let of_gateway = match &e[i].source {
            ListenerSource::Gateway => true,
            ListenerSource::ListenerSet(_) => false,
        };
        if of_gateway && str_eq(e[i].name.as_str(), name) {
            proof {
                lemma_lookup(e@, None, name@, i as int);
            }
            return Some(&e[i].info);
        }
        i = i + 1;
    }
    proof {
        lemma_lookup(e@, None, name@, i as int);
    }
    None
}

/// The health recorded for a listener of a ListenerSet.
pub fn set_listener<'a>(e: &'a Vec<ListenerEntry>, key: &ObjectKey, name: &str) -> (r: Option<
    &'a ListenerInfo,
>)
    ensures
        match r {
            Some(i) => lookup(e@, Some(key@), name@) == Some(*i),
            None => lookup(e@, Some(key@), name@) is None,
        },
{
    let mut i: usize = 0;
    while i < e.len()
        invariant
            i <= e.len(),
            forall|j: int|
                0 <= j < i ==> !(source_key((#[trigger] e@[j]).source) == Some(key@) && e@[j].name@
                    == name@),
        decreases e.len() - i,
    {
        let of_set = match &e[i].source {
            ListenerSource::Gateway => false,
            ListenerSource::ListenerSet(k) => k.same(key),
        };
        if of_set && str_eq(e[i].name.as_str(), name) {
            proof {
                lemma_lookup(e@, Some(key@), name@, i as int);
            }
            return Some(&e[i].info);
        }
        i = i + 1;
    }
    proof {
        lemma_lookup(e@, Some(key@), name@, i as int);
    }
    None
}

/// A listener is accepted unless its recorded health says otherwise.
pub open spec fn accepted(info: Option<ListenerInfo>) -> bool {
    info matches Some(i) ==> i.accepted
}

/// A listener is accepted unless its recorded health says otherwise.
pub fn listener_is_accepted(info: Option<&ListenerInfo>) -> (r: bool)
    ensures
        r == match info {
            Some(i) => i.accepted,
            None => true,
        },
{
    match info {
        Some(i) => i.accepted,
        None => true,
    }
}

/// The ListenerSets with at least one listener that lost no conflict.
pub open spec fn attached_sets(e: Seq<ListenerEntry>) -> Set<(Seq<char>, Seq<char>)> {
    Set::new(
        |k: (Seq<char>, Seq<char>)|
            exists|i: int|
                0 <= i < e.len() && source_key((#[trigger] e[i]).source) == Some(k)
                    && !e[i].info.conflicted,
    )
}

/// How many ListenerSets have at least one listener that lost no conflict.
pub fn count_attached_sets(e: &Vec<ListenerEntry>) -> (r: i32)
    ensures
        r == attached_sets(e@).len() as i32,
{
    let mut seen: KeySet<ObjectKey> = KeySet::new();
    let mut i: usize = 0;
    assert(attached_sets(e@.take(0)) =~= Set::empty());
    while i < e.len()
        invariant
            i <= e.len(),
            seen@ == attached_sets(e@.take(i as int)),
        decreases e.len() - i,
    {
        let ghost before = attached_sets(e@.take(i as int));
        let ghost after = attached_sets(e@.take(i + 1));
        proof {
            assert(forall|j: int| 0 <= j < i ==> #[trigger] e@.take(i + 1)[j] == e@.take(i as int)[j]);
            assert(e@.take(i + 1)[i as int] == e@[i as int]);
            assert forall|k: (Seq<char>, Seq<char>)| before.contains(k) implies after.contains(k) by {
                let j = choose|j: int|
                    0 <= j < i && source_key((#[trigger] e@.take(i as int)[j]).source) == Some(k)
                        && !e@.take(i as int)[j].info.conflicted;
                assert(e@.take(i + 1)[j] == e@.take(i as int)[j]);
            }
            assert forall|k: (Seq<char>, Seq<char>)| after.contains(k) implies before.contains(k)
                || (source_key(e@[i as int].source) == Some(k) && !e@[i as int].info.conflicted) by {
                let j = choose|j: int|
                    0 <= j < i + 1 && source_key((#[trigger] e@.take(i + 1)[j]).source) == Some(k)
                        && !e@.take(i + 1)[j].info.conflicted;
                if j < i {
                    assert(e@.take(i + 1)[j] == e@.take(i as int)[j]);
                }
            }
        }
        match &e[i].source {
            ListenerSource::ListenerSet(k) => {
                if !e[i].info.conflicted {
                    seen.insert(k.copy());
                    assert(after.contains(k@)) by {
                        assert(source_key(e@.take(i + 1)[i as int].source) == Some(k@));
                    }
                }
            },
            ListenerSource::Gateway => {},
        }
        assert(seen@ =~= after);
        i = i + 1;
    }
    assert(e@.take(i as int) =~= e@);
    let n: usize = seen.len();
    #[verifier::truncate]
    (n as i32)
}

} // verus!
