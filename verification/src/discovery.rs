//! Identities and endpoints of routing discovery.

use vstd::prelude::*;

use crate::cli::{ProxyScope, RelayScope};
use crate::config::{Period, SECOND};
use crate::text::{cat, decimal, decimal_text};

verus! {

/// Service account in the identity that the controller issues to itself.
pub const CONTROLLER_SPIFFE_SA: &'static str = "coxswain-controller";

/// Audience that a proxy's token must be meant for.
pub const DISCOVERY_TOKEN_AUDIENCE: &'static str = "coxswain-discovery";

/// Service in front of the controller's routing stream.
pub const CONTROLLER_DISCOVERY_SERVICE: &'static str = "coxswain-controller-discovery";

/// Service in front of the controller's bootstrap.
pub const CONTROLLER_BOOTSTRAP_SERVICE: &'static str = "coxswain-controller-discovery-bootstrap";

/// Service account, and Service, of a namespace's relay.
pub const RELAY_SERVICE_ACCOUNT: &'static str = "coxswain-relay";

/// Service account, and Service, of the shared relay.
pub const SHARED_RELAY_SERVICE_ACCOUNT: &'static str = "coxswain-relay-shared";

/// Seconds for which the controller's own identity stays valid: a year.
pub const SERVER_SVID_TTL: u64 = 31_536_000;

/// How long the controller's own identity stays valid.
pub fn server_svid_ttl() -> (r: Period)
    ensures
        r.nanos == SERVER_SVID_TTL * SECOND,
        SERVER_SVID_TTL == 365 * 24 * 60 * 60,
{
    Period::from_secs(SERVER_SVID_TTL)
}

/// Where the certificate authority comes from, as the flag has it.
#[derive(Debug, Clone, Copy, PartialEq, Eq, Structural)]
pub enum CaModeArg {
    /// One is made where there is none.
    Auto,
    /// One must be there.
    External,
}

/// Where the certificate authority comes from.
#[derive(Debug, Clone, Copy, PartialEq, Eq, Structural)]
pub enum CaMode {
    /// One is made where there is none.
    Auto,
    /// One must be there.
    External,
}

/// Where the certificate authority comes from, by the flag.
pub fn map_ca_mode(mode: CaModeArg) -> (r: CaMode)
    ensures
        r == match mode {
            CaModeArg::Auto => CaMode::Auto,
            CaModeArg::External => CaMode::External,
        },
{
    match mode {
        CaModeArg::Auto => CaMode::Auto,
        CaModeArg::External => CaMode::External,
    }
}

/// What every identity of the trust domain begins with.
pub open spec fn identity_prefix(trust_domain: Seq<char>) -> Seq<char> {
    "spiffe://"@ + trust_domain + "/"@
}

/// What the identity of a client must begin with.
pub fn allowed_client_prefix(trust_domain: &str) -> (r: String)
    ensures
        r@ == identity_prefix(trust_domain@),
{
    let mut s = cat("spiffe://", trust_domain);
    s.append("/");
    s
}

/// The endpoint of a Service in the cluster.
pub open spec fn service_endpoint(service: Seq<char>, namespace: Seq<char>, port: u16) -> Seq<char> {
    "https://"@ + service + "."@ + namespace + ".svc:"@ + decimal(port as nat)
}

fn endpoint(service: &str, namespace: &str, port: u16) -> (r: String)
    ensures
        r@ == service_endpoint(service@, namespace@, port),
{
    let mut s = cat("https://", service);
    s.append(".");
    s.append(namespace);
    s.append(".svc:");
    s.append(decimal_text(port as u64).as_str());
    s
}

/// Where proxies and relays stream routing from the controller.
pub fn controller_stream_endpoint(namespace: &str, discovery_port: u16) -> (r: String)
    ensures
        r@ == service_endpoint(CONTROLLER_DISCOVERY_SERVICE@, namespace@, discovery_port),
{
    endpoint(CONTROLLER_DISCOVERY_SERVICE, namespace, discovery_port)
}

/// Where proxies and relays get their identity.
pub fn controller_bootstrap_endpoint(namespace: &str, bootstrap_port: u16) -> (r: String)
    ensures
        r@ == service_endpoint(CONTROLLER_BOOTSTRAP_SERVICE@, namespace@, bootstrap_port),
{
    endpoint(CONTROLLER_BOOTSTRAP_SERVICE, namespace, bootstrap_port)
}

/// Where shared proxies stream routing from the shared relay.
pub fn shared_relay_endpoint(namespace: &str, relay_port: u16) -> (r: String)
    ensures
        r@ == service_endpoint(SHARED_RELAY_SERVICE_ACCOUNT@, namespace@, relay_port),
{
    endpoint(SHARED_RELAY_SERVICE_ACCOUNT, namespace, relay_port)
}

/// The names from which the upstreams that a node accepts are made up.
#[derive(Debug, Clone, PartialEq, Eq)]
pub struct UpstreamNames {
    /// Service of the controller.
    pub controller_service: String,
    /// Service account of the controller.
    pub controller_sa: String,
    /// Service and service account of a namespace's relay.
    pub relay: String,
    /// Service and service account of the shared relay.
    pub shared_relay: String,
}

/// Which upstreams a node accepts: the controller and the shared relay in the namespace of the
/// installation, and the relay in its own.
#[derive(Debug, Clone, PartialEq, Eq)]
pub struct UpstreamPolicy {
    /// The trust domain of every identity.
    pub trust_domain: String,
    /// Namespace of the installation.
    pub install_namespace: String,
    /// Namespace of the node.
    pub own_namespace: String,
    /// The names.
    pub names: UpstreamNames,
}

/// What a policy holds.
pub struct PolicyView {
    /// The trust domain of every identity.
    pub trust_domain: Seq<char>,
    /// Namespace of the installation.
    pub install_namespace: Seq<char>,
    /// Namespace of the node.
    pub own_namespace: Seq<char>,
    /// Service of the controller.
    pub controller_service: Seq<char>,
    /// Service account of the controller.
    pub controller_sa: Seq<char>,
    /// Service and service account of a namespace's relay.
    pub relay: Seq<char>,
    /// Service and service account of the shared relay.
    pub shared_relay: Seq<char>,
}

impl View for UpstreamPolicy {
    type V = PolicyView;

    open spec fn view(&self) -> PolicyView {
        PolicyView {
            trust_domain: self.trust_domain@,
            install_namespace: self.install_namespace@,
            own_namespace: self.own_namespace@,
            controller_service: self.names.controller_service@,
            controller_sa: self.names.controller_sa@,
            relay: self.names.relay@,
            shared_relay: self.names.shared_relay@,
        }
    }
}

/// The policy of a node: nothing in it comes from another node.
pub open spec fn policy_of(
    trust_domain: Seq<char>,
    install_namespace: Seq<char>,
    pod_namespace: Seq<char>,
) -> PolicyView {
    PolicyView {
        trust_domain,
        install_namespace,
        own_namespace: pod_namespace,
        controller_service: CONTROLLER_DISCOVERY_SERVICE@,
        controller_sa: CONTROLLER_SPIFFE_SA@,
        relay: RELAY_SERVICE_ACCOUNT@,
        shared_relay: SHARED_RELAY_SERVICE_ACCOUNT@,
    }
}

/// Which upstreams a node accepts.
pub fn build_upstream_policy(
    trust_domain: &str,
    pod_namespace: &str,
    install_namespace: &str,
) -> (r: UpstreamPolicy)
    ensures
        r@ == policy_of(trust_domain@, install_namespace@, pod_namespace@),
{
    UpstreamPolicy {
        trust_domain: trust_domain.to_owned(),
        install_namespace: install_namespace.to_owned(),
        own_namespace: pod_namespace.to_owned(),
        names: UpstreamNames {
            controller_service: CONTROLLER_DISCOVERY_SERVICE.to_owned(),
            controller_sa: CONTROLLER_SPIFFE_SA.to_owned(),
            relay: RELAY_SERVICE_ACCOUNT.to_owned(),
            shared_relay: SHARED_RELAY_SERVICE_ACCOUNT.to_owned(),
        },
    }
}

/// What a node subscribes to.
#[derive(Debug, Clone, PartialEq, Eq)]
pub enum Scope {
    /// The shared pool.
    SharedPool,
    /// One Gateway.
    Gateway {
        /// Name of the Gateway.
        name: String,
        /// Namespace of the Gateway.
        namespace: String,
    },
    /// All Gateways of a namespace.
    Namespace {
        /// The namespace.
        namespace: String,
    },
}

/// What a proxy subscribes to.
pub fn proxy_subscription(scope: ProxyScope) -> (r: Scope)
    ensures
        r == match scope {
            ProxyScope::Shared => Scope::SharedPool,
            ProxyScope::Gateway { name, namespace } => Scope::Gateway { name, namespace },
        },
{
    match scope {
        ProxyScope::Shared => Scope::SharedPool,
        ProxyScope::Gateway { name, namespace } => Scope::Gateway { name, namespace },
    }
}

/// What a relay subscribes to.
pub fn relay_subscription(scope: RelayScope) -> (r: Scope)
    ensures
        r == match scope {
            RelayScope::Shared => Scope::SharedPool,
            RelayScope::Namespace { namespace } => Scope::Namespace { namespace },
        },
{
    match scope {
        RelayScope::Shared => Scope::SharedPool,
        RelayScope::Namespace { namespace } => Scope::Namespace { namespace },
    }
}

/// What a node's discovery client is told.
pub struct ClientPlan {
    /// Name under which the node reports.
    pub node: String,
    /// What it subscribes to.
    pub scope: Scope,
    /// The trust domain of every identity.
    pub trust_domain: String,
    /// Namespace that stands in where an endpoint names none.
    pub fallback_namespace: String,
    /// Where the node gets its identity.
    pub bootstrap_endpoint: String,
    /// Namespace of the server that issues it.
    pub bootstrap_namespace: String,
    /// Where the node's token is kept.
    pub sa_token_path: String,
    /// Where the trusted authorities are kept.
    pub ca_bundle_path: String,
    /// Which upstreams it accepts, from whichever side they are announced.
    pub upstream_policy: UpstreamPolicy,
}

/// The flags that a discovery client is set up from.
pub struct DiscoveryClientArgs {
    /// Where the node gets its identity.
    pub discovery_bootstrap_endpoint: String,
    /// Where the node's token is kept.
    pub discovery_sa_token_path: String,
    /// Where the trusted authorities are kept.
    pub discovery_ca_bundle_path: String,
    /// The trust domain of every identity.
    pub discovery_trust_domain: String,
}

/// The namespace that the bootstrap endpoint names, or the node's own.
pub open spec fn install_namespace(named: Option<String>, own: Seq<char>) -> Seq<char> {
    match named {
        Some(ns) => ns@,
        None => own,
    }
}

/// What a node's discovery client is told. `named` is the namespace in the bootstrap endpoint, where
/// that is the name of a Service.
pub fn build_discovery_client_config(
    disco: &DiscoveryClientArgs,
    pod_name: &str,
    pod_namespace: &str,
    scope: Scope,
    named: Option<String>,
) -> (r: ClientPlan)
    ensures
        r.node@ == pod_name@,
        r.scope == scope,
        r.trust_domain@ == disco.discovery_trust_domain@,
        r.fallback_namespace@ == pod_namespace@,
        r.bootstrap_endpoint@ == disco.discovery_bootstrap_endpoint@,
        r.bootstrap_namespace@ == install_namespace(named, pod_namespace@),
        r.sa_token_path@ == disco.discovery_sa_token_path@,
        r.ca_bundle_path@ == disco.discovery_ca_bundle_path@,
        r.upstream_policy@ == policy_of(
            disco.discovery_trust_domain@,
            install_namespace(named, pod_namespace@),
            pod_namespace@,
        ),
{
    let bootstrap_namespace = match named {
        Some(ns) => ns,
        None => pod_namespace.to_owned(),
    };
    let upstream_policy = build_upstream_policy(
        disco.discovery_trust_domain.as_str(),
        pod_namespace,
        bootstrap_namespace.as_str(),
    );
    ClientPlan {
        node: pod_name.to_owned(),
        scope,
        trust_domain: disco.discovery_trust_domain.as_str().to_owned(),
        fallback_namespace: pod_namespace.to_owned(),
        bootstrap_endpoint: disco.discovery_bootstrap_endpoint.as_str().to_owned(),
        bootstrap_namespace,
        sa_token_path: disco.discovery_sa_token_path.as_str().to_owned(),
        ca_bundle_path: disco.discovery_ca_bundle_path.as_str().to_owned(),
        upstream_policy,
    }
}

/// Milliseconds for which a relay gathers changes of its roster before it reports them.
pub const ROSTER_COALESCE: u64 = 200;

/// What can happen to the reporter of a relay's roster.
#[derive(Debug, Clone, Copy, PartialEq, Eq, Structural)]
pub enum RosterEvent {
    /// The roster changed.
    Changed,
    /// The pause is over.
    Paused,
    /// The roster was sent.
    Sent,
    /// The roster is gone.
    RosterGone,
    /// Who is reported to is gone.
    UpstreamGone,
}

/// What the reporter of a relay's roster does next.
#[derive(Debug, Clone, Copy, PartialEq, Eq, Structural)]
pub enum RosterAction {
    /// Wait for a change.
    AwaitChange,
    /// Wait for this long, whatever changes.
    Pause(Period),
    /// Send the roster as it is, once.
    Send,
    /// End.
    Stop,
}

/// What the reporter of a relay's roster does next: after a change it pauses, so that a burst of
/// changes makes one report, sends the roster once and waits for the next change. It ends where
/// either side is gone.
pub fn roster_step(event: RosterEvent) -> (r: RosterAction)
    ensures
        r == match event {
            RosterEvent::Changed => RosterAction::Pause(
                Period { nanos: (ROSTER_COALESCE * 1_000_000) as u128 },
            ),
            RosterEvent::Paused => RosterAction::Send,
            RosterEvent::Sent => RosterAction::AwaitChange,
            RosterEvent::RosterGone => RosterAction::Stop,
            RosterEvent::UpstreamGone => RosterAction::Stop,
        },
{
    match event {
        RosterEvent::Changed => RosterAction::Pause(Period::from_millis(ROSTER_COALESCE)),
        RosterEvent::Paused => RosterAction::Send,
        RosterEvent::Sent => RosterAction::AwaitChange,
        RosterEvent::RosterGone => RosterAction::Stop,
        RosterEvent::UpstreamGone => RosterAction::Stop,
    }
}

} // verus!
