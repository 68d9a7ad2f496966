//! What the command line settles: the role of a pod, and the settings that a role passes on.

use vstd::prelude::*;

use crate::config::{
    AddressText, ControllerConfig, ControllerConfigError, IngressPorts, LeaseSettings, Period,
    SECOND,
};
use crate::table::Table;
use crate::text::{
    cat, debug_text, decimal, decimal_text, find_char, first_at, first_is_unique,
    first_of, free_of, opt_copy, opt_text, split, split_at_char, str_eq, text_debug,
    texts, trim_text, trimmed,
};

verus! {

/// What the access log records of a request's path.
#[derive(Debug, Clone, Copy, PartialEq, Eq, Structural)]
pub enum AccessLogPathMode {
    /// The path as it was received.
    Full,
    /// The pattern that matched.
    Pattern,
    /// Nothing.
    Omitted,
}

impl AccessLogPathMode {
    /// The value of the flag.
    pub open spec fn flag(self) -> Seq<char> {
        match self {
            AccessLogPathMode::Full => "full"@,
            AccessLogPathMode::Pattern => "pattern"@,
            AccessLogPathMode::Omitted => "none"@,
        }
    }

    /// The value of `--access-log-path-mode` for a pod that is to be started with it.
    pub fn as_flag_value(self) -> (r: &'static str)
        ensures
            r@ == self.flag(),
    {
        match self {
            AccessLogPathMode::Full => "full",
            AccessLogPathMode::Pattern => "pattern",
            AccessLogPathMode::Omitted => "none",
        }
    }
}

/// What a label selector holds.
pub open spec fn labels(m: Map<Seq<char>, String>) -> Map<Seq<char>, Seq<char>> {
    m.map_values(|v: String| v@)
}

/// What one entry of a label selector says.
pub enum EntryView {
    /// Nothing: the entry is blank.
    Blank,
    /// A key and its value.
    Pair(Seq<char>, Seq<char>),
    /// There is no `=`.
    NoValue,
    /// There is nothing in front of the first `=`.
    NoKey,
}

/// What one entry of a label selector says.
pub open spec fn entry_of(entry: Seq<char>) -> EntryView {
    let pair = trimmed(entry);
    let at = first_of(pair, '=');
    let key = trimmed(pair.take(at));
    if pair.len() == 0 {
        EntryView::Blank
    } else if free_of(pair, '=') {
        EntryView::NoValue
    } else if key.len() == 0 {
        EntryView::NoKey
    } else {
        EntryView::Pair(key, trimmed(pair.skip(at + 1)))
    }
}

/// What a refused entry is answered with.
pub open spec fn entry_error(entry: Seq<char>, what: Seq<char>) -> Seq<char> {
    "invalid label selector entry "@ + text_debug(trimmed(entry)) + what
}

/// What a label selector says: the pairs of its entries, where a later one stands for an earlier
/// one with the same key; or why its first bad entry is refused.
pub open spec fn selector_of(entries: Seq<Seq<char>>) -> Result<
    Map<Seq<char>, Seq<char>>,
    Seq<char>,
>
    decreases entries.len(),
{
    if entries.len() == 0 {
        Ok(Map::empty())
    } else {
        match selector_of(entries.drop_last()) {
            Err(e) => Err(e),
            Ok(m) => match entry_of(entries.last()) {
                EntryView::Blank => Ok(m),
                EntryView::Pair(k, v) => Ok(m.insert(k, v)),
                EntryView::NoValue => Err(
                    entry_error(entries.last(), ": expected key=value"@),
                ),
                EntryView::NoKey => Err(entry_error(entries.last(), ": empty key"@)),
            },
        }
    }
}

/// A refused entry decides, whatever comes after it.
proof fn lemma_first_bad_entry(entries: Seq<Seq<char>>, n: int)
    requires
        0 <= n <= entries.len(),
        selector_of(entries.take(n)) is Err,
    ensures
        selector_of(entries) == selector_of(entries.take(n)),
    decreases entries.len(),
{
    if n < entries.len() {
        assert(entries.drop_last().take(n) =~= entries.take(n));
        lemma_first_bad_entry(entries.drop_last(), n);
    } else {
        assert(entries.take(n) =~= entries);
    }
}

fn entry_message(pair: &str, what: &str) -> (r: String)
    ensures
        r@ == "invalid label selector entry "@ + text_debug(pair@) + what@,
{
    let mut s = cat("invalid label selector entry ", debug_text(pair).as_str());
    s.append(what);
    s
}

/// Reads a label selector: `key=value` pairs with commas between them. White space round keys and
/// values does not count, and neither do blank entries.
pub fn parse_label_selector(s: &str) -> (r: Result<Table<String, String>, String>)
    ensures
        match r {
            Ok(t) => selector_of(split_at_char(s@, ',')) == Ok::<_, Seq<char>>(labels(t@)),
            Err(e) => selector_of(split_at_char(s@, ',')) == Err::<
                Map<Seq<char>, Seq<char>>,
                _,
            >(e@),
        },
{
    let entries = split(s, ',');
    let ghost all = texts(entries@);
    let mut out: Table<String, String> = Table::new();
    let mut i: usize = 0;
    proof {
        assert(all.take(0) =~= Seq::<Seq<char>>::empty());
        assert(labels(out@) =~= Map::<Seq<char>, Seq<char>>::empty());
    }
    while i < entries.len()
        invariant
            i <= entries.len(),
            all == texts(entries@),
            all == split_at_char(s@, ','),
            selector_of(all.take(i as int)) == Ok::<_, Seq<char>>(labels(out@)),
        decreases entries.len() - i,
    {
        let ghost entry = all[i as int];
        let ghost seen = all.take(i + 1);
        proof {
            assert(seen.drop_last() =~= all.take(i as int));
            assert(seen.last() == entry);
        }
        let pair = trim_text(entries[i].as_str());
        if !pair.as_str().is_empty() {
            match find_char(pair.as_str(), '=') {
                None => {
                    let e = entry_message(pair.as_str(), ": expected key=value");
                    proof {
                        assert(selector_of(seen) == Err::<Map<Seq<char>, Seq<char>>, _>(e@));
                        lemma_first_bad_entry(all, i + 1);
                    }
                    return Err(e);
                },
                Some(at) => {
                    proof {
                        assert(first_at(pair@, '=', at as int));
                        first_is_unique(pair@, '=', at as int);
                        assert(!free_of(pair@, '='));
                    }
                    let n: usize = pair.as_str().unicode_len();
                    let key = trim_text(pair.as_str().substring_char(0, at));
                    let value = trim_text(pair.as_str().substring_char(at + 1, n));
                    proof {
                        assert(pair@.subrange(0, at as int) =~= pair@.take(at as int));
                        assert(pair@.subrange(at + 1, n as int) =~= pair@.skip(at + 1));
                    }
                    if key.as_str().is_empty() {
                        let e = entry_message(pair.as_str(), ": empty key");
                        proof {
                            assert(selector_of(seen) == Err::<Map<Seq<char>, Seq<char>>, _>(e@));
                            lemma_first_bad_entry(all, i + 1);
                        }
                        return Err(e);
                    }
                    let ghost before = out@;
                    let ghost k = key@;
                    let ghost v = value@;
                    out.insert(key, value);
                    assert(labels(out@) =~= labels(before).insert(k, v));
                },
            }
        }
        i = i + 1;
    }
    assert(all.take(i as int) =~= all);
    Ok(out)
}

/// A selector without text selects nothing.
pub proof fn empty_selector_has_no_labels()
    ensures
        selector_of(split_at_char(Seq::empty(), ',')) == Ok::<_, Seq<char>>(
            Map::<Seq<char>, Seq<char>>::empty(),
        ),
{
    let e = Seq::<char>::empty();
    let pieces = split_at_char(e, ',');
    assert(pieces =~= seq![e]);
    assert(pieces.drop_last() =~= Seq::<Seq<char>>::empty());
    assert(pieces.last() == e);
    assert(crate::text::trims_at(e, e.subrange(0, 0), 0, 0));
    assert(e.subrange(0, 0) =~= e);
    crate::text::trim_is_unique(e, e, trimmed(e));
    assert(entry_of(e) == EntryView::Blank);
    assert(selector_of(pieces.drop_last()) == Ok::<_, Seq<char>>(
        Map::<Seq<char>, Seq<char>>::empty(),
    ));
}

/// What kind of Service gives a shared Gateway its address.
#[derive(Debug, Clone, Copy, PartialEq, Eq, Structural)]
pub enum ServiceType {
    /// An address outside the cluster.
    LoadBalancer,
    /// A stable address inside the cluster.
    ClusterIp,
}

/// What the text is compared with.
pub open spec fn service_type_word(s: Seq<char>) -> Seq<char> {
    trimmed(s).map_values(|c: char| crate::text::lower_char(c))
}

/// Reads the kind of Service for shared Gateways, in any case.
pub fn parse_service_type(s: &str) -> (r: Result<ServiceType, String>)
    ensures
        ({
            let word = service_type_word(s@);
            match r {
                Ok(ServiceType::LoadBalancer) => word == "loadbalancer"@,
                Ok(ServiceType::ClusterIp) => word == "clusterip"@ && word != "loadbalancer"@,
                Err(e) => word != "loadbalancer"@ && word != "clusterip"@ && e@
                    == "invalid shared VIP service type "@ + text_debug(word)
                    + ": expected LoadBalancer or ClusterIP"@,
            }
        }),
{
    let word = trim_text(s).as_str().to_ascii_lowercase();
    assert(word@ == service_type_word(s@));
    if str_eq(word.as_str(), "loadbalancer") {
        return Ok(ServiceType::LoadBalancer);
    }
    if str_eq(word.as_str(), "clusterip") {
        return Ok(ServiceType::ClusterIp);
    }
    let mut e = cat("invalid shared VIP service type ", debug_text(word.as_str()).as_str());
    e.append(": expected LoadBalancer or ClusterIP");
    Err(e)
}

/// What a text reads as in JSON: the value in its compact notation, or what is wrong with it.
pub uninterp spec fn json_reading(s: Seq<char>) -> Result<Seq<char>, Seq<char>>;

/// `serde_json::from_str` into `serde_json::Value`, and the `Display` of the value or of the error.
/// The contract says that both texts depend on the given text alone.
#[verifier::external_body]
fn read_json(s: &str) -> (r: Result<String, String>)
    ensures
        match r {
            Ok(v) => json_reading(s@) == Ok::<_, Seq<char>>(v@),
            Err(e) => json_reading(s@) == Err::<Seq<char>, _>(e@),
        },
{
    match serde_json::from_str::<serde_json::Value>(s) {
        Ok(v) => Ok(v.to_string()),
        Err(e) => Err(e.to_string()),
    }
}

/// What is made of a pod template that was read.
pub fn pod_template_from(reading: Result<String, String>) -> (r: Result<String, String>)
    ensures
        match reading {
            Ok(v) => r == Ok::<_, String>(v),
            Err(e) => r is Err && r->Err_0@ == "invalid pod-template JSON: "@ + e@,
        },
{
    match reading {
        Ok(v) => Ok(v),
        Err(e) => Err(cat("invalid pod-template JSON: ", e.as_str())),
    }
}

/// Reads a pod template; the result is the template in compact JSON.
pub fn parse_json(s: &str) -> (r: Result<String, String>)
    ensures
        match r {
            Ok(v) => json_reading(s@) == Ok::<_, Seq<char>>(v@),
            Err(e) => json_reading(s@) is Err && e@ == "invalid pod-template JSON: "@
                + json_reading(s@)->Err_0,
        },
{
    pod_template_from(read_json(s))
}

/// An IP network, in its usual notation.
#[derive(Debug, Clone, PartialEq, Eq)]
pub struct Network {
    /// The address, a slash and the length of the prefix.
    pub text: String,
}

/// What a text reads as where it stands for an IP network: the network in its usual notation, or
/// what is wrong with it.
pub uninterp spec fn network_reading(s: Seq<char>) -> Result<Seq<char>, Seq<char>>;

/// `str::parse` into `ipnet::IpNet`, and the `Display` of the network or of the error. The contract
/// says that both texts depend on the given text alone.
#[verifier::external_body]
fn read_network(s: &str) -> (r: Result<String, String>)
    ensures
        match r {
            Ok(v) => network_reading(s@) == Ok::<_, Seq<char>>(v@),
            Err(e) => network_reading(s@) == Err::<Seq<char>, _>(e@),
        },
{
    match s.parse::<ipnet::IpNet>() {
        Ok(n) => Ok(n.to_string()),
        Err(e) => Err(e.to_string()),
    }
}

impl Network {
    /// The network of a reading.
    pub fn from_reading(reading: Result<String, String>) -> (r: Result<Self, String>)
        ensures
            match reading {
                Ok(text) => r == Ok::<_, String>(Network { text }),
                Err(e) => r == Err::<Network, _>(e),
            },
    {
        match reading {
            Ok(text) => Ok(Network { text }),
            Err(e) => Err(e),
        }
    }

    /// Reads a network.
    pub fn parse(s: &str) -> (r: Result<Self, String>)
        ensures
            match r {
                Ok(n) => network_reading(s@) == Ok::<_, Seq<char>>(n.text@),
                Err(e) => network_reading(s@) == Err::<Seq<char>, _>(e@),
            },
    {
        Network::from_reading(read_network(s))
    }
}

/// What networks hold.
pub open spec fn network_texts(v: Seq<Network>) -> Seq<Seq<char>> {
    Seq::new(v.len(), |i: int| v[i].text@)
}

/// The notations of the networks.
pub fn networks_shown(v: &Vec<Network>) -> (r: Vec<String>)
    ensures
        texts(r@) == network_texts(v@),
{
    let mut out: Vec<String> = Vec::new();
    let mut i: usize = 0;
    while i < v.len()
        invariant
            i <= v.len(),
            texts(out@) == network_texts(v@).take(i as int),
        decreases v.len() - i,
    {
        let ghost before = out@;
        out.push(v[i].text.as_str().to_owned());
        assert(texts(out@) =~= texts(before).push(v@[i as int].text@));
        assert(network_texts(v@).take(i + 1) =~= network_texts(v@).take(i as int).push(
            v@[i as int].text@,
        ));
        i = i + 1;
    }
    assert(network_texts(v@).take(i as int) =~= network_texts(v@));
    assert(texts(out@) =~= network_texts(v@));
    out
}

/// How a period of `secs` seconds and `nanos` nanoseconds is written in a flag.
pub uninterp spec fn period_text(secs: u64, nanos: u32) -> Seq<char>;

/// The `Display` of `humantime::format_duration`. The contract says that the text depends on the
/// seconds and the nanoseconds alone.
#[verifier::external_body]
fn format_duration(secs: u64, nanos: u32) -> (r: String)
    requires
        nanos < 1_000_000_000,
    ensures
        r@ == period_text(secs, nanos),
{
    humantime::format_duration(std::time::Duration::new(secs, nanos)).to_string()
}

/// How a period is written in a flag.
pub open spec fn period_flag(p: Period) -> Seq<char> {
    period_text((p.nanos as int / SECOND as int) as u64, (p.nanos as int % SECOND as int) as u32)
}

/// How a period is written in a flag.
pub fn period_flag_value(p: Period) -> (r: String)
    requires
        p.valid(),
    ensures
        r@ == period_flag(p),
{
    format_duration(p.as_secs(), p.subsec_nanos())
}

fn opt_period_flag(p: Option<Period>) -> (r: Option<String>)
    requires
        p is Some ==> p->0.valid(),
    ensures
        opt_text(r) == match p {
            Some(d) => Some(period_flag(d)),
            None => None,
        },
{
    match p {
        Some(d) => Some(period_flag_value(d)),
        None => None,
    }
}

/// The Service that takes Ingress traffic which nothing else takes.
#[derive(Debug, Clone, PartialEq, Eq)]
pub struct IngressDefaultBackend {
    /// Namespace of the Service.
    pub namespace: String,
    /// Name of the Service.
    pub name: String,
    /// Port of the Service.
    pub port: u16,
}

impl IngressDefaultBackend {
    /// How the backend is written in a flag.
    pub open spec fn flag(&self) -> Seq<char> {
        self.namespace@ + "/"@ + self.name@ + ":"@ + decimal(self.port as nat)
    }

    /// How the backend is written in a flag.
    pub fn as_flag_value(&self) -> (r: String)
        ensures
            r@ == self.flag(),
    {
        let mut s = cat(self.namespace.as_str(), "/");
        s.append(self.name.as_str());
        s.append(":");
        s.append(decimal_text(self.port as u64).as_str());
        s
    }
}

/// The flags of the `controller` role that its settings come from.
pub struct ControllerArgs {
    /// How long a lease stays valid without renewal.
    pub controller_lease_ttl: Period,
    /// How often the leader renews its lease.
    pub controller_lease_renew_interval: Period,
    /// The address for the status of Ingresses and Gateways.
    pub status_address: Option<AddressText>,
    /// The labels of the shared proxy pods.
    pub shared_proxy_selector: Table<String, String>,
    /// Whether the shared pool is provisioned.
    pub shared_proxy_enabled: bool,
    /// Name of the pool.
    pub shared_proxy_name: String,
    /// Number of pods without autoscaling.
    pub shared_proxy_replicas: u32,
    /// Requested processor share.
    pub shared_proxy_cpu_request: String,
    /// Requested memory.
    pub shared_proxy_memory_request: String,
    /// Limit on the processor share.
    pub shared_proxy_cpu_limit: String,
    /// Limit on the memory.
    pub shared_proxy_memory_limit: String,
    /// Whether the pool is scaled with the traffic.
    pub shared_proxy_autoscaling_enabled: bool,
    /// Fewest pods under autoscaling.
    pub shared_proxy_autoscaling_min_replicas: u32,
    /// Most pods under autoscaling.
    pub shared_proxy_autoscaling_max_replicas: u32,
    /// Processor use that is aimed at, in percent.
    pub shared_proxy_autoscaling_target_cpu: u32,
    /// Threads for each service; zero lets the pod choose.
    pub shared_proxy_threads: usize,
    /// Idle connections that are kept.
    pub shared_proxy_upstream_keepalive_pool_size: usize,
    /// How long connections may go on at a shutdown.
    pub shared_proxy_shutdown_grace_period: Period,
    /// How long the last step of a shutdown may take.
    pub shared_proxy_shutdown_timeout: Period,
    /// How long connections of a removed listener may go on.
    pub shared_proxy_listener_drain_timeout: Period,
    /// Default limit on a whole request.
    pub shared_proxy_default_request_timeout: Option<Period>,
    /// Default limit on a request to a backend.
    pub shared_proxy_default_backend_request_timeout: Option<Period>,
    /// Whether Ingress connections carry the PROXY protocol.
    pub shared_proxy_accept_proxy_protocol: bool,
    /// Who may send PROXY headers.
    pub shared_proxy_trusted_sources: Vec<Network>,
    /// Where unmatched Ingress traffic goes.
    pub shared_proxy_ingress_default_backend: Option<IngressDefaultBackend>,
    /// Whether requests are logged.
    pub shared_proxy_access_log: bool,
    /// What is logged of a path.
    pub shared_proxy_access_log_path_mode: AccessLogPathMode,
    /// What is merged into the pods, in JSON.
    pub shared_proxy_pod_template: Option<String>,
}

/// The settings of the shared pool, as they are written into its pods.
pub struct SharedProxyConfig {
    /// Whether the pool is provisioned.
    pub enabled: bool,
    /// Name of the pool.
    pub name: String,
    /// Number of pods without autoscaling.
    pub replicas: u32,
    /// Requested processor share.
    pub cpu_request: String,
    /// Requested memory.
    pub memory_request: String,
    /// Limit on the processor share.
    pub cpu_limit: String,
    /// Limit on the memory.
    pub memory_limit: String,
    /// Whether the pool is scaled with the traffic.
    pub autoscaling_enabled: bool,
    /// Fewest pods under autoscaling.
    pub autoscaling_min_replicas: u32,
    /// Most pods under autoscaling.
    pub autoscaling_max_replicas: u32,
    /// Processor use that is aimed at, in percent.
    pub autoscaling_target_cpu: u32,
    /// Threads for each service.
    pub threads: usize,
    /// Idle connections that are kept.
    pub upstream_keepalive_pool_size: usize,
    /// How long connections may go on at a shutdown.
    pub shutdown_grace_period: String,
    /// How long the last step of a shutdown may take.
    pub shutdown_timeout: String,
    /// How long connections of a removed listener may go on.
    pub listener_drain_timeout: String,
    /// Default limit on a whole request.
    pub default_request_timeout: Option<String>,
    /// Default limit on a request to a backend.
    pub default_backend_request_timeout: Option<String>,
    /// Whether Ingress connections carry the PROXY protocol.
    pub accept_proxy_protocol: bool,
    /// Who may send PROXY headers.
    pub trusted_sources: Vec<String>,
    /// Where unmatched Ingress traffic goes.
    pub ingress_default_backend: Option<String>,
    /// Whether requests are logged.
    pub access_log: bool,
    /// What is logged of a path.
    pub access_log_path_mode: String,
    /// What is merged into the pods, in JSON.
    pub pod_template: Option<String>,
}

impl ControllerArgs {
    /// All periods are ones that a clock can measure, and so is three times the renewal interval.
    pub open spec fn valid(&self) -> bool {
        &&& self.controller_lease_ttl.valid()
        &&& self.controller_lease_renew_interval.nanos * 3 <= crate::config::MAX_PERIOD
        &&& self.shared_proxy_shutdown_grace_period.valid()
        &&& self.shared_proxy_shutdown_timeout.valid()
        &&& self.shared_proxy_listener_drain_timeout.valid()
        &&& self.shared_proxy_default_request_timeout is Some
            ==> self.shared_proxy_default_request_timeout->0.valid()
        &&& self.shared_proxy_default_backend_request_timeout is Some
            ==> self.shared_proxy_default_backend_request_timeout->0.valid()
    }

    /// The settings of the shared pool. Periods, networks and choices are put in the form that a
    /// flag takes; everything else stays as it is.
    pub fn shared_proxy_config(&self) -> (r: SharedProxyConfig)
        requires
            self.valid(),
        ensures
            r.enabled == self.shared_proxy_enabled,
            r.name@ == self.shared_proxy_name@,
            r.replicas == self.shared_proxy_replicas,
            r.cpu_request@ == self.shared_proxy_cpu_request@,
            r.memory_request@ == self.shared_proxy_memory_request@,
            r.cpu_limit@ == self.shared_proxy_cpu_limit@,
            r.memory_limit@ == self.shared_proxy_memory_limit@,
            r.autoscaling_enabled == self.shared_proxy_autoscaling_enabled,
            r.autoscaling_min_replicas == self.shared_proxy_autoscaling_min_replicas,
            r.autoscaling_max_replicas == self.shared_proxy_autoscaling_max_replicas,
            r.autoscaling_target_cpu == self.shared_proxy_autoscaling_target_cpu,
            r.threads == self.shared_proxy_threads,
            r.upstream_keepalive_pool_size == self.shared_proxy_upstream_keepalive_pool_size,
            r.shutdown_grace_period@ == period_flag(self.shared_proxy_shutdown_grace_period),
            r.shutdown_timeout@ == period_flag(self.shared_proxy_shutdown_timeout),
            r.listener_drain_timeout@ == period_flag(self.shared_proxy_listener_drain_timeout),
            opt_text(r.default_request_timeout) == match self.shared_proxy_default_request_timeout {
                Some(d) => Some(period_flag(d)),
                None => None,
            },
            opt_text(r.default_backend_request_timeout) == match
                self.shared_proxy_default_backend_request_timeout {
                Some(d) => Some(period_flag(d)),
                None => None,
            },
            r.accept_proxy_protocol == self.shared_proxy_accept_proxy_protocol,
            texts(r.trusted_sources@) == network_texts(self.shared_proxy_trusted_sources@),
            opt_text(r.ingress_default_backend) == match self.shared_proxy_ingress_default_backend {
                Some(b) => Some(b.flag()),
                None => None,
            },
            r.access_log == self.shared_proxy_access_log,
            r.access_log_path_mode@ == self.shared_proxy_access_log_path_mode.flag(),
            opt_text(r.pod_template) == opt_text(self.shared_proxy_pod_template),
    {
        let ingress_default_backend = match &self.shared_proxy_ingress_default_backend {
            Some(b) => Some(b.as_flag_value()),
            None => None,
        };
        SharedProxyConfig {
            enabled: self.shared_proxy_enabled,
            name: self.shared_proxy_name.as_str().to_owned(),
            replicas: self.shared_proxy_replicas,
            cpu_request: self.shared_proxy_cpu_request.as_str().to_owned(),
            memory_request: self.shared_proxy_memory_request.as_str().to_owned(),
            cpu_limit: self.shared_proxy_cpu_limit.as_str().to_owned(),
            memory_limit: self.shared_proxy_memory_limit.as_str().to_owned(),
            autoscaling_enabled: self.shared_proxy_autoscaling_enabled,
            autoscaling_min_replicas: self.shared_proxy_autoscaling_min_replicas,
            autoscaling_max_replicas: self.shared_proxy_autoscaling_max_replicas,
            autoscaling_target_cpu: self.shared_proxy_autoscaling_target_cpu,
            threads: self.shared_proxy_threads,
            upstream_keepalive_pool_size: self.shared_proxy_upstream_keepalive_pool_size,
            shutdown_grace_period: period_flag_value(self.shared_proxy_shutdown_grace_period),
            shutdown_timeout: period_flag_value(self.shared_proxy_shutdown_timeout),
            listener_drain_timeout: period_flag_value(self.shared_proxy_listener_drain_timeout),
            default_request_timeout: opt_period_flag(self.shared_proxy_default_request_timeout),
            default_backend_request_timeout: opt_period_flag(
                self.shared_proxy_default_backend_request_timeout,
            ),
            accept_proxy_protocol: self.shared_proxy_accept_proxy_protocol,
            trusted_sources: networks_shown(&self.shared_proxy_trusted_sources),
            ingress_default_backend,
            access_log: self.shared_proxy_access_log,
            access_log_path_mode: self.shared_proxy_access_log_path_mode.as_flag_value().to_owned(),
            pod_template: opt_copy(&self.shared_proxy_pod_template),
        }
    }
}

/// The flags of every role that settings come from.
pub struct CommonArgs {
    /// The controller name that is claimed.
    pub controller_name: String,
    /// Name of this pod.
    pub pod_name: String,
    /// Namespace of this pod.
    pub pod_namespace: String,
    /// The namespaces that are watched; all where there is none.
    pub watch_namespace: Option<String>,
    /// Port for Ingress traffic over HTTP.
    pub ingress_http_port: Option<u16>,
    /// Port for Ingress traffic over HTTPS.
    pub ingress_https_port: Option<u16>,
}

/// Why the flags make no configuration.
#[derive(Debug, Clone, PartialEq, Eq)]
pub enum SettingsError {
    /// One of the listed namespaces has no name.
    UnnamedNamespace,
    /// The configuration is not valid.
    Config(ControllerConfigError),
}

/// One of the listed namespaces has no name.
pub open spec fn leaves_unnamed(list: Option<String>) -> bool {
    list is Some && has_empty(split_at_char(list->0@, ','))
}

/// The controller's configuration. Each shared Gateway has an address of its own where the labels
/// of the shared proxy pods are known. The list of namespaces is looked at first.
pub fn build_controller_config(common: CommonArgs, controller: ControllerArgs) -> (r: Result<
    ControllerConfig,
    SettingsError,
>)
    requires
        controller.valid(),
    ensures
        ({
            let lease = LeaseSettings {
                ttl: controller.controller_lease_ttl,
                renew_interval: controller.controller_lease_renew_interval,
            };
            match r {
                Err(SettingsError::UnnamedNamespace) => leaves_unnamed(common.watch_namespace),
                Err(SettingsError::Config(ControllerConfigError::LeaseRatioTooFast { ttl, renew }))
                => {
                    &&& !leaves_unnamed(common.watch_namespace)
                    &&& lease.ttl.nanos < lease.renew_interval.nanos * 3
                    &&& ttl == lease.ttl
                    &&& renew == lease.renew_interval
                },
                Err(SettingsError::Config(ControllerConfigError::EmptyStatusAddress)) => {
                    &&& !leaves_unnamed(common.watch_namespace)
                    &&& lease.ttl.nanos >= lease.renew_interval.nanos * 3
                    &&& controller.status_address is Some
                    &&& crate::config::blank(controller.status_address->0)
                },
                Ok(c) => {
                    &&& !leaves_unnamed(common.watch_namespace)
                    &&& lease.ttl.nanos >= lease.renew_interval.nanos * 3
                    &&& match controller.status_address {
                        Some(t) => c.status_address is Some && !crate::config::blank(t)
                            && crate::config::reads_as(t, c.status_address->0),
                        None => c.status_address is None,
                    }
                    &&& c.controller_name@ == common.controller_name@
                    &&& c.pod_name@ == common.pod_name@
                    &&& c.pod_namespace@ == common.pod_namespace@
                    &&& c.lease == lease
                    &&& opt_text(c.watch_namespace) == opt_text(common.watch_namespace)
                    &&& c.ingress_ports == (IngressPorts {
                        http: common.ingress_http_port,
                        https: common.ingress_https_port,
                    })
                    &&& c.shared_vip_addressing == (controller.shared_proxy_selector@.dom().len()
                        > 0)
                },
            }
        }),
{
    let lease = LeaseSettings::new(
        controller.controller_lease_ttl,
        controller.controller_lease_renew_interval,
    );
    let addressed = controller.shared_proxy_selector.len() > 0;
    let list: Option<&str> = match &common.watch_namespace {
        Some(s) => Some(s.as_str()),
        None => None,
    };
    if WatchScope::parse(list).is_err() {
        return Err(SettingsError::UnnamedNamespace);
    }
    let config = ControllerConfig::new(
        common.controller_name,
        common.pod_name,
        common.pod_namespace,
        lease,
        common.watch_namespace,
        controller.status_address,
        IngressPorts::new(common.ingress_http_port, common.ingress_https_port),
    );
    match config {
        Ok(c) => Ok(c.with_shared_vip_addressing(addressed)),
        Err(e) => Err(SettingsError::Config(e)),
    }
}

/// Which namespaces are watched.
#[derive(Debug, Clone, PartialEq, Eq)]
pub enum WatchScope {
    /// All of them.
    Cluster,
    /// The ones that are listed.
    Namespaces(Vec<String>),
}

/// One of the listed namespaces has no name.
#[derive(Debug, Clone, Copy, PartialEq, Eq)]
pub struct UnnamedNamespace;

/// Some piece is empty.
pub open spec fn has_empty(pieces: Seq<Seq<char>>) -> bool {
    exists|i: int| 0 <= i < pieces.len() && (#[trigger] pieces[i]).len() == 0
}

impl WatchScope {
    /// Reads a list of namespaces with commas between them. Each must have a name; without a list
    /// all namespaces are watched.
    pub fn parse(list: Option<&str>) -> (r: Result<Self, UnnamedNamespace>)
        ensures
            match list {
                None => r == Ok::<_, UnnamedNamespace>(WatchScope::Cluster),
                Some(s) => match r {
                    Ok(WatchScope::Namespaces(v)) => !has_empty(split_at_char(s@, ',')) && texts(v@)
                        == split_at_char(s@, ','),
                    Ok(WatchScope::Cluster) => false,
                    Err(e) => has_empty(split_at_char(s@, ',')),
                },
            },
    {
        let s = match list {
            None => {
                return Ok(WatchScope::Cluster);
            },
            Some(s) => s,
        };
        let pieces = split(s, ',');
        let ghost all = texts(pieces@);
        let mut i: usize = 0;
        while i < pieces.len()
            invariant
                i <= pieces.len(),
                all == texts(pieces@),
                all == split_at_char(s@, ','),
                list == Some(s),
                forall|j: int| 0 <= j < i ==> (#[trigger] all[j]).len() > 0,
            decreases pieces.len() - i,
        {
            if pieces[i].as_str().is_empty() {
                assert(all[i as int].len() == 0);
                return Err(UnnamedNamespace);
            }
            i = i + 1;
        }
        Ok(WatchScope::Namespaces(pieces))
    }
}

/// What a proxy serves.
#[derive(Debug, PartialEq, Eq)]
pub enum ProxyScope {
    /// Ingress traffic and all Gateways without a pod of their own.
    Shared,
    /// One Gateway.
    Gateway {
        /// Name of the Gateway.
        name: String,
        /// Namespace of the Gateway.
        namespace: String,
    },
}

/// The flags that say what a proxy serves.
pub struct ProxyRoleArgs {
    /// Whether the shared pool is served.
    pub shared: bool,
    /// Name of the one Gateway.
    pub gateway_name: Option<String>,
    /// Namespace of the one Gateway.
    pub gateway_namespace: Option<String>,
}

impl ProxyRoleArgs {
    /// The flags settle what is served.
    pub open spec fn settled(&self) -> bool {
        self.shared || (self.gateway_name is Some && self.gateway_namespace is Some)
    }

    /// What is served.
    pub fn scope(&self) -> (r: ProxyScope)
        requires
            self.settled(),
        ensures
            match r {
                ProxyScope::Shared => self.shared,
                ProxyScope::Gateway { name, namespace } => !self.shared && name@
                    == self.gateway_name->0@ && namespace@ == self.gateway_namespace->0@,
            },
    {
        if self.shared {
            return ProxyScope::Shared;
        }
        match (&self.gateway_name, &self.gateway_namespace) {
            (Some(name), Some(namespace)) => ProxyScope::Gateway {
                name: name.as_str().to_owned(),
                namespace: namespace.as_str().to_owned(),
            },
            _ => ProxyScope::Shared,
        }
    }
}

/// Whom a relay serves.
#[derive(Debug, PartialEq, Eq)]
pub enum RelayScope {
    /// The shared pool.
    Shared,
    /// The proxies of one namespace.
    Namespace {
        /// The namespace.
        namespace: String,
    },
}

/// The flags that say whom a relay serves.
pub struct RelayRoleArgs {
    /// Whether the shared pool is served.
    pub shared: bool,
    /// The one namespace.
    pub namespace: Option<String>,
}

impl RelayScope {
    /// How the scope is logged.
    pub open spec fn shown(&self) -> Seq<char> {
        match self {
            RelayScope::Shared => "shared"@,
            RelayScope::Namespace { namespace } => "namespace/"@ + namespace@,
        }
    }

    /// How the scope is logged.
    pub fn label(&self) -> (r: String)
        ensures
            r@ == self.shown(),
    {
        match self {
            RelayScope::Shared => "shared".to_owned(),
            RelayScope::Namespace { namespace } => cat("namespace/", namespace.as_str()),
        }
    }
}

impl RelayRoleArgs {
    /// The flags settle whom the relay serves.
    pub open spec fn settled(&self) -> bool {
        self.shared || self.namespace is Some
    }

    /// Whom the relay serves.
    pub fn scope(&self) -> (r: RelayScope)
        requires
            self.settled(),
        ensures
            match r {
                RelayScope::Shared => self.shared,
                RelayScope::Namespace { namespace } => !self.shared && namespace@
                    == self.namespace->0@,
            },
    {
        if self.shared {
            return RelayScope::Shared;
        }
        match &self.namespace {
            Some(namespace) => RelayScope::Namespace { namespace: namespace.as_str().to_owned() },
            None => RelayScope::Shared,
        }
    }
}

/// The role of a pod, with the flags that settle its scope.
pub enum Role {
    /// Writes status.
    Controller,
    /// Serves traffic.
    Proxy(ProxyRoleArgs),
    /// Passes routing on to proxies.
    Relay(RelayRoleArgs),
}

/// What a pod is to run.
pub enum Runner {
    /// The status writer.
    Controller,
    /// A proxy.
    Proxy(ProxyScope),
    /// A relay.
    Relay(RelayScope),
}

/// What a start without a role is answered with.
pub const MISSING_ROLE: &'static str =
    "missing role: pick one of `controller`, `proxy --shared`, `proxy --dedicated`, `relay --shared`, or `relay --namespace <NS>`";

/// The role's scope is settled by its flags.
pub open spec fn role_settled(role: Role) -> bool {
    match role {
        Role::Controller => true,
        Role::Proxy(args) => args.settled(),
        Role::Relay(args) => args.settled(),
    }
}

/// `runner` is what a pod of this role runs.
pub open spec fn runs(role: Role, runner: Runner) -> bool {
    match (role, runner) {
        (Role::Controller, Runner::Controller) => true,
        (Role::Proxy(args), Runner::Proxy(ProxyScope::Shared)) => args.shared,
        (Role::Proxy(args), Runner::Proxy(ProxyScope::Gateway { name, namespace })) => !args.shared
            && name@ == args.gateway_name->0@ && namespace@ == args.gateway_namespace->0@,
        (Role::Relay(args), Runner::Relay(RelayScope::Shared)) => args.shared,
        (Role::Relay(args), Runner::Relay(RelayScope::Namespace { namespace })) => !args.shared
            && namespace@ == args.namespace->0@,
        _ => false,
    }
}

/// What the pod is to run; a role must be given.
pub fn pick_runner(role: Option<Role>) -> (r: Result<Runner, &'static str>)
    requires
        role is Some ==> role_settled(role->0),
    ensures
        match r {
            Ok(runner) => role is Some && runs(role->0, runner),
            Err(e) => role is None && e@ == MISSING_ROLE@,
        },
{
    match role {
        None => Err(MISSING_ROLE),
        Some(Role::Controller) => Ok(Runner::Controller),
        Some(Role::Proxy(args)) => Ok(Runner::Proxy(args.scope())),
        Some(Role::Relay(args)) => Ok(Runner::Relay(args.scope())),
    }
}

/// The image that dedicated proxies run where nothing else says so: the controller's own, or
/// without one the published image of this version.
pub fn resolve_controller_image(configured: Option<String>, version: &str) -> (r: String)
    ensures
        r@ == match configured {
            Some(image) => image@,
            None => "ghcr.io/coxswain-labs/coxswain:"@ + version@,
        },
{
    match configured {
        Some(image) => image,
        None => cat("ghcr.io/coxswain-labs/coxswain:", version),
    }
}

} // verus!
