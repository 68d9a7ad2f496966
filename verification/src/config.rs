//! Validated configuration of the leader-elected controller.

use vstd::prelude::*;

use crate::text::{cat, is_trim, opt_text, trim};

verus! {

/// The longest period, in nanoseconds.
pub const MAX_PERIOD: u128 = 18_446_744_073_709_551_615_999_999_999;

/// Nanoseconds in a second.
pub const SECOND: u128 = 1_000_000_000;

/// A length of time, in nanoseconds.
#[derive(Debug, Clone, Copy, PartialEq, Eq, Structural)]
pub struct Period {
    /// Nanoseconds.
    pub nanos: u128,
}

impl Period {
    /// Whether the length is one that a clock can measure.
    pub open spec fn valid(self) -> bool {
        self.nanos <= MAX_PERIOD
    }

    /// A number of whole seconds.
    pub fn from_secs(secs: u64) -> (r: Self)
        ensures
            r.nanos == secs * SECOND,
            r.valid(),
    {
        Period { nanos: secs as u128 * SECOND }
    }

    /// A number of whole milliseconds.
    pub fn from_millis(millis: u64) -> (r: Self)
        ensures
            r.nanos == millis * 1_000_000,
            r.valid(),
    {
        Period { nanos: millis as u128 * 1_000_000 }
    }

    /// The whole seconds of the period.
    pub fn as_secs(self) -> (r: u64)
        requires
            self.valid(),
        ensures
            r == self.nanos as int / SECOND as int,
    {
        (self.nanos / SECOND) as u64
    }

    /// The part of the period below a second, in nanoseconds.
    pub fn subsec_nanos(self) -> (r: u32)
        ensures
            r == self.nanos as int % SECOND as int,
    {
        (self.nanos % SECOND) as u32
    }
}

/// How a period of `secs` seconds and `nanos` nanoseconds is shown in messages.
pub uninterp spec fn period_debug(secs: u64, nanos: u32) -> Seq<char>;

/// Shows a period through the `Debug` form of `std::time::Duration`; the text is a function of the
/// two numbers and is not described further.
#[verifier::external_body]
fn debug_duration(secs: u64, nanos: u32) -> (r: String)
    requires
        nanos < 1_000_000_000,
    ensures
        r@ == period_debug(secs, nanos),
{
    format!("{:?}", std::time::Duration::new(secs, nanos))
}

/// How a period is shown in messages.
pub open spec fn shown(p: Period) -> Seq<char> {
    period_debug((p.nanos as int / SECOND as int) as u64, (p.nanos as int % SECOND as int) as u32)
}

/// How a period is shown in messages.
pub fn show(p: Period) -> (r: String)
    requires
        p.valid(),
    ensures
        r@ == shown(p),
{
    debug_duration(p.as_secs(), p.subsec_nanos())
}

/// The external address written to the status of Ingresses and Gateways.
#[derive(Debug, Clone, PartialEq, Eq)]
pub enum StatusAddress {
    /// An IP address, in its canonical notation.
    Ip(String),
    /// A DNS name.
    Hostname(String),
}

impl StatusAddress {
    /// The type tag of the address in a Gateway's status.
    pub open spec fn tag(self) -> Seq<char> {
        match self {
            StatusAddress::Ip(_) => "IPAddress"@,
            StatusAddress::Hostname(_) => "Hostname"@,
        }
    }

    /// The address itself.
    pub open spec fn value(self) -> Seq<char> {
        match self {
            StatusAddress::Ip(s) => s@,
            StatusAddress::Hostname(s) => s@,
        }
    }

    /// The type tag of the address in a Gateway's status.
    pub fn type_tag(&self) -> (r: &'static str)
        ensures
            r@ == self.tag(),
    {
        match self {
            StatusAddress::Ip(_) => "IPAddress",
            StatusAddress::Hostname(_) => "Hostname",
        }
    }

    /// The address itself.
    pub fn text(&self) -> (r: &str)
        ensures
            r@ == self.value(),
    {
        match self {
            StatusAddress::Ip(s) => s.as_str(),
            StatusAddress::Hostname(s) => s.as_str(),
        }
    }

    /// A copy of the address.
    pub fn copy(&self) -> (r: Self)
        ensures
            r is Ip <==> self is Ip,
            r.value() == self.value(),
    {
        match self {
            StatusAddress::Ip(s) => StatusAddress::Ip(s.clone()),
            StatusAddress::Hostname(s) => StatusAddress::Hostname(s.clone()),
        }
    }
}

/// Text in the place of an address, together with how it reads as an IP address.
#[derive(Debug, Clone, Default, PartialEq, Eq)]
pub struct AddressText {
    /// The text.
    pub raw: String,
    /// The canonical notation, where the text without surrounding white space is an IP address.
    pub ip: Option<String>,
}

/// The ports that serve Ingress traffic.
#[derive(Debug, Clone, Copy, PartialEq, Eq)]
pub struct IngressPorts {
    /// Port for plain HTTP.
    pub http: Option<u16>,
    /// Port for HTTPS.
    pub https: Option<u16>,
}

impl IngressPorts {
    /// The two ports.
    pub fn new(http: Option<u16>, https: Option<u16>) -> (r: Self)
        ensures
            r.http == http,
            r.https == https,
    {
        IngressPorts { http, https }
    }
}

/// How long a leader lease lasts and how often it is renewed.
#[derive(Debug, Clone, Copy, PartialEq, Eq)]
pub struct LeaseSettings {
    /// How long the lease stays valid without renewal.
    pub ttl: Period,
    /// How often the active leader renews its lease.
    pub renew_interval: Period,
}

impl LeaseSettings {
    /// The two periods; whether they fit together is for `ControllerConfig::new` to say.
    pub fn new(ttl: Period, renew_interval: Period) -> (r: Self)
        ensures
            r.ttl == ttl,
            r.renew_interval == renew_interval,
    {
        LeaseSettings { ttl, renew_interval }
    }

    /// Both periods are ones a clock can measure, and so is three times the renewal interval.
    pub open spec fn valid(self) -> bool {
        self.ttl.valid() && self.renew_interval.nanos * 3 <= MAX_PERIOD
    }
}

/// Why a configuration is refused.
#[derive(Debug, Clone, PartialEq, Eq)]
pub enum ControllerConfigError {
    /// The lease is renewed too slowly for its lifetime.
    LeaseRatioTooFast {
        /// The lifetime of the lease.
        ttl: Period,
        /// The renewal interval.
        renew: Period,
    },
    /// A status address was given that holds nothing but white space.
    EmptyStatusAddress,
}

impl ControllerConfigError {
    /// The periods in the error are ones a clock can measure.
    pub open spec fn valid(&self) -> bool {
        match self {
            ControllerConfigError::LeaseRatioTooFast { ttl, renew } => ttl.valid()
                && renew.valid(),
            ControllerConfigError::EmptyStatusAddress => true,
        }
    }

    /// The text of the error.
    pub open spec fn text(&self) -> Seq<char> {
        match self {
            ControllerConfigError::LeaseRatioTooFast { ttl, renew } => "lease.renew_interval ("@
                + shown(*renew) + ") must be at most 1/3 of lease.ttl ("@ + shown(*ttl) + ")"@,
            ControllerConfigError::EmptyStatusAddress => "status_address must not be empty"@,
        }
    }

    /// The text of the error.
    pub fn message(&self) -> (r: String)
        requires
            self.valid(),
        ensures
            r@ == self.text(),
    {
        match self {
            ControllerConfigError::LeaseRatioTooFast { ttl, renew } => {
                let mut s = cat("lease.renew_interval (", show(*renew).as_str());
                s.append(") must be at most 1/3 of lease.ttl (");
                s.append(show(*ttl).as_str());
                s.append(")");
                s
            },
            ControllerConfigError::EmptyStatusAddress => {
                "status_address must not be empty".to_owned()
            },
        }
    }
}

/// `addr` is what the text stands for: an IP address where it reads as one, else the trimmed text
/// as a host name.
pub open spec fn reads_as(t: AddressText, addr: StatusAddress) -> bool {
    match t.ip {
        Some(ip) => addr is Ip && addr.value() == ip@,
        None => addr is Hostname && is_trim(t.raw@, addr.value()),
    }
}

/// The text is nothing but white space.
pub open spec fn blank(t: AddressText) -> bool {
    is_trim(t.raw@, Seq::empty())
}

/// Reads a status address; `None` where the text is nothing but white space.
pub fn read_status_address(t: AddressText) -> (r: Option<StatusAddress>)
    ensures
        match r {
            Some(a) => !blank(t) && reads_as(t, a),
            None => blank(t),
        },
{
    let s = trim(t.raw.as_str()).to_owned();
    let empty = s.as_str().is_empty();
    proof {
        assert(is_trim(t.raw@, s@));
        if empty {
            assert(s@ =~= Seq::<char>::empty());
        } else if blank(t) {
            crate::text::trim_is_unique(t.raw@, s@, Seq::empty());
        }
    }
    if empty {
        return None;
    }
    match t.ip {
        Some(ip) => Some(StatusAddress::Ip(ip)),
        None => Some(StatusAddress::Hostname(s)),
    }
}

/// Configuration of the controller.
#[derive(Debug, Clone, PartialEq, Eq)]
pub struct ControllerConfig {
    /// `GatewayClass.spec.controllerName` that this instance claims.
    pub controller_name: String,
    /// Pod name, the identity of the lease holder.
    pub pod_name: String,
    /// Namespace of the leader lease.
    pub pod_namespace: String,
    /// Lifetime and renewal of the lease.
    pub lease: LeaseSettings,
    /// The namespace that watches are limited to; the whole cluster where there is none.
    pub watch_namespace: Option<String>,
    /// The address written to the status of owned Ingresses and Gateways.
    pub status_address: Option<StatusAddress>,
    /// Ports reserved for Ingress traffic.
    pub ingress_ports: IngressPorts,
    /// Whether each shared Gateway has an address of its own.
    pub shared_vip_addressing: bool,
}

impl ControllerConfig {
    /// Check the settings and put them together.
    ///
    /// The renewal interval may be at most a third of the lease's lifetime; that is looked at
    /// first. A status address, where one is given, must hold more than white space.
    pub fn new(
        controller_name: String,
        pod_name: String,
        pod_namespace: String,
        lease: LeaseSettings,
        watch_namespace: Option<String>,
        status_address: Option<AddressText>,
        ingress_ports: IngressPorts,
    ) -> (r: Result<Self, ControllerConfigError>)
        requires
            lease.valid(),
        ensures
            match r {
                Err(ControllerConfigError::LeaseRatioTooFast { ttl, renew }) => {
                    &&& lease.renew_interval.nanos * 3 > lease.ttl.nanos
                    &&& ttl == lease.ttl
                    &&& renew == lease.renew_interval
                },
                Err(ControllerConfigError::EmptyStatusAddress) => {
                    &&& lease.renew_interval.nanos * 3 <= lease.ttl.nanos
                    &&& status_address is Some
                    &&& blank(status_address->0)
                },
                Ok(c) => {
                    &&& lease.renew_interval.nanos * 3 <= lease.ttl.nanos
                    &&& c.controller_name@ == controller_name@
                    &&& c.pod_name@ == pod_name@
                    &&& c.pod_namespace@ == pod_namespace@
                    &&& c.lease == lease
                    &&& opt_text(c.watch_namespace) == opt_text(watch_namespace)
                    &&& c.ingress_ports == ingress_ports
                    &&& !c.shared_vip_addressing
                    &&& match status_address {
                        Some(t) => !blank(t) && c.status_address is Some && reads_as(
                            t,
                            c.status_address->0,
                        ),
                        None => c.status_address is None,
                    }
                },
            },
    {
        if lease.renew_interval.nanos * 3 > lease.ttl.nanos {
            return Err(
                ControllerConfigError::LeaseRatioTooFast {
                    ttl: lease.ttl,
                    renew: lease.renew_interval,
                },
            );
        }
        let address = match status_address {
            Some(t) => match read_status_address(t) {
                Some(a) => Some(a),
                None => {
                    return Err(ControllerConfigError::EmptyStatusAddress);
                },
            },
            None => None,
        };
        Ok(
            ControllerConfig {
                controller_name,
                pod_name,
                pod_namespace,
                lease,
                watch_namespace,
                status_address: address,
                ingress_ports,
                shared_vip_addressing: false,
            },
        )
    }

    /// The same configuration with addressing per shared Gateway switched on or off.
    pub fn with_shared_vip_addressing(self, enabled: bool) -> (r: Self)
        ensures
            r == (ControllerConfig { shared_vip_addressing: enabled, ..self }),
    {
        let mut c = self;
        c.shared_vip_addressing = enabled;
        c
    }
}

} // verus!
