//! Which TLS settings a backend Service gets from the policies that target it.

use std::collections::hash_map::DefaultHasher;
use std::hash::Hasher;

use vstd::bytes::u64_to_le_bytes;
use vstd::prelude::*;
use vstd::slice::slice_to_vec;
use vstd::std_specs::hash::DefaultHasherAdditionalSpecFns;
use vstd::utf8::encode_utf8;

use crate::conditions::opt_slice;
use crate::policy_status::AncestorStatus;
use crate::resources::{ObjectKey, ObjectMeta};
use crate::table::{Same, Table};
use crate::text::{cat, contains_bytes, contains_text, occurs, opt_eq, opt_text, str_eq};

verus! {

/// How the one target of a `BackendTLSPolicy` resolved.
#[derive(Clone, Debug)]
pub struct PolicyHealthOutcome {
    /// Whether the policy is accepted.
    pub accepted: bool,
    /// Why.
    pub accepted_reason: &'static str,
    /// In words.
    pub accepted_message: String,
    /// Whether its references resolve.
    pub resolved_refs: bool,
    /// Why.
    pub resolved_refs_reason: &'static str,
    /// In words.
    pub resolved_refs_message: String,
}

/// What an outcome holds.
#[verifier::ext_equal]
pub struct HealthView {
    /// Whether the policy is accepted.
    pub accepted: bool,
    /// Why.
    pub accepted_reason: Seq<char>,
    /// In words.
    pub accepted_message: Seq<char>,
    /// Whether its references resolve.
    pub resolved_refs: bool,
    /// Why.
    pub resolved_refs_reason: Seq<char>,
    /// In words.
    pub resolved_refs_message: Seq<char>,
}

impl View for PolicyHealthOutcome {
    type V = HealthView;

    open spec fn view(&self) -> HealthView {
        HealthView {
            accepted: self.accepted,
            accepted_reason: self.accepted_reason@,
            accepted_message: self.accepted_message@,
            resolved_refs: self.resolved_refs,
            resolved_refs_reason: self.resolved_refs_reason@,
            resolved_refs_message: self.resolved_refs_message@,
        }
    }
}

/// An outcome that has nothing to say against the references.
pub open spec fn refs_fine(accepted: bool, reason: Seq<char>, message: Seq<char>) -> HealthView {
    HealthView {
        accepted,
        accepted_reason: reason,
        accepted_message: message,
        resolved_refs: true,
        resolved_refs_reason: "ResolvedRefs"@,
        resolved_refs_message: ""@,
    }
}

/// An outcome in which no CA reference is usable.
pub open spec fn no_valid_ca(reason: Seq<char>, message: Seq<char>) -> HealthView {
    HealthView {
        accepted: false,
        accepted_reason: "NoValidCACertificate"@,
        accepted_message: "All caCertificateRefs are invalid"@,
        resolved_refs: false,
        resolved_refs_reason: reason,
        resolved_refs_message: message,
    }
}

/// The outcome of an invalid policy.
pub open spec fn bad_policy(message: Seq<char>) -> HealthView {
    refs_fine(false, "Invalid"@, message)
}

/// The outcome of a reference to a CA that cannot be used.
pub open spec fn bad_ref(ref_name: Seq<char>, cause: Seq<char>) -> HealthView {
    no_valid_ca("InvalidCACertificateRef"@, ref_name + ": "@ + cause)
}

/// The outcome of a reference to something that is not a `ConfigMap`.
pub open spec fn bad_kind(ref_name: Seq<char>) -> HealthView {
    no_valid_ca(
        "InvalidKind"@,
        ref_name + ": only ConfigMap (group \"\") is supported for caCertificateRefs"@,
    )
}

impl PolicyHealthOutcome {
    /// The policy is in force.
    pub fn accepted(message: &str) -> (r: Self)
        ensures
            r@ == refs_fine(true, "Accepted"@, message@),
    {
        PolicyHealthOutcome {
            accepted: true,
            accepted_reason: "Accepted",
            accepted_message: message.to_owned(),
            resolved_refs: true,
            resolved_refs_reason: "ResolvedRefs",
            resolved_refs_message: "".to_owned(),
        }
    }

    /// A policy with higher precedence has the same target.
    pub fn conflicted(message: &str) -> (r: Self)
        ensures
            r@ == refs_fine(false, "Conflicted"@, message@),
    {
        PolicyHealthOutcome {
            accepted: false,
            accepted_reason: "Conflicted",
            accepted_message: message.to_owned(),
            resolved_refs: true,
            resolved_refs_reason: "ResolvedRefs",
            resolved_refs_message: "".to_owned(),
        }
    }

    /// The policy itself is at fault.
    pub fn invalid(message: &str) -> (r: Self)
        ensures
            r@ == bad_policy(message@),
    {
        PolicyHealthOutcome {
            accepted: false,
            accepted_reason: "Invalid",
            accepted_message: message.to_owned(),
            resolved_refs: true,
            resolved_refs_reason: "ResolvedRefs",
            resolved_refs_message: "".to_owned(),
        }
    }

    /// A referenced CA cannot be used.
    pub fn invalid_ca_cert_ref(ref_name: &str, cause: &str) -> (r: Self)
        ensures
            r@ == bad_ref(ref_name@, cause@),
    {
        PolicyHealthOutcome {
            accepted: false,
            accepted_reason: "NoValidCACertificate",
            accepted_message: "All caCertificateRefs are invalid".to_owned(),
            resolved_refs: false,
            resolved_refs_reason: "InvalidCACertificateRef",
            resolved_refs_message: cat(cat(ref_name, ": ").as_str(), cause),
        }
    }

    /// A CA reference does not name a `ConfigMap`.
    pub fn invalid_kind(ref_name: &str) -> (r: Self)
        ensures
            r@ == bad_kind(ref_name@),
    {
        PolicyHealthOutcome {
            accepted: false,
            accepted_reason: "NoValidCACertificate",
            accepted_message: "All caCertificateRefs are invalid".to_owned(),
            resolved_refs: false,
            resolved_refs_reason: "InvalidKind",
            resolved_refs_message: cat(
                ref_name,
                ": only ConfigMap (group \"\") is supported for caCertificateRefs",
            ),
        }
    }
}

/// The key of one `BackendTLSPolicy`.
#[derive(Clone, Debug, PartialEq, Eq, Hash)]
pub struct PolicyKey {
    /// Namespace.
    pub ns: String,
    /// Name.
    pub name: String,
}

impl View for PolicyKey {
    type V = (Seq<char>, Seq<char>);

    open spec fn view(&self) -> (Seq<char>, Seq<char>) {
        (self.ns@, self.name@)
    }
}

impl Same for PolicyKey {
    fn same(&self, other: &Self) -> (r: bool) {
        str_eq(self.ns.as_str(), other.ns.as_str()) && str_eq(
            self.name.as_str(),
            other.name.as_str(),
        )
    }
}

/// The key of what a policy targets: a Service, or one named port of it.
#[derive(Clone, Debug, PartialEq, Eq, Hash)]
pub struct ServicePortKey {
    /// Namespace.
    pub ns: String,
    /// Name of the Service.
    pub svc: String,
    /// Name of the port; `None` where the whole Service is targeted.
    pub port_name: Option<String>,
}

impl View for ServicePortKey {
    type V = (Seq<char>, Seq<char>, Option<Seq<char>>);

    open spec fn view(&self) -> (Seq<char>, Seq<char>, Option<Seq<char>>) {
        (self.ns@, self.svc@, opt_text(self.port_name))
    }
}

impl Same for ServicePortKey {
    fn same(&self, other: &Self) -> (r: bool) {
        str_eq(self.ns.as_str(), other.ns.as_str()) && str_eq(
            self.svc.as_str(),
            other.svc.as_str(),
        ) && opt_eq(&self.port_name, &other.port_name)
    }
}

/// The Service that a policy is attached to.
#[derive(Clone, Debug)]
pub struct PolicyServiceTarget {
    /// Namespace of the Service, which is that of the policy.
    pub ns: String,
    /// Name of the Service.
    pub svc: String,
}

impl View for PolicyServiceTarget {
    type V = (Seq<char>, Seq<char>);

    open spec fn view(&self) -> (Seq<char>, Seq<char>) {
        (self.ns@, self.svc@)
    }
}

/// Where the CA certificates come from.
#[derive(Clone, Debug, PartialEq, Eq)]
pub enum BackendCaSource {
    /// The bundle of the platform.
    System,
    /// These certificates, in PEM.
    Pem(Vec<u8>),
}

/// What a CA source holds.
pub enum CaView {
    /// The bundle of the platform.
    System,
    /// These certificates, in PEM.
    Pem(Seq<u8>),
}

impl View for BackendCaSource {
    type V = CaView;

    open spec fn view(&self) -> CaView {
        match self {
            BackendCaSource::System => CaView::System,
            BackendCaSource::Pem(b) => CaView::Pem(b@),
        }
    }
}

/// The TLS settings towards a backend.
#[derive(Clone, Debug, PartialEq, Eq)]
pub struct BackendTlsConfig {
    /// The server name to ask for and to check.
    pub sni: String,
    /// Where the CA certificates come from.
    pub ca: BackendCaSource,
    /// Connections with equal keys can be pooled together.
    pub group_key: u64,
}

/// What TLS settings hold.
pub struct TlsConfigView {
    /// The server name to ask for and to check.
    pub sni: Seq<char>,
    /// Where the CA certificates come from.
    pub ca: CaView,
    /// Connections with equal keys can be pooled together.
    pub group_key: u64,
}

impl View for BackendTlsConfig {
    type V = TlsConfigView;

    open spec fn view(&self) -> TlsConfigView {
        TlsConfigView { sni: self.sni@, ca: self.ca@, group_key: self.group_key }
    }
}

/// What is hashed for a server name and a CA source: the name with a closing byte, a tag, and for
/// given certificates their length and bytes.
pub open spec fn hashed(sni: Seq<char>, ca: CaView) -> Seq<Seq<u8>> {
    let head = Seq::empty().push(encode_utf8(sni)).push(seq![0xffu8]);
    match ca {
        CaView::System => head.push(seq![0u8]),
        CaView::Pem(b) => head.push(seq![1u8]).push(
            vstd::bytes::spec_u64_to_le_bytes(b.len() as u64),
        ).push(b),
    }
}

/// The key under which connections are pooled.
pub open spec fn pool_key(sni: Seq<char>, ca: CaView) -> u64 {
    DefaultHasher::spec_finish(hashed(sni, ca))
}

/// The key under which connections are pooled.
pub fn stable_hash(sni: &str, ca: &BackendCaSource) -> (r: u64)
    ensures
        r == pool_key(sni@, ca@),
{
    let mut h = DefaultHasher::new();
    h.write(sni.as_bytes());
    h.write(&[0xffu8]);
    match ca {
        BackendCaSource::System => {
            h.write(&[0u8]);
            assert(h@ =~~= hashed(sni@, ca@));
        },
        BackendCaSource::Pem(bytes) => {
            h.write(&[1u8]);
            h.write(u64_to_le_bytes(bytes.len() as u64).as_slice());
            h.write(bytes.as_slice());
            assert(h@ =~~= hashed(sni@, ca@));
        },
    }
    h.finish()
}

/// A reference of a policy to a CA.
#[derive(Clone, Debug, Default, PartialEq, Eq)]
pub struct CaCertificateRef {
    /// API group.
    pub group: String,
    /// Kind.
    pub kind: String,
    /// Name.
    pub name: String,
}

/// A reference of a policy to what it targets.
#[derive(Clone, Debug, Default, PartialEq, Eq)]
pub struct PolicyTargetRef {
    /// API group.
    pub group: String,
    /// Kind.
    pub kind: String,
    /// Name.
    pub name: String,
    /// A part of it.
    pub section_name: Option<String>,
}

/// A `BackendTLSPolicy`.
#[derive(Clone, Debug, Default, PartialEq, Eq)]
pub struct BackendTlsPolicy {
    /// Metadata.
    pub metadata: ObjectMeta,
    /// `metadata.creationTimestamp`, in nanoseconds since the epoch.
    pub created: Option<i128>,
    /// `spec.targetRefs`.
    pub target_refs: Vec<PolicyTargetRef>,
    /// `spec.validation.caCertificateRefs`.
    pub ca_certificate_refs: Option<Vec<CaCertificateRef>>,
    /// `spec.validation.wellKnownCACertificates`.
    pub well_known_ca_certificates: Option<String>,
    /// `spec.validation.hostname`.
    pub hostname: String,
    /// `status.ancestors`, where there is a status.
    pub ancestors: Option<Vec<AncestorStatus>>,
}

/// A `ConfigMap`.
pub struct ConfigMap {
    /// `data`.
    pub data: Option<Table<String, String>>,
    /// `binaryData`, decoded.
    pub binary_data: Option<Table<String, Vec<u8>>>,
}

/// The bytes that a CA reference leads to, or what is wrong with it.
pub open spec fn ca_bytes(
    r: CaCertificateRef,
    ns: Seq<char>,
    configmaps: Map<(Seq<char>, Seq<char>), ConfigMap>,
) -> Result<Seq<u8>, HealthView> {
    let key = (ns, r.name@);
    let cm = configmaps[key];
    if r.kind@ != "ConfigMap"@ || (r.group@.len() > 0 && r.group@ != "core"@) {
        Err(bad_kind(r.name@))
    } else if !configmaps.contains_key(key) {
        Err(bad_ref(r.name@, "ConfigMap not found"@))
    } else if cm.data is Some && cm.data->0@.contains_key("ca.crt"@) {
        let pem = cm.data->0@["ca.crt"@]@;
        if occurs(pem, "-----BEGIN"@) {
            Ok(encode_utf8(pem))
        } else {
            Err(
                bad_ref(
                    r.name@,
                    "ca.crt does not appear to be a valid PEM certificate bundle"@,
                ),
            )
        }
    } else if cm.binary_data is Some && cm.binary_data->0@.contains_key("ca.crt"@) {
        let pem = cm.binary_data->0@["ca.crt"@]@;
        if occurs(pem, encode_utf8("-----BEGIN "@)) {
            Ok(pem)
        } else {
            Err(
                bad_ref(
                    r.name@,
                    "ca.crt (binaryData) does not appear to be a valid PEM certificate bundle"@,
                ),
            )
        }
    } else {
        Err(
            bad_ref(
                r.name@,
                "ConfigMap missing required key 'ca.crt' in data or binaryData"@,
            ),
        )
    }
}

fn read_ca(r: &CaCertificateRef, ns: &str, configmaps: &Table<ObjectKey, ConfigMap>) -> (out:
    Result<Vec<u8>, PolicyHealthOutcome>)
    ensures
        match out {
            Ok(b) => ca_bytes(*r, ns@, configmaps@) == Ok::<Seq<u8>, HealthView>(b@),
            Err(h) => ca_bytes(*r, ns@, configmaps@) == Err::<Seq<u8>, HealthView>(h@),
        },
{
    let name = r.name.as_str();
    if !str_eq(r.kind.as_str(), "ConfigMap") || (!r.group.as_str().is_empty() && !str_eq(
        r.group.as_str(),
        "core",
    )) {
        return Err(PolicyHealthOutcome::invalid_kind(name));
    }
    let cm: &ConfigMap = match configmaps.get(&ObjectKey::new(ns, name)) {
        Some(cm) => cm,
        None => {
            return Err(PolicyHealthOutcome::invalid_ca_cert_ref(name, "ConfigMap not found"));
        },
    };
    let key = "ca.crt".to_owned();
    if let Some(data) = &cm.data {
        if let Some(pem) = data.get(&key) {
            if !contains_text(pem.as_str(), "-----BEGIN") {
                return Err(
                    PolicyHealthOutcome::invalid_ca_cert_ref(
                        name,
                        "ca.crt does not appear to be a valid PEM certificate bundle",
                    ),
                );
            }
            return Ok(slice_to_vec(pem.as_str().as_bytes()));
        }
    }
    if let Some(bin) = &cm.binary_data {
        if let Some(pem) = bin.get(&key) {
            let begin: Vec<u8> = slice_to_vec("-----BEGIN ".as_bytes());
            if !contains_bytes(pem, &begin) {
                return Err(
                    PolicyHealthOutcome::invalid_ca_cert_ref(
                        name,
                        "ca.crt (binaryData) does not appear to be a valid PEM certificate bundle",
                    ),
                );
            }
            return Ok(slice_to_vec(pem.as_slice()));
        }
    }
    Err(
        PolicyHealthOutcome::invalid_ca_cert_ref(
            name,
            "ConfigMap missing required key 'ca.crt' in data or binaryData",
        ),
    )
}

/// The bytes with a line end at their end.
pub open spec fn ended(s: Seq<u8>) -> Seq<u8> {
    if s.len() > 0 && s.last() == 10u8 {
        s
    } else {
        s.push(10u8)
    }
}

/// The bytes of all CA references, one after the other, each ended by a line end; or what is wrong
/// with the first reference that is not usable.
pub open spec fn ca_bundle(
    refs: Seq<CaCertificateRef>,
    ns: Seq<char>,
    configmaps: Map<(Seq<char>, Seq<char>), ConfigMap>,
) -> Result<Seq<u8>, HealthView>
    decreases refs.len(),
{
    if refs.len() == 0 {
        Ok(Seq::empty())
    } else {
        match ca_bundle(refs.drop_last(), ns, configmaps) {
            Err(h) => Err(h),
            Ok(head) => match ca_bytes(refs.last(), ns, configmaps) {
                Err(h) => Err(h),
                Ok(b) => Ok(ended(head + b)),
            },
        }
    }
}

proof fn lemma_bad_prefix(
    refs: Seq<CaCertificateRef>,
    n: int,
    ns: Seq<char>,
    configmaps: Map<(Seq<char>, Seq<char>), ConfigMap>,
)
    requires
        0 <= n <= refs.len(),
        ca_bundle(refs.take(n), ns, configmaps) is Err,
    ensures
        ca_bundle(refs, ns, configmaps) == ca_bundle(refs.take(n), ns, configmaps),
    decreases refs.len(),
{
    if n == refs.len() {
        assert(refs.take(n) =~= refs);
    } else {
        assert(refs.drop_last().take(n) =~= refs.take(n));
        lemma_bad_prefix(refs.drop_last(), n, ns, configmaps);
    }
}

fn read_bundle(
    refs: &Vec<CaCertificateRef>,
    ns: &str,
    configmaps: &Table<ObjectKey, ConfigMap>,
) -> (out: Result<Vec<u8>, PolicyHealthOutcome>)
    ensures
        match out {
            Ok(b) => ca_bundle(refs@, ns@, configmaps@) == Ok::<Seq<u8>, HealthView>(b@),
            Err(h) => ca_bundle(refs@, ns@, configmaps@) == Err::<Seq<u8>, HealthView>(h@),
        },
{
    let mut pem: Vec<u8> = Vec::new();
    let mut i: usize = 0;
    assert(refs@.take(0) =~= Seq::<CaCertificateRef>::empty());
    while i < refs.len()
        invariant
            i <= refs.len(),
            ca_bundle(refs@.take(i as int), ns@, configmaps@) == Ok::<Seq<u8>, HealthView>(pem@),
        decreases refs.len() - i,
    {
        let ghost before = pem@;
        proof {
            assert(refs@.take(i + 1).drop_last() =~= refs@.take(i as int));
            assert(refs@.take(i + 1).last() == refs@[i as int]);
        }
        match read_ca(&refs[i], ns, configmaps) {
            Ok(b) => {
                let mut chunk: Vec<u8> = b;
                let ghost bytes = chunk@;
                pem.append(&mut chunk);
                assert(pem@ =~= before + bytes);
                if pem.len() == 0 || pem[pem.len() - 1] != 10u8 {
                    pem.push(10u8);
                }
                assert(pem@ =~= ended(before + bytes));
            },
            Err(h) => {
                proof {
                    lemma_bad_prefix(refs@, i + 1, ns@, configmaps@);
                }
                return Err(h);
            },
        }
        i = i + 1;
    }
    assert(refs@.take(i as int) =~= refs@);
    Ok(pem)
}

/// The list of references that a policy holds; none where it has no list.
pub open spec fn ca_refs_of(refs: Option<Vec<CaCertificateRef>>) -> Seq<CaCertificateRef> {
    match refs {
        Some(v) => v@,
        None => Seq::empty(),
    }
}

/// The settings that a policy asks for, or what is wrong with it.
pub open spec fn tls_config(
    ns: Seq<char>,
    refs: Seq<CaCertificateRef>,
    well_known: Option<Seq<char>>,
    hostname: Seq<char>,
    configmaps: Map<(Seq<char>, Seq<char>), ConfigMap>,
    system_ca_available: bool,
) -> Result<TlsConfigView, HealthView> {
    let named = well_known is Some && well_known->0.len() > 0;
    let with_ca = |ca: CaView|
        TlsConfigView { sni: hostname, ca, group_key: pool_key(hostname, ca) };
    if refs.len() > 0 && named {
        Err(
            bad_policy(
                "exactly one of caCertificateRefs or wellKnownCACertificates must be set, not both"@,
            ),
        )
    } else if refs.len() == 0 && !named {
        Err(bad_policy("one of caCertificateRefs or wellKnownCACertificates must be set"@))
    } else if named {
        if well_known->0 != "System"@ {
            Err(
                bad_policy(
                    "wellKnownCACertificates value '"@ + well_known->0
                        + "' is not recognised; only 'System' is supported"@,
                ),
            )
        } else if !system_ca_available {
            Err(
                bad_policy(
                    "wellKnownCACertificates: System requested but no system CA bundle is available"@,
                ),
            )
        } else {
            Ok(with_ca(CaView::System))
        }
    } else {
        match ca_bundle(refs, ns, configmaps) {
            Err(h) => Err(h),
            Ok(b) => Ok(with_ca(CaView::Pem(b))),
        }
    }
}

/// The settings that a policy asks for, or what is wrong with it.
pub fn build_tls_config(
    policy_ns: &str,
    ca_refs: &Option<Vec<CaCertificateRef>>,
    well_known: Option<&str>,
    hostname: &str,
    configmaps: &Table<ObjectKey, ConfigMap>,
    system_ca_available: bool,
) -> (r: Result<BackendTlsConfig, PolicyHealthOutcome>)
    ensures
        ({
            let want = tls_config(
                policy_ns@,
                ca_refs_of(*ca_refs),
                opt_slice(well_known),
                hostname@,
                configmaps@,
                system_ca_available,
            );
            match r {
                Ok(c) => want == Ok::<TlsConfigView, HealthView>(c@),
                Err(h) => want == Err::<TlsConfigView, HealthView>(h@),
            }
        }),
{
    let empty: Vec<CaCertificateRef> = Vec::new();
    let refs: &Vec<CaCertificateRef> = match ca_refs {
        Some(v) => v,
        None => &empty,
    };
    assert(refs@ =~= ca_refs_of(*ca_refs));
    let ca_refs_non_empty = refs.len() > 0;
    let named: Option<&str> = match well_known {
        Some(s) => if s.is_empty() {
            None
        } else {
            Some(s)
        },
        None => None,
    };
    if ca_refs_non_empty && named.is_some() {
        return Err(
            PolicyHealthOutcome::invalid(
                "exactly one of caCertificateRefs or wellKnownCACertificates must be set, not both",
            ),
        );
    }
    if !ca_refs_non_empty && named.is_none() {
        return Err(
            PolicyHealthOutcome::invalid(
                "one of caCertificateRefs or wellKnownCACertificates must be set",
            ),
        );
    }
    let ca: BackendCaSource = match named {
        Some(s) => {
            if !str_eq(s, "System") {
                let message = cat(
                    cat("wellKnownCACertificates value '", s).as_str(),
                    "' is not recognised; only 'System' is supported",
                );
                return Err(PolicyHealthOutcome::invalid(message.as_str()));
            }
            if !system_ca_available {
                return Err(
                    PolicyHealthOutcome::invalid(
                        "wellKnownCACertificates: System requested but no system CA bundle is available",
                    ),
                );
            }
            BackendCaSource::System
        },
        None => match read_bundle(refs, policy_ns, configmaps) {
            Ok(pem) => BackendCaSource::Pem(pem),
            Err(h) => {
                return Err(h);
            },
        },
    };
    let group_key: u64 = stable_hash(hostname, &ca);
    Ok(BackendTlsConfig { sni: hostname.to_owned(), ca, group_key })
}

} // verus!
