//! The index from backend Services to the TLS settings of the policy that has the say.

use vstd::prelude::*;

use crate::backend_tls::{
    bad_policy, build_tls_config, ca_refs_of, refs_fine, tls_config, BackendTlsConfig,
    BackendTlsPolicy, ConfigMap, HealthView, PolicyHealthOutcome, PolicyKey, PolicyServiceTarget,
    ServicePortKey, TlsConfigView,
};
use crate::conditions::opt_slice;
use crate::resources::{str_or, text_or, ObjectKey};
use crate::table::Table;
use crate::text::{cat, debug_text, is_less, opt_copy, opt_text, str_eq, text_debug, text_less};

verus! {

/// The text by which policies of one age are ordered.
pub open spec fn label(p: BackendTlsPolicy) -> Seq<char> {
    text_or(p.metadata.namespace, ""@) + "/"@ + text_or(p.metadata.name, ""@)
}

/// One creation time is before the other; none at all is before any.
pub open spec fn earlier(a: Option<i128>, b: Option<i128>) -> bool {
    match (a, b) {
        (Some(x), Some(y)) => x < y,
        (None, Some(_)) => true,
        _ => false,
    }
}

/// `a` takes precedence over `b`: it is older, or as old and first in the order of
/// `namespace/name`.
pub open spec fn precedes(a: BackendTlsPolicy, b: BackendTlsPolicy) -> bool {
    earlier(a.created, b.created) || (a.created == b.created && text_less(label(a), label(b)))
}

fn goes_before(a: &BackendTlsPolicy, b: &BackendTlsPolicy) -> (r: bool)
    ensures
        r == precedes(*a, *b),
{
    match (a.created, b.created) {
        (Some(x), Some(y)) if x < y => true,
        (Some(x), Some(y)) if x > y => false,
        (None, Some(_)) => true,
        (Some(_), None) => false,
        _ => {
            let la = cat(
                cat(str_or(&a.metadata.namespace, ""), "/").as_str(),
                str_or(&a.metadata.name, ""),
            );
            let lb = cat(
                cat(str_or(&b.metadata.namespace, ""), "/").as_str(),
                str_or(&b.metadata.name, ""),
            );
            is_less(la.as_str(), lb.as_str())
        },
    }
}

/// Where `p` goes in a list: behind the last policy that it does not precede.
pub open spec fn slot(s: Seq<BackendTlsPolicy>, p: BackendTlsPolicy) -> int
    decreases s.len(),
{
    if s.len() == 0 || !precedes(p, s.last()) {
        s.len() as int
    } else {
        slot(s.drop_last(), p)
    }
}

/// The policies by precedence; those that do not precede each other stay in their order.
pub open spec fn by_precedence(s: Seq<BackendTlsPolicy>) -> Seq<BackendTlsPolicy>
    decreases s.len(),
{
    if s.len() == 0 {
        Seq::empty()
    } else {
        let rest = by_precedence(s.drop_last());
        rest.insert(slot(rest, s.last()), s.last())
    }
}

/// What a list of references points at.
pub open spec fn pointees(v: Seq<&BackendTlsPolicy>) -> Seq<BackendTlsPolicy> {
    Seq::new(v.len(), |i: int| *v[i])
}

fn sort_by_precedence(policies: &Vec<BackendTlsPolicy>) -> (r: Vec<&BackendTlsPolicy>)
    ensures
        pointees(r@) == by_precedence(policies@),
{
    let mut out: Vec<&BackendTlsPolicy> = Vec::new();
    let mut i: usize = 0;
    assert(policies@.take(0) =~= Seq::<BackendTlsPolicy>::empty());
    assert(pointees(out@) =~= Seq::<BackendTlsPolicy>::empty());
    while i < policies.len()
        invariant
            i <= policies.len(),
            pointees(out@) == by_precedence(policies@.take(i as int)),
        decreases policies.len() - i,
    {
        let p = &policies[i];
        let ghost sorted = pointees(out@);
        let mut j: usize = out.len();
        assert(sorted.take(j as int) =~= sorted);
        while j > 0 && goes_before(p, out[j - 1])
            invariant
                j <= out.len(),
                sorted == pointees(out@),
                slot(sorted.take(j as int), *p) == slot(sorted, *p),
            decreases j,
        {
            assert(sorted.take(j as int).drop_last() =~= sorted.take(j - 1));
            assert(sorted.take(j as int).last() == *out@[j - 1]);
            j = j - 1;
        }
        assert(j > 0 ==> sorted.take(j as int).last() == *out@[j - 1]);
        assert(slot(sorted, *p) == j);
        let ghost before = out@;
        out.insert(j, p);
        assert(pointees(out@) =~= sorted.insert(j as int, *p));
        assert(policies@.take(i + 1).drop_last() =~= policies@.take(i as int));
        assert(policies@.take(i + 1).last() == policies@[i as int]);
        i = i + 1;
    }
    assert(policies@.take(i as int) =~= policies@);
    out
}

/// The index from what policies target to the TLS settings of the policy that has the say there,
/// with the outcome of each policy and the Service that each is attached to.
pub struct BackendTlsIndex {
    /// The settings of each target.
    pub by_service: Table<ServicePortKey, BackendTlsConfig>,
    /// The outcome of each policy.
    pub health: Table<PolicyKey, PolicyHealthOutcome>,
    /// The Service that each policy is attached to.
    pub targets: Table<PolicyKey, PolicyServiceTarget>,
}

/// What an index holds.
#[verifier::ext_equal]
pub struct IndexView {
    /// The settings of each target.
    pub claims: Map<(Seq<char>, Seq<char>, Option<Seq<char>>), TlsConfigView>,
    /// The outcome of each policy.
    pub health: Map<(Seq<char>, Seq<char>), HealthView>,
    /// The Service that each policy is attached to.
    pub targets: Map<(Seq<char>, Seq<char>), (Seq<char>, Seq<char>)>,
}

impl View for BackendTlsIndex {
    type V = IndexView;

    open spec fn view(&self) -> IndexView {
        IndexView {
            claims: self.by_service@.map_values(|c: BackendTlsConfig| c@),
            health: self.health@.map_values(|h: PolicyHealthOutcome| h@),
            targets: self.targets@.map_values(|t: PolicyServiceTarget| t@),
        }
    }
}

/// The key of a policy.
pub open spec fn policy_key(p: BackendTlsPolicy) -> (Seq<char>, Seq<char>) {
    (text_or(p.metadata.namespace, "default"@), text_or(p.metadata.name, "unknown"@))
}

/// What the policy targets, or what is wrong with its target.
pub open spec fn target_of(p: BackendTlsPolicy) -> Result<
    (Seq<char>, Seq<char>, Option<Seq<char>>),
    HealthView,
> {
    if p.target_refs@.len() == 0 {
        Err(bad_policy("targetRefs is empty"@))
    } else {
        let t = p.target_refs@[0];
        if t.kind@ != "Service"@ || (t.group@.len() > 0 && t.group@ != "core"@) {
            Err(
                bad_policy(
                    "unsupported targetRef "@ + t.group@ + "/"@ + t.kind@
                        + ": only Service is supported"@,
                ),
            )
        } else {
            Ok((policy_key(p).0, t.name@, opt_text(t.section_name)))
        }
    }
}

/// The settings that the policy asks for, or what is wrong with it.
pub open spec fn config_of(
    p: BackendTlsPolicy,
    configmaps: Map<(Seq<char>, Seq<char>), ConfigMap>,
    system_ca_available: bool,
) -> Result<TlsConfigView, HealthView> {
    tls_config(
        policy_key(p).0,
        ca_refs_of(p.ca_certificate_refs),
        opt_text(p.well_known_ca_certificates),
        p.hostname@,
        configmaps,
        system_ca_available,
    )
}

/// What `{:?}` prints of an optional text.
pub open spec fn opt_debug(s: Option<Seq<char>>) -> Seq<char> {
    match s {
        Some(t) => "Some("@ + text_debug(t) + ")"@,
        None => "None"@,
    }
}

fn debug_opt(s: &Option<String>) -> (r: String)
    ensures
        r@ == opt_debug(opt_text(*s)),
{
    match s {
        Some(t) => cat(cat("Some(", debug_text(t.as_str()).as_str()).as_str(), ")"),
        None => "None".to_owned(),
    }
}

/// The outcome of a policy whose target is taken.
pub open spec fn taken(k: (Seq<char>, Seq<char>, Option<Seq<char>>)) -> HealthView {
    refs_fine(
        false,
        "Conflicted"@,
        "Another BackendTLSPolicy with higher precedence already targets "@ + k.0 + "/"@ + k.1
            + " sectionName="@ + opt_debug(k.2),
    )
}

/// The index once the policy `p` has been taken in.
pub open spec fn take_in(
    x: IndexView,
    p: BackendTlsPolicy,
    configmaps: Map<(Seq<char>, Seq<char>), ConfigMap>,
    system_ca_available: bool,
) -> IndexView {
    let key = policy_key(p);
    match target_of(p) {
        Err(h) => IndexView { health: x.health.insert(key, h), ..x },
        Ok(k) => if x.claims.contains_key(k) {
            IndexView { health: x.health.insert(key, taken(k)), ..x }
        } else {
            let targets = x.targets.insert(key, (k.0, k.1));
            match config_of(p, configmaps, system_ca_available) {
                Err(h) => IndexView { health: x.health.insert(key, h), targets, ..x },
                Ok(c) => IndexView {
                    claims: x.claims.insert(k, c),
                    health: x.health.insert(key, refs_fine(true, "Accepted"@, ""@)),
                    targets,
                },
            }
        },
    }
}

/// The index over policies that are taken in one after the other.
pub open spec fn index_of(
    s: Seq<BackendTlsPolicy>,
    configmaps: Map<(Seq<char>, Seq<char>), ConfigMap>,
    system_ca_available: bool,
) -> IndexView
    decreases s.len(),
{
    if s.len() == 0 {
        IndexView { claims: Map::empty(), health: Map::empty(), targets: Map::empty() }
    } else {
        take_in(
            index_of(s.drop_last(), configmaps, system_ca_available),
            s.last(),
            configmaps,
            system_ca_available,
        )
    }
}

/// The settings for a backend: those of the named port, else those of the whole Service.
pub open spec fn settings_for(
    x: IndexView,
    ns: Seq<char>,
    svc: Seq<char>,
    port_name: Option<Seq<char>>,
) -> Option<TlsConfigView> {
    if port_name is Some && x.claims.contains_key((ns, svc, port_name)) {
        Some(x.claims[(ns, svc, port_name)])
    } else if x.claims.contains_key((ns, svc, None)) {
        Some(x.claims[(ns, svc, None)])
    } else {
        None
    }
}

impl BackendTlsIndex {
    /// The settings for a backend: those of the named port, else those of the whole Service.
    pub fn lookup(&self, ns: &str, svc: &str, port_name: Option<&str>) -> (r: Option<
        &BackendTlsConfig,
    >)
        ensures
            settings_for(self@, ns@, svc@, opt_slice(port_name)) == match r {
                Some(c) => Some(c@),
                None => None,
            },
    {
        if let Some(name) = port_name {
            let key = ServicePortKey {
                ns: ns.to_owned(),
                svc: svc.to_owned(),
                port_name: Some(name.to_owned()),
            };
            assert(key@ == (ns@, svc@, Some(name@)));
            if let Some(c) = self.by_service.get(&key) {
                return Some(c);
            }
        }
        let whole = ServicePortKey { ns: ns.to_owned(), svc: svc.to_owned(), port_name: None };
        assert(whole@ == (ns@, svc@, None::<Seq<char>>));
        self.by_service.get(&whole)
    }

    fn empty() -> (r: Self)
        ensures
            r@ == index_of(Seq::empty(), Map::empty(), false),
    {
        let r = BackendTlsIndex {
            by_service: Table::new(),
            health: Table::new(),
            targets: Table::new(),
        };
        assert(r@ =~= index_of(Seq::empty(), Map::empty(), false));
        r
    }

    fn report(&mut self, key: PolicyKey, h: PolicyHealthOutcome)
        ensures
            final(self)@ == (IndexView { health: old(self)@.health.insert(key@, h@), ..old(self)@ }),
    {
        self.health.insert(key, h);
        assert(self@ =~= (IndexView {
            health: old(self)@.health.insert(key@, h@),
            ..old(self)@
        }));
    }

    fn attach(&mut self, key: PolicyKey, t: PolicyServiceTarget)
        ensures
            final(self)@ == (IndexView {
                targets: old(self)@.targets.insert(key@, t@),
                ..old(self)@
            }),
    {
        self.targets.insert(key, t);
        assert(self@ =~= (IndexView {
            targets: old(self)@.targets.insert(key@, t@),
            ..old(self)@
        }));
    }

    fn claim(&mut self, key: ServicePortKey, c: BackendTlsConfig)
        ensures
            final(self)@ == (IndexView { claims: old(self)@.claims.insert(key@, c@), ..old(self)@ }),
    {
        self.by_service.insert(key, c);
        assert(self@ =~= (IndexView {
            claims: old(self)@.claims.insert(key@, c@),
            ..old(self)@
        }));
    }

    fn add(
        &mut self,
        p: &BackendTlsPolicy,
        configmaps: &Table<ObjectKey, ConfigMap>,
        system_ca_available: bool,
    )
        ensures
            final(self)@ == take_in(old(self)@, *p, configmaps@, system_ca_available),
    {
        let ns = str_or(&p.metadata.namespace, "default");
        let name = str_or(&p.metadata.name, "unknown");
        let key = PolicyKey { ns: ns.to_owned(), name: name.to_owned() };
        assert(key@ == policy_key(*p));
        if p.target_refs.len() == 0 {
            self.report(key, PolicyHealthOutcome::invalid("targetRefs is empty"));
            return;
        }
        let t = &p.target_refs[0];
        if !str_eq(t.kind.as_str(), "Service") || (!t.group.as_str().is_empty() && !str_eq(
            t.group.as_str(),
            "core",
        )) {
            let a = cat("unsupported targetRef ", t.group.as_str());
            let b = cat(cat(a.as_str(), "/").as_str(), t.kind.as_str());
            let message = cat(b.as_str(), ": only Service is supported");
            self.report(key, PolicyHealthOutcome::invalid(message.as_str()));
            return;
        }
        let service_key = ServicePortKey {
            ns: ns.to_owned(),
            svc: t.name.clone(),
            port_name: opt_copy(&t.section_name),
        };
        if self.by_service.contains(&service_key) {
            let a = cat("Another BackendTLSPolicy with higher precedence already targets ", ns);
            let b = cat(cat(a.as_str(), "/").as_str(), t.name.as_str());
            let c = cat(b.as_str(), " sectionName=");
            let message = cat(c.as_str(), debug_opt(&t.section_name).as_str());
            self.report(key, PolicyHealthOutcome::conflicted(message.as_str()));
            return;
        }
        let known: Option<&str> = match &p.well_known_ca_certificates {
            Some(s) => Some(s.as_str()),
            None => None,
        };
        let outcome = build_tls_config(
            ns,
            &p.ca_certificate_refs,
            known,
            p.hostname.as_str(),
            configmaps,
            system_ca_available,
        );
        let attached = PolicyKey { ns: ns.to_owned(), name: name.to_owned() };
        self.attach(attached, PolicyServiceTarget { ns: ns.to_owned(), svc: t.name.clone() });
        match outcome {
            Ok(c) => {
                self.claim(service_key, c);
                self.report(key, PolicyHealthOutcome::accepted(""));
            },
            Err(h) => {
                self.report(key, h);
            },
        }
    }
}

/// The index over the policies, the one with the highest precedence first.
/// `system_ca_available` says whether the platform has a CA bundle; without one a policy that asks
/// for it is invalid.
pub fn build_backend_tls_index(
    policies: &Vec<BackendTlsPolicy>,
    configmaps: &Table<ObjectKey, ConfigMap>,
    system_ca_available: bool,
) -> (r: BackendTlsIndex)
    ensures
        r@ == index_of(by_precedence(policies@), configmaps@, system_ca_available),
{
    let sorted = sort_by_precedence(policies);
    let ghost all = by_precedence(policies@);
    let mut index = BackendTlsIndex::empty();
    let mut i: usize = 0;
    assert(all.take(0) =~= Seq::<BackendTlsPolicy>::empty());
    while i < sorted.len()
        invariant
            i <= sorted.len(),
            all == pointees(sorted@),
            index@ == index_of(all.take(i as int), configmaps@, system_ca_available),
        decreases sorted.len() - i,
    {
        index.add(sorted[i], configmaps, system_ca_available);
        assert(all.take(i + 1).drop_last() =~= all.take(i as int));
        assert(all.take(i + 1).last() == *sorted@[i as int]);
        i = i + 1;
    }
    assert(all.take(i as int) =~= all);
    index
}

} // verus!
