//! What the TLS settings of a policy are made of.

use std::collections::hash_map::DefaultHasher;

use vstd::bytes::spec_u64_to_le_bytes;
use vstd::prelude::*;
use vstd::std_specs::hash::DefaultHasherAdditionalSpecFns;
use vstd::utf8::{decode_utf8, encode_utf8, encode_utf8_decode_utf8};

use crate::backend_tls::{
    ca_bundle, ca_bytes, ca_refs_of, ended, hashed, pool_key, BackendTlsPolicy, CaCertificateRef,
    CaView, ConfigMap,
};
use crate::backend_tls_index::{
    by_precedence, config_of, index_of, policy_key, precedes, settings_for, taken, target_of,
    IndexView,
};
use crate::backend_tls_laws::{
    first_fit_policy_has_the_say, fit_for, precedence_sorts, spoken_for, verdict,
};
use crate::text::{occurs, occurs_at, text_debug, text_less, text_order_is_irreflexive};

verus! {

/// The namespace of a policy.
pub open spec fn home(p: BackendTlsPolicy) -> Seq<char> {
    if p.metadata.namespace is Some {
        p.metadata.namespace->0@
    } else {
        "default"@
    }
}

/// The two clusters have the same ConfigMaps in this namespace.
pub open spec fn agree_in(
    a: Map<(Seq<char>, Seq<char>), ConfigMap>,
    b: Map<(Seq<char>, Seq<char>), ConfigMap>,
    ns: Seq<char>,
) -> bool {
    forall|name: Seq<char>| #[trigger]
        a.contains_key((ns, name)) == b.contains_key((ns, name)) && (a.contains_key((ns, name))
            ==> a[(ns, name)] == b[(ns, name)])
}

/// The settings of a policy depend only on the ConfigMaps in its own namespace.
pub proof fn settings_depend_on_the_own_namespace(
    p: BackendTlsPolicy,
    a: Map<(Seq<char>, Seq<char>), ConfigMap>,
    b: Map<(Seq<char>, Seq<char>), ConfigMap>,
    system_ca: bool,
)
    requires
        agree_in(a, b, home(p)),
    ensures
        config_of(p, a, system_ca) == config_of(p, b, system_ca),
{
    lemma_bundle_agrees(ca_refs_of(p.ca_certificate_refs), home(p), a, b);
}

proof fn lemma_bundle_agrees(
    refs: Seq<CaCertificateRef>,
    ns: Seq<char>,
    a: Map<(Seq<char>, Seq<char>), ConfigMap>,
    b: Map<(Seq<char>, Seq<char>), ConfigMap>,
)
    requires
        agree_in(a, b, ns),
    ensures
        ca_bundle(refs, ns, a) == ca_bundle(refs, ns, b),
    decreases refs.len(),
{
    if refs.len() > 0 {
        lemma_bundle_agrees(refs.drop_last(), ns, a, b);
        assert(a.contains_key((ns, refs.last().name@)) == b.contains_key((ns, refs.last().name@)));
    }
}

/// The text stands somewhere in the sequence.
pub open spec fn has_part<A>(s: Seq<A>, part: Seq<A>) -> bool {
    exists|i: int|
        0 <= i && i + part.len() <= s.len() && #[trigger] s.subrange(i, i + part.len()) == part
}

/// A reference is to a ConfigMap of the core group.
pub open spec fn is_to_config_map(r: CaCertificateRef) -> bool {
    r.kind@ == "ConfigMap"@ && (r.group@ == ""@ || r.group@ == "core"@)
}

/// The ConfigMap of that name in the namespace has these bytes as its PEM bundle, under `ca.crt`;
/// what stands in `data` comes before what stands in `binaryData`.
pub open spec fn has_bundle(
    r: CaCertificateRef,
    ns: Seq<char>,
    configmaps: Map<(Seq<char>, Seq<char>), ConfigMap>,
    b: Seq<u8>,
) -> bool {
    let cm = configmaps[(ns, r.name@)];
    let in_data = cm.data is Some && cm.data->0@.contains_key("ca.crt"@);
    &&& is_to_config_map(r)
    &&& configmaps.contains_key((ns, r.name@))
    &&& in_data ==> has_part(cm.data->0@["ca.crt"@]@, "-----BEGIN"@) && b == encode_utf8(
        cm.data->0@["ca.crt"@]@,
    )
    &&& !in_data ==> cm.binary_data is Some && cm.binary_data->0@.contains_key("ca.crt"@)
        && has_part(cm.binary_data->0@["ca.crt"@]@, encode_utf8("-----BEGIN "@)) && b
        == cm.binary_data->0@["ca.crt"@]@
}

/// The bytes, with a line end behind them unless they end in one.
pub open spec fn with_line_end(b: Seq<u8>) -> Seq<u8> {
    if b.len() > 0 && b[b.len() - 1] == 10 {
        b
    } else {
        b + seq![10u8]
    }
}

/// The bundles one behind the other, each ended by a line end.
pub open spec fn strung(b: Seq<Seq<u8>>) -> Seq<u8>
    decreases b.len(),
{
    if b.len() == 0 {
        Seq::empty()
    } else {
        strung(b.drop_last()) + with_line_end(b.last())
    }
}

/// The policy names no well-known set of CAs.
pub open spec fn names_no_set(p: BackendTlsPolicy) -> bool {
    p.well_known_ca_certificates is None || p.well_known_ca_certificates->0@ == ""@
}

proof fn lemma_bytes(
    r: CaCertificateRef,
    ns: Seq<char>,
    configmaps: Map<(Seq<char>, Seq<char>), ConfigMap>,
    b: Seq<u8>,
)
    ensures
        has_bundle(r, ns, configmaps, b) <==> (ca_bytes(r, ns, configmaps) is Ok && ca_bytes(
            r,
            ns,
            configmaps,
        )->Ok_0 == b),
{
    reveal_strlit("");
    assert(r.group@.len() == 0 <==> r.group@ =~= ""@);
    let cm = configmaps[(ns, r.name@)];
    lemma_part(cm.data->0@["ca.crt"@]@, "-----BEGIN"@);
    lemma_part(cm.binary_data->0@["ca.crt"@]@, encode_utf8("-----BEGIN "@));
}

proof fn lemma_part<A>(s: Seq<A>, part: Seq<A>)
    ensures
        has_part(s, part) == occurs(s, part),
{
    if occurs(s, part) {
        let i = choose|i: int| occurs_at(s, part, i);
        assert(s.subrange(i, i + part.len()) == part);
    }
    if has_part(s, part) {
        let i = choose|i: int|
            0 <= i && i + part.len() <= s.len() && #[trigger] s.subrange(i, i + part.len()) == part;
        assert(occurs_at(s, part, i));
    }
}

proof fn lemma_strung(
    refs: Seq<CaCertificateRef>,
    ns: Seq<char>,
    configmaps: Map<(Seq<char>, Seq<char>), ConfigMap>,
    b: Seq<Seq<u8>>,
)
    requires
        b.len() == refs.len(),
        forall|i: int|
            0 <= i < refs.len() ==> has_bundle(#[trigger] refs[i], ns, configmaps, b[i])
                && b[i].len() > 0,
    ensures
        ca_bundle(refs, ns, configmaps) is Ok,
        ca_bundle(refs, ns, configmaps)->Ok_0 == strung(b),
    decreases refs.len(),
{
    if refs.len() > 0 {
        let n = refs.len() - 1;
        assert forall|i: int| 0 <= i < n implies has_bundle(
            #[trigger] refs.drop_last()[i],
            ns,
            configmaps,
            b.drop_last()[i],
        ) && b.drop_last()[i].len() > 0 by {
            assert(refs.drop_last()[i] == refs[i]);
        }
        lemma_strung(refs.drop_last(), ns, configmaps, b.drop_last());
        assert(has_bundle(refs[n], ns, configmaps, b[n]));
        lemma_bytes(refs.last(), ns, configmaps, b.last());
        let head = strung(b.drop_last());
        assert((head + b.last()).last() == b.last().last());
        assert(ended(head + b.last()) =~= head + with_line_end(b.last()));
    }
}

/// A policy whose references all lead to PEM bundles in its own namespace gets settings with its
/// host as the server name and, as CA, exactly those bundles, in the order of the references and
/// each ended by a line end.
pub proof fn bundles_become_the_ca(
    p: BackendTlsPolicy,
    configmaps: Map<(Seq<char>, Seq<char>), ConfigMap>,
    system_ca: bool,
    b: Seq<Seq<u8>>,
)
    requires
        names_no_set(p),
        p.ca_certificate_refs is Some,
        p.ca_certificate_refs->0@.len() > 0,
        b.len() == p.ca_certificate_refs->0@.len(),
        forall|i: int|
            0 <= i < b.len() ==> has_bundle(
                #[trigger] p.ca_certificate_refs->0@[i],
                home(p),
                configmaps,
                b[i],
            ) && b[i].len() > 0,
    ensures
        config_of(p, configmaps, system_ca) is Ok,
        config_of(p, configmaps, system_ca)->Ok_0.sni == p.hostname@,
        config_of(p, configmaps, system_ca)->Ok_0.ca == CaView::Pem(strung(b)),
{
    reveal_strlit("");
    if p.well_known_ca_certificates is Some {
        assert(p.well_known_ca_certificates->0@.len() == 0);
    }
    lemma_strung(p.ca_certificate_refs->0@, home(p), configmaps, b);
}

/// A policy that names one ConfigMap of its namespace with a PEM bundle gets that bundle, ended
/// by a line end, as its CA, and the Service that it targets in its namespace gets those settings
/// from it if no policy of higher precedence is fit for the same target.
pub proof fn one_bundle_becomes_the_ca(
    s: Seq<BackendTlsPolicy>,
    i: int,
    configmaps: Map<(Seq<char>, Seq<char>), ConfigMap>,
    system_ca: bool,
    b: Seq<u8>,
)
    requires
        0 <= i < s.len(),
        names_no_set(s[i]),
        s[i].ca_certificate_refs is Some,
        s[i].ca_certificate_refs->0@.len() == 1,
        has_bundle(s[i].ca_certificate_refs->0@[0], home(s[i]), configmaps, b),
        b.len() > 0,
        s[i].target_refs@.len() > 0,
        s[i].target_refs@[0].kind@ == "Service"@,
        s[i].target_refs@[0].group@ == ""@,
    ensures
        ({
            let t = s[i].target_refs@[0];
            let section = if t.section_name is Some {
                Some(t.section_name->0@)
            } else {
                None::<Seq<char>>
            };
            let k = (home(s[i]), t.name@, section);
            let x = index_of(s, configmaps, system_ca);
            &&& fit_for(s[i], k, configmaps, system_ca)
            &&& !spoken_for(s, i, k, configmaps, system_ca) ==> x.claims.contains_key(k)
                && x.claims[k].sni == s[i].hostname@ && x.claims[k].ca == CaView::Pem(
                with_line_end(b),
            )
        }),
{
    reveal_strlit("");
    let p = s[i];
    let t = p.target_refs@[0];
    assert(t.group@.len() == 0);
    let one = seq![b];
    assert(one.drop_last() =~= Seq::<Seq<u8>>::empty());
    assert(strung(one.drop_last()) =~= Seq::<u8>::empty());
    assert(strung(one) =~= with_line_end(b));
    bundles_become_the_ca(p, configmaps, system_ca, one);
    let k = target_of(p)->Ok_0;
    first_fit_policy_has_the_say(s, k, configmaps, system_ca);
    assert(fit_for(s[i], k, configmaps, system_ca));
}

/// A reference leads to no PEM bundle.
pub open spec fn leads_nowhere(
    r: CaCertificateRef,
    ns: Seq<char>,
    configmaps: Map<(Seq<char>, Seq<char>), ConfigMap>,
) -> bool {
    forall|b: Seq<u8>| !#[trigger] has_bundle(r, ns, configmaps, b)
}

/// A policy with a reference that leads to no PEM bundle in its namespace gets no settings: it is
/// refused because its references do not resolve. The first such reference is the one that is
/// named, with whether it is its kind that is at fault.
pub proof fn bad_reference_refuses_the_policy(
    p: BackendTlsPolicy,
    configmaps: Map<(Seq<char>, Seq<char>), ConfigMap>,
    system_ca: bool,
    i: int,
)
    requires
        names_no_set(p),
        p.ca_certificate_refs is Some,
        0 <= i < p.ca_certificate_refs->0@.len(),
        leads_nowhere(p.ca_certificate_refs->0@[i], home(p), configmaps),
        forall|j: int|
            0 <= j < i ==> !leads_nowhere(
                #[trigger] p.ca_certificate_refs->0@[j],
                home(p),
                configmaps,
            ),
    ensures
        ({
            let r = p.ca_certificate_refs->0@[i];
            let h = config_of(p, configmaps, system_ca)->Err_0;
            &&& config_of(p, configmaps, system_ca) is Err
            &&& !h.accepted
            &&& h.accepted_reason == "NoValidCACertificate"@
            &&& !h.resolved_refs
            &&& h.resolved_refs_reason == if is_to_config_map(r) {
                "InvalidCACertificateRef"@
            } else {
                "InvalidKind"@
            }
            &&& h.resolved_refs_message.len() >= r.name@.len()
            &&& h.resolved_refs_message.take(r.name@.len() as int) == r.name@
        }),
{
    reveal_strlit("");
    if p.well_known_ca_certificates is Some {
        assert(p.well_known_ca_certificates->0@.len() == 0);
    }
    let refs = p.ca_certificate_refs->0@;
    lemma_first_bad(refs, home(p), configmaps, i);
    let r = refs[i];
    assert(r.group@.len() == 0 <==> r.group@ =~= ""@);
    assert(ca_bytes(r, home(p), configmaps) is Err);
    let m = ca_bytes(r, home(p), configmaps)->Err_0.resolved_refs_message;
    assert(m.take(r.name@.len() as int) =~= r.name@);
}

proof fn lemma_first_bad(
    refs: Seq<CaCertificateRef>,
    ns: Seq<char>,
    configmaps: Map<(Seq<char>, Seq<char>), ConfigMap>,
    i: int,
)
    requires
        0 <= i < refs.len(),
        leads_nowhere(refs[i], ns, configmaps),
        forall|j: int| 0 <= j < i ==> !leads_nowhere(#[trigger] refs[j], ns, configmaps),
    ensures
        ca_bytes(refs[i], ns, configmaps) is Err,
        ca_bundle(refs, ns, configmaps) is Err,
        ca_bundle(refs, ns, configmaps)->Err_0 == ca_bytes(refs[i], ns, configmaps)->Err_0,
    decreases refs.len(),
{
    let rest = refs.drop_last();
    lemma_bytes(refs[i], ns, configmaps, ca_bytes(refs[i], ns, configmaps)->Ok_0);
    assert(forall|j: int| 0 <= j < rest.len() ==> #[trigger] rest[j] == refs[j]);
    if i < rest.len() {
        lemma_first_bad(rest, ns, configmaps, i);
    } else {
        assert forall|j: int| 0 <= j < rest.len() implies !leads_nowhere(
            #[trigger] rest[j],
            ns,
            configmaps,
        ) by {
            assert(!leads_nowhere(refs[j], ns, configmaps));
        }
        lemma_none_bad(rest, ns, configmaps);
    }
}

proof fn lemma_none_bad(
    refs: Seq<CaCertificateRef>,
    ns: Seq<char>,
    configmaps: Map<(Seq<char>, Seq<char>), ConfigMap>,
)
    requires
        forall|j: int| 0 <= j < refs.len() ==> !leads_nowhere(#[trigger] refs[j], ns, configmaps),
    ensures
        ca_bundle(refs, ns, configmaps) is Ok,
    decreases refs.len(),
{
    if refs.len() > 0 {
        let rest = refs.drop_last();
        assert forall|j: int| 0 <= j < rest.len() implies !leads_nowhere(
            #[trigger] rest[j],
            ns,
            configmaps,
        ) by {
            assert(!leads_nowhere(refs[j], ns, configmaps));
        }
        lemma_none_bad(rest, ns, configmaps);
        assert(!leads_nowhere(refs[refs.len() - 1], ns, configmaps));
        let b = choose|b: Seq<u8>| #[trigger] has_bundle(refs.last(), ns, configmaps, b);
        lemma_bytes(refs.last(), ns, configmaps, b);
    }
}

/// A policy names either references or a well-known set of CAs, and of those only the system's,
/// which must be there; any other policy is refused as invalid, and one that names the system's
/// set gets it.
pub proof fn well_known_set_is_the_systems(
    p: BackendTlsPolicy,
    configmaps: Map<(Seq<char>, Seq<char>), ConfigMap>,
    system_ca: bool,
)
    ensures
        ({
            let r = config_of(p, configmaps, system_ca);
            let h = r->Err_0;
            let refs = p.ca_certificate_refs is Some && p.ca_certificate_refs->0@.len() > 0;
            let named = !names_no_set(p);
            let is_system = named && p.well_known_ca_certificates->0@ == "System"@;
            &&& !refs && is_system && system_ca ==> r is Ok && r->Ok_0.sni == p.hostname@
                && r->Ok_0.ca is System
            &&& (refs && named) || (!refs && !named) || (!refs && named && !(is_system
                && system_ca)) ==> {
                &&& r is Err
                &&& !h.accepted
                &&& h.accepted_reason == "Invalid"@
                &&& h.resolved_refs
                &&& h.resolved_refs_reason == "ResolvedRefs"@
            }
        }),
{
    reveal_strlit("");
    if p.well_known_ca_certificates is Some {
        let w = p.well_known_ca_certificates->0@;
        assert(w.len() == 0 <==> w =~= ""@);
    }
}

/// A policy bears on the Service, or the port of it, that its first target names in its own
/// namespace; one without a target, or whose first target is no Service, is refused as invalid.
pub proof fn policy_targets_a_service_of_its_namespace(p: BackendTlsPolicy)
    ensures
        ({
            let t = p.target_refs@[0];
            let usable = p.target_refs@.len() > 0 && t.kind@ == "Service"@ && (t.group@ == ""@
                || t.group@ == "core"@);
            let r = target_of(p);
            &&& usable ==> {
                &&& r is Ok
                &&& r->Ok_0.0 == home(p)
                &&& r->Ok_0.1 == t.name@
                &&& r->Ok_0.2 is Some <==> t.section_name is Some
                &&& r->Ok_0.2 is Some ==> r->Ok_0.2->0 == t.section_name->0@
            }
            &&& !usable ==> {
                &&& r is Err
                &&& !r->Err_0.accepted
                &&& r->Err_0.accepted_reason == "Invalid"@
                &&& r->Err_0.resolved_refs
            }
        }),
        policy_key(p).0 == home(p),
        policy_key(p).1 == if p.metadata.name is Some {
            p.metadata.name->0@
        } else {
            "unknown"@
        },
{
    reveal_strlit("");
    let t = p.target_refs@[0];
    assert(t.group@.len() == 0 <==> t.group@ =~= ""@);
}

/// What is said of a policy: one whose target is taken is refused as conflicted though its
/// references are fine; one that has the say is accepted.
pub proof fn verdict_says_who_has_the_say(
    s: Seq<BackendTlsPolicy>,
    i: int,
    configmaps: Map<(Seq<char>, Seq<char>), ConfigMap>,
    system_ca: bool,
)
    requires
        0 <= i < s.len(),
        target_of(s[i]) is Ok,
    ensures
        ({
            let v = verdict(s, i, configmaps, system_ca);
            let k = target_of(s[i])->Ok_0;
            let beaten = spoken_for(s, i, k, configmaps, system_ca);
            &&& v.accepted <==> !beaten && config_of(s[i], configmaps, system_ca) is Ok
            &&& v.accepted ==> v.accepted_reason == "Accepted"@ && v.resolved_refs
                && v.resolved_refs_reason == "ResolvedRefs"@
            &&& beaten ==> v.accepted_reason == "Conflicted"@ && v.resolved_refs
                && v.resolved_refs_reason == "ResolvedRefs"@
        }),
{
    let c = config_of(s[i], configmaps, system_ca);
    if c is Err {
        lemma_refused(s[i], configmaps, system_ca);
    }
}

proof fn lemma_refused(
    p: BackendTlsPolicy,
    configmaps: Map<(Seq<char>, Seq<char>), ConfigMap>,
    system_ca: bool,
)
    requires
        config_of(p, configmaps, system_ca) is Err,
    ensures
        !config_of(p, configmaps, system_ca)->Err_0.accepted,
{
    lemma_bundle_refused(ca_refs_of(p.ca_certificate_refs), policy_key(p).0, configmaps);
}

proof fn lemma_bundle_refused(
    refs: Seq<CaCertificateRef>,
    ns: Seq<char>,
    configmaps: Map<(Seq<char>, Seq<char>), ConfigMap>,
)
    ensures
        ca_bundle(refs, ns, configmaps) is Err ==> !ca_bundle(refs, ns, configmaps)->Err_0.accepted,
    decreases refs.len(),
{
    if refs.len() > 0 {
        lemma_bundle_refused(refs.drop_last(), ns, configmaps);
    }
}

/// The `namespace/name` of a policy.
pub open spec fn full_name(p: BackendTlsPolicy) -> Seq<char> {
    (if p.metadata.namespace is Some {
        p.metadata.namespace->0@
    } else {
        ""@
    }) + "/"@ + (if p.metadata.name is Some {
        p.metadata.name->0@
    } else {
        ""@
    })
}

/// In the order of precedence an older policy comes before a younger one, and of two that are as
/// old the one whose `namespace/name` comes first in the order of texts; one without a creation
/// time counts as the oldest.
pub proof fn older_policy_comes_first(s: Seq<BackendTlsPolicy>, i: int, j: int)
    requires
        0 <= i < by_precedence(s).len(),
        0 <= j < by_precedence(s).len(),
        ({
            let a = by_precedence(s)[i];
            let b = by_precedence(s)[j];
            ||| a.created is None && b.created is Some
            ||| a.created is Some && b.created is Some && a.created->0 < b.created->0
            ||| a.created == b.created && text_less(full_name(a), full_name(b))
        }),
    ensures
        i < j,
{
    let r = by_precedence(s);
    precedence_sorts(s);
    assert(precedes(r[i], r[j]));
    if i == j {
        text_order_is_irreflexive(full_name(r[i]));
    } else if j < i {
        assert(!precedes(r[i], r[j]));
    }
}

/// The settings for a backend port are those of the policy that targets that port, and where there
/// is none, those of the one that targets the whole Service; of no other Service or namespace.
pub proof fn port_settings_come_before_those_of_the_service(
    x: IndexView,
    ns: Seq<char>,
    svc: Seq<char>,
    port: Option<Seq<char>>,
)
    ensures
        port is Some && x.claims.contains_key((ns, svc, port)) ==> settings_for(x, ns, svc, port)
            == Some(x.claims[(ns, svc, port)]),
        (port is None || !x.claims.contains_key((ns, svc, port))) && x.claims.contains_key(
            (ns, svc, None),
        ) ==> settings_for(x, ns, svc, port) == Some(x.claims[(ns, svc, None)]),
        !x.claims.contains_key((ns, svc, port)) && !x.claims.contains_key((ns, svc, None))
            ==> settings_for(x, ns, svc, port) is None,
{
}

/// Settings that differ in server name or CA source are told apart before they are hashed.
pub proof fn unlike_settings_are_hashed_apart(
    a: Seq<char>,
    x: CaView,
    b: Seq<char>,
    y: CaView,
)
    requires
        hashed(a, x) == hashed(b, y),
    ensures
        a == b,
        x == y,
{
    encode_utf8_decode_utf8(a);
    encode_utf8_decode_utf8(b);
    assert(hashed(a, x)[0] == encode_utf8(a));
    assert(hashed(b, y)[0] == encode_utf8(b));
    assert(decode_utf8(encode_utf8(a)) == decode_utf8(encode_utf8(b)));
    assert(hashed(a, x)[2] == hashed(b, y)[2]);
    assert(seq![0u8][0] != seq![1u8][0]);
    if x is Pem {
        assert(hashed(a, x)[4] == x->Pem_0);
        assert(hashed(b, y)[4] == y->Pem_0);
    }
}

/// The cause that is given for a reference that leads to no PEM bundle: that it is not to a
/// ConfigMap, that there is none of that name, that it lacks the key, or that what it has there is
/// no PEM bundle.
pub proof fn bad_reference_is_explained(
    r: CaCertificateRef,
    ns: Seq<char>,
    configmaps: Map<(Seq<char>, Seq<char>), ConfigMap>,
)
    requires
        leads_nowhere(r, ns, configmaps),
    ensures
        ({
            let cm = configmaps[(ns, r.name@)];
            let in_data = cm.data is Some && cm.data->0@.contains_key("ca.crt"@);
            let in_binary = cm.binary_data is Some && cm.binary_data->0@.contains_key("ca.crt"@);
            let h = ca_bytes(r, ns, configmaps)->Err_0;
            &&& ca_bytes(r, ns, configmaps) is Err
            &&& h.accepted_message == "All caCertificateRefs are invalid"@
            &&& h.resolved_refs_message == r.name@ + if !is_to_config_map(r) {
                ": only ConfigMap (group \"\") is supported for caCertificateRefs"@
            } else if !configmaps.contains_key((ns, r.name@)) {
                ": "@ + "ConfigMap not found"@
            } else if in_data {
                ": "@ + "ca.crt does not appear to be a valid PEM certificate bundle"@
            } else if in_binary {
                ": "@ + "ca.crt (binaryData) does not appear to be a valid PEM certificate bundle"@
            } else {
                ": "@ + "ConfigMap missing required key 'ca.crt' in data or binaryData"@
            }
        }),
{
    reveal_strlit("");
    assert(r.group@.len() == 0 <==> r.group@ =~= ""@);
    lemma_bytes(r, ns, configmaps, ca_bytes(r, ns, configmaps)->Ok_0);
    let m = ca_bytes(r, ns, configmaps)->Err_0.resolved_refs_message;
    if is_to_config_map(r) {
        let cause = m.skip(r.name@.len() as int);
        assert(m =~= r.name@ + cause);
        lemma_cause(r.name@, ": "@, "ConfigMap not found"@);
        lemma_cause(
            r.name@,
            ": "@,
            "ca.crt does not appear to be a valid PEM certificate bundle"@,
        );
        lemma_cause(
            r.name@,
            ": "@,
            "ca.crt (binaryData) does not appear to be a valid PEM certificate bundle"@,
        );
        lemma_cause(
            r.name@,
            ": "@,
            "ConfigMap missing required key 'ca.crt' in data or binaryData"@,
        );
    }
}

proof fn lemma_cause(a: Seq<char>, b: Seq<char>, c: Seq<char>)
    ensures
        a + b + c == a + (b + c),
{
    assert(a + b + c =~= a + (b + c));
}

/// What makes a policy invalid is said in words: which of references and well-known set is too
/// much, missing, unknown or not there, or what is wrong with its target.
pub proof fn invalid_policy_is_explained(
    p: BackendTlsPolicy,
    configmaps: Map<(Seq<char>, Seq<char>), ConfigMap>,
    system_ca: bool,
)
    ensures
        ({
            let m = config_of(p, configmaps, system_ca)->Err_0.accepted_message;
            let refs = p.ca_certificate_refs is Some && p.ca_certificate_refs->0@.len() > 0;
            let named = !names_no_set(p);
            let w = p.well_known_ca_certificates->0@;
            &&& refs && named ==> m
                == "exactly one of caCertificateRefs or wellKnownCACertificates must be set, not both"@
            &&& !refs && !named ==> m
                == "one of caCertificateRefs or wellKnownCACertificates must be set"@
            &&& !refs && named && w != "System"@ ==> m == "wellKnownCACertificates value '"@ + w
                + "' is not recognised; only 'System' is supported"@
            &&& !refs && named && w == "System"@ && !system_ca ==> m
                == "wellKnownCACertificates: System requested but no system CA bundle is available"@
        }),
        p.target_refs@.len() == 0 ==> target_of(p)->Err_0.accepted_message
            == "targetRefs is empty"@,
        p.target_refs@.len() > 0 && target_of(p) is Err ==> target_of(p)->Err_0.accepted_message
            == "unsupported targetRef "@ + p.target_refs@[0].group@ + "/"@
            + p.target_refs@[0].kind@ + ": only Service is supported"@,
{
    reveal_strlit("");
    if p.well_known_ca_certificates is Some {
        let w = p.well_known_ca_certificates->0@;
        assert(w.len() == 0 <==> w =~= ""@);
    }
}

/// A policy that another one beats is told what target that one has.
pub proof fn beaten_policy_is_told_the_target(k: (Seq<char>, Seq<char>, Option<Seq<char>>))
    ensures
        taken(k).accepted_message
            == "Another BackendTLSPolicy with higher precedence already targets "@ + k.0 + "/"@
            + k.1 + " sectionName="@ + (if k.2 is Some {
            "Some("@ + text_debug(k.2->0) + ")"@
        } else {
            "None"@
        }),
{
}

/// What is hashed is the server name and a byte that ends it, then a byte for the kind of CA
/// source and, for a bundle, its length and its bytes.
pub proof fn pool_key_is_made_of_name_and_ca(sni: Seq<char>, ca: CaView)
    ensures
        hashed(sni, ca)[0] == encode_utf8(sni),
        hashed(sni, ca)[1] == seq![255u8],
        ca is System ==> hashed(sni, ca).len() == 3 && hashed(sni, ca)[2] == seq![0u8],
        ca is Pem ==> hashed(sni, ca).len() == 5 && hashed(sni, ca)[2] == seq![1u8] && hashed(
            sni,
            ca,
        )[3] == spec_u64_to_le_bytes(ca->Pem_0.len() as u64) && hashed(sni, ca)[4] == ca->Pem_0,
        pool_key(sni, ca) == DefaultHasher::spec_finish(hashed(sni, ca)),
{
}

/// The key of settings is that of their server name and CA source.
pub proof fn settings_have_the_key_of_their_parts(
    p: BackendTlsPolicy,
    configmaps: Map<(Seq<char>, Seq<char>), ConfigMap>,
    system_ca: bool,
)
    requires
        config_of(p, configmaps, system_ca) is Ok,
    ensures
        ({
            let c = config_of(p, configmaps, system_ca)->Ok_0;
            &&& c.sni == p.hostname@
            &&& c.group_key == DefaultHasher::spec_finish(hashed(c.sni, c.ca))
        }),
{
}

} // verus!
