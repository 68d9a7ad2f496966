//! What the settings of a role come to.

use vstd::prelude::*;

use crate::cli::{
    entry_error, entry_of, leaves_unnamed, role_settled, runs, selector_of, service_type_word,
    AccessLogPathMode, EntryView, IngressDefaultBackend, RelayScope, Role, Runner,
};
use crate::config::{
    blank, reads_as, shown, AddressText, ControllerConfigError, Period, StatusAddress,
};
use crate::discovery::{
    identity_prefix, install_namespace, policy_of, service_endpoint, CONTROLLER_BOOTSTRAP_SERVICE,
    CONTROLLER_DISCOVERY_SERVICE, SHARED_RELAY_SERVICE_ACCOUNT,
};
use crate::text::{
    decimal, first_at, first_is_unique, free_of, is_space, is_trim, lower_char, split_at_char,
    text_debug, trim_is_unique, trimmed, trims_at,
};
use crate::text_laws::pieces_make_up_the_text;
use crate::watched_status::slow_renewal;

verus! {

/// The text neither begins nor ends with white space.
pub open spec fn is_tight(s: Seq<char>) -> bool {
    s.len() > 0 ==> !is_space(s[0]) && !is_space(s[s.len() - 1])
}

proof fn lemma_tight(s: Seq<char>)
    requires
        is_tight(s),
    ensures
        trimmed(s) == s,
{
    assert(s =~= s.subrange(0, s.len() as int));
    assert(trims_at(s, s, 0, s.len() as int));
    assert(is_trim(s, s));
    trim_is_unique(s, s, trimmed(s));
}

proof fn lemma_trimmed(s: Seq<char>, t: Seq<char>)
    requires
        is_trim(s, t),
    ensures
        trimmed(s) == t,
{
    trim_is_unique(s, t, trimmed(s));
}

/// An entry of a label selector that is a key, an equals sign and a value, with white space around
/// it or not, says just that; the value may hold further equals signs.
pub proof fn label_entry_is_key_and_value(entry: Seq<char>, key: Seq<char>, value: Seq<char>)
    requires
        is_trim(entry, key + seq!['='] + value),
        key.len() > 0,
        is_tight(key),
        is_tight(value),
        free_of(key, '='),
    ensures
        entry_of(entry) == EntryView::Pair(key, value),
{
    let pair = key + seq!['='] + value;
    let n = key.len() as int;
    lemma_trimmed(entry, pair);
    assert(pair[n] == '=');
    assert(pair.take(n) =~= key);
    assert(first_at(pair, '=', n));
    first_is_unique(pair, '=', n);
    assert(!free_of(pair, '='));
    lemma_tight(key);
    assert(pair.skip(n + 1) =~= value);
    lemma_tight(value);
}

/// An entry without an equals sign has no value, one that begins with it has no key, and a blank
/// one says nothing.
pub proof fn broken_label_entries_are_told_apart(entry: Seq<char>, t: Seq<char>)
    requires
        is_trim(entry, t),
    ensures
        t.len() == 0 <==> entry_of(entry) is Blank,
        t.len() > 0 && free_of(t, '=') <==> entry_of(entry) is NoValue,
        t.len() > 0 && t[0] == '=' ==> entry_of(entry) is NoKey,
{
    lemma_trimmed(entry, t);
    if t.len() > 0 && t[0] == '=' {
        assert(t.take(0) =~= Seq::<char>::empty());
        assert(first_at(t, '=', 0));
        first_is_unique(t, '=', 0);
        lemma_tight(Seq::<char>::empty());
        assert(!free_of(t, '='));
    }
}

/// Entry by entry a selector gains the label that the entry names, the later value replacing an
/// earlier one; a blank entry adds nothing, and the first broken one is an error for good.
pub proof fn selector_gains_each_label(entries: Seq<Seq<char>>, entry: Seq<char>)
    ensures
        ({
            let before = selector_of(entries);
            let after = selector_of(entries.push(entry));
            &&& selector_of(Seq::empty()) == Ok::<_, Seq<char>>(
                Map::<Seq<char>, Seq<char>>::empty(),
            )
            &&& before is Err ==> after == before
            &&& before is Ok && entry_of(entry) is Blank ==> after == before
            &&& before is Ok ==> (entry_of(entry) matches EntryView::Pair(k, v) ==> after is Ok
                && after->Ok_0 == before->Ok_0.insert(k, v))
            &&& before is Ok && (entry_of(entry) is NoValue || entry_of(entry) is NoKey)
                ==> after is Err
        }),
{
    assert(entries.push(entry).drop_last() =~= entries);
}

/// The words by which a pod is told its settings.
pub proof fn flags_are_spelled_out(b: IngressDefaultBackend, r: RelayScope)
    ensures
        AccessLogPathMode::Full.flag() == "full"@,
        AccessLogPathMode::Pattern.flag() == "pattern"@,
        AccessLogPathMode::Omitted.flag() == "none"@,
        b.flag() == b.namespace@ + "/"@ + b.name@ + ":"@ + decimal(b.port as nat),
        r is Shared ==> r.shown() == "shared"@,
        r is Namespace ==> r.shown() == "namespace/"@ + r->namespace@,
{
}

/// The type of a Service is read without regard to capitals and to white space around it.
pub proof fn service_type_ignores_capitals(s: Seq<char>, t: Seq<char>)
    requires
        is_trim(s, t),
    ensures
        service_type_word(s).len() == t.len(),
        forall|i: int|
            0 <= i < t.len() ==> #[trigger] service_type_word(s)[i] == lower_char(t[i]),
{
    lemma_trimmed(s, t);
}

/// Each role runs as itself: a proxy or a relay that is shared for everyone, any other proxy for
/// the Gateway that it names and any other relay for its namespace.
pub proof fn roles_run_as_themselves(role: Role, runner: Runner)
    requires
        runs(role, runner),
    ensures
        role is Controller <==> runner is Controller,
        role is Proxy <==> runner is Proxy,
        role is Relay <==> runner is Relay,
        role matches Role::Proxy(args) ==> (args.shared <==> runner->Proxy_0 is Shared),
        role matches Role::Proxy(args) ==> (!args.shared ==> runner->Proxy_0->Gateway_name@
            == args.gateway_name->0@ && runner->Proxy_0->Gateway_namespace@
            == args.gateway_namespace->0@),
        role matches Role::Relay(args) ==> (args.shared <==> runner->Relay_0 is Shared),
        role matches Role::Relay(args) ==> (!args.shared ==> runner->Relay_0->namespace@
            == args.namespace->0@),
{
}

/// A role is settled once it is known whom it serves.
pub proof fn settled_roles_know_whom_they_serve(role: Role)
    ensures
        role is Controller ==> role_settled(role),
        role matches Role::Proxy(args) ==> (role_settled(role) <==> args.shared || (
        args.gateway_name is Some && args.gateway_namespace is Some)),
        role matches Role::Relay(args) ==> (role_settled(role) <==> args.shared
            || args.namespace is Some),
{
}

/// Two commas stand next to each other in the text.
pub open spec fn has_double_comma(s: Seq<char>) -> bool {
    exists|i: int| 0 < i < s.len() && #[trigger] s[i] == ',' && s[i - 1] == ','
}

/// A list of namespaces is refused exactly if it is empty, begins or ends with a comma, or has two
/// commas in a row.
pub proof fn unnamed_namespaces_are_refused(list: Option<String>)
    ensures
        leaves_unnamed(list) <==> list is Some && (list->0@.len() == 0 || list->0@[0] == ','
            || list->0@[list->0@.len() - 1] == ',' || has_double_comma(list->0@)),
{
    if list is Some {
        let s = list->0@;
        let p = split_at_char(s, ',');
        pieces_make_up_the_text(s, ',');
        lemma_pieces(s);
        if leaves_unnamed(list) {
            let i = choose|i: int| 0 <= i < p.len() && (#[trigger] p[i]).len() == 0;
            if i < p.len() - 1 {
                assert(has_empty_before_last(p));
            }
        }
        if has_empty_before_last(p) {
            let i = choose|i: int| 0 <= i < p.len() - 1 && (#[trigger] p[i]).len() == 0;
            assert(p[i].len() == 0);
        }
        if p.last().len() == 0 {
            assert(p[p.len() - 1].len() == 0);
        }
    }
}

spec fn has_empty_before_last(p: Seq<Seq<char>>) -> bool {
    exists|i: int| 0 <= i < p.len() - 1 && (#[trigger] p[i]).len() == 0
}

proof fn lemma_pieces(s: Seq<char>)
    ensures
        ({
            let p = split_at_char(s, ',');
            &&& p.last().len() == 0 <==> s.len() == 0 || s.last() == ','
            &&& has_empty_before_last(p) <==> (s.len() > 0 && s[0] == ',') || has_double_comma(s)
        }),
    decreases s.len(),
{
    let p = split_at_char(s, ',');
    if s.len() > 0 {
        let d = s.drop_last();
        let h = split_at_char(d, ',');
        let n = d.len() as int;
        lemma_pieces(d);
        pieces_make_up_the_text(d, ',');
        assert(forall|i: int| 0 <= i < n ==> #[trigger] d[i] == s[i]);
        if has_double_comma(d) {
            let i = choose|i: int| 0 < i < d.len() && #[trigger] d[i] == ',' && d[i - 1] == ',';
            assert(s[i] == ',' && s[i - 1] == ',');
        }
        if has_double_comma(s) {
            let i = choose|i: int| 0 < i < s.len() && #[trigger] s[i] == ',' && s[i - 1] == ',';
            if i < n {
                assert(d[i] == ',' && d[i - 1] == ',');
            }
        }
        if s.last() == ',' {
            assert(p == h.push(Seq::empty()));
            assert(has_empty_before_last(p) <==> has_empty_before_last(h) || h.last().len()
                == 0) by {
                if has_empty_before_last(p) {
                    let i = choose|i: int| 0 <= i < p.len() - 1 && (#[trigger] p[i]).len() == 0;
                    assert(p[i] == h[i]);
                }
                if has_empty_before_last(h) {
                    let i = choose|i: int| 0 <= i < h.len() - 1 && (#[trigger] h[i]).len() == 0;
                    assert(p[i] == h[i]);
                }
                if h.last().len() == 0 {
                    assert(p[h.len() - 1] == h.last());
                }
            }
            if n > 0 && d.last() == ',' {
                assert(s[n] == ',' && s[n - 1] == ',');
            }
        } else {
            assert(has_empty_before_last(p) <==> has_empty_before_last(h)) by {
                if has_empty_before_last(p) {
                    let i = choose|i: int| 0 <= i < p.len() - 1 && (#[trigger] p[i]).len() == 0;
                    assert(p[i] == h[i]);
                }
                if has_empty_before_last(h) {
                    let i = choose|i: int| 0 <= i < h.len() - 1 && (#[trigger] h[i]).len() == 0;
                    assert(p[i] == h[i]);
                }
            }
        }
    }
}

/// An address that can be read as an IP address is one; any other is a host name, without the white
/// space around it. Nothing but white space is no address.
pub proof fn addresses_are_read_by_their_form(t: AddressText, a: StatusAddress)
    requires
        reads_as(t, a),
    ensures
        t.ip is Some <==> a is Ip,
        a matches StatusAddress::Ip(ip) ==> ip@ == t.ip->0@,
        a matches StatusAddress::Hostname(h) ==> is_trim(t.raw@, h@),
        blank(t) ==> forall|i: int| 0 <= i < t.raw@.len() ==> is_space(#[trigger] t.raw@[i]),
{
    if blank(t) {
        let none = Seq::<char>::empty();
        let (x, y) = choose|x: int, y: int| #[trigger] trims_at(t.raw@, none, x, y);
        assert(t.raw@.subrange(x, y).len() == y - x);
    }
}

/// What is wrong with the settings is said with the periods that do not fit together.
pub proof fn setting_errors_are_spelled_out(e: ControllerConfigError)
    ensures
        e is EmptyStatusAddress ==> e.text() == "status_address must not be empty"@,
        e matches ControllerConfigError::LeaseRatioTooFast { ttl, renew } ==> e.text()
            == "lease.renew_interval ("@ + shown(renew)
            + ") must be at most 1/3 of lease.ttl ("@ + shown(ttl) + ")"@,
{
}

/// The services of the controller are reached over TLS under their names in the namespace, on the
/// port.
pub proof fn endpoints_are_services_of_the_namespace(ns: Seq<char>, port: u16)
    ensures
        service_endpoint(CONTROLLER_DISCOVERY_SERVICE@, ns, port)
            == "https://"@ + "coxswain-controller-discovery"@ + "."@ + ns + ".svc:"@ + decimal(
            port as nat,
        ),
        service_endpoint(CONTROLLER_BOOTSTRAP_SERVICE@, ns, port)
            == "https://"@ + "coxswain-controller-discovery-bootstrap"@ + "."@ + ns + ".svc:"@
            + decimal(port as nat),
        service_endpoint(SHARED_RELAY_SERVICE_ACCOUNT@, ns, port)
            == "https://"@ + "coxswain-relay-shared"@ + "."@ + ns + ".svc:"@ + decimal(
            port as nat,
        ),
{
}

/// Clients are let in by the trust domain in their identity, which ends where the path begins.
pub proof fn identities_begin_with_the_trust_domain(a: Seq<char>, b: Seq<char>)
    ensures
        identity_prefix(a) == "spiffe://"@ + a + "/"@,
        identity_prefix(a) == identity_prefix(b) ==> a == b,
{
    if identity_prefix(a) == identity_prefix(b) {
        let n = "spiffe://"@.len() as int;
        let p = identity_prefix(a);
        let q = identity_prefix(b);
        assert(p.len() == n + a.len() + "/"@.len());
        assert(q.len() == n + b.len() + "/"@.len());
        assert(p.subrange(n, n + a.len()) =~= a);
        assert(q.subrange(n, n + b.len()) =~= b);
    }
}

/// Whom a client trusts: the controller and the shared relay of the namespace of the installation,
/// the relay of its own, by their service accounts in the trust domain.
pub proof fn clients_trust_the_installation(
    trust_domain: Seq<char>,
    install: Seq<char>,
    own: Seq<char>,
)
    ensures
        ({
            let p = policy_of(trust_domain, install, own);
            &&& p.trust_domain == trust_domain
            &&& p.install_namespace == install
            &&& p.own_namespace == own
            &&& p.controller_service == "coxswain-controller-discovery"@
            &&& p.controller_sa == "coxswain-controller"@
            &&& p.relay == "coxswain-relay"@
            &&& p.shared_relay == "coxswain-relay-shared"@
        }),
{
}

/// The installation is in the namespace that is named, else in the pod's own.
pub proof fn installation_is_at_home_by_default(named: Option<String>, own: Seq<char>)
    ensures
        named is Some ==> install_namespace(named, own) == named->0@,
        named is None ==> install_namespace(named, own) == own,
{
}

/// What is wrong with an entry of a selector is said with the entry.
pub proof fn broken_entry_is_named(entry: Seq<char>, what: Seq<char>, t: Seq<char>)
    requires
        is_trim(entry, t),
    ensures
        entry_error(entry, what) == "invalid label selector entry "@ + text_debug(t) + what,
{
    lemma_trimmed(entry, t);
}

/// The first broken entry of a selector is the one that is told of.
pub proof fn first_broken_entry_is_told_of(entries: Seq<Seq<char>>, entry: Seq<char>)
    requires
        selector_of(entries) is Ok,
    ensures
        entry_of(entry) is NoValue ==> selector_of(entries.push(entry)) == Err::<
            Map<Seq<char>, Seq<char>>,
            _,
        >(entry_error(entry, ": expected key=value"@)),
        entry_of(entry) is NoKey ==> selector_of(entries.push(entry)) == Err::<
            Map<Seq<char>, Seq<char>>,
            _,
        >(entry_error(entry, ": empty key"@)),
{
    assert(entries.push(entry).drop_last() =~= entries);
}

/// A lease that is renewed too slowly is told of with both periods.
pub proof fn slow_renewal_is_spelled_out(renew: Period, ttl: Period)
    ensures
        slow_renewal(renew, ttl) == "lease_renew_interval ("@ + shown(renew)
            + ") must be at most 1/3 of lease_ttl ("@ + shown(ttl) + ")"@,
{
}

} // verus!
