//! What holds of the TLS policies as a whole: their order of precedence, and who has the say.

use vstd::prelude::*;
use vstd::seq_lib::{
    to_multiset_build, to_multiset_contains, to_multiset_insert, to_multiset_len,
    to_multiset_remove,
};

use crate::backend_tls::{refs_fine, BackendTlsPolicy, ConfigMap, HealthView, TlsConfigView};
use crate::backend_tls_index::{
    by_precedence, config_of, earlier, index_of, label, policy_key, precedes, slot, taken,
    target_of,
};
use crate::text::{text_order_is_irreflexive, text_order_is_total, text_order_is_transitive};

verus! {

proof fn lemma_asymmetric(a: BackendTlsPolicy, b: BackendTlsPolicy)
    requires
        precedes(a, b),
    ensures
        !precedes(b, a),
{
    if precedes(b, a) {
        text_order_is_transitive(label(a), label(b), label(a));
        text_order_is_irreflexive(label(a));
    }
}

proof fn lemma_chain(a: BackendTlsPolicy, b: BackendTlsPolicy, c: BackendTlsPolicy)
    requires
        !precedes(a, b),
        !precedes(b, c),
    ensures
        !precedes(a, c),
{
    if precedes(a, c) {
        if a.created == b.created && b.created == c.created {
            text_order_is_total(label(a), label(b));
            text_order_is_total(label(b), label(c));
            text_order_is_irreflexive(label(a));
            if label(a) == label(b) {
            } else if label(b) == label(c) {
            } else {
                text_order_is_transitive(label(b), label(a), label(c));
            }
        }
    }
}

/// No policy comes behind one that it precedes.
pub open spec fn ordered(s: Seq<BackendTlsPolicy>) -> bool {
    forall|i: int, j: int| 0 <= i < j < s.len() ==> !precedes(#[trigger] s[j], #[trigger] s[i])
}

proof fn lemma_slot(s: Seq<BackendTlsPolicy>, p: BackendTlsPolicy)
    ensures
        0 <= slot(s, p) <= s.len(),
        forall|j: int| slot(s, p) <= j < s.len() ==> precedes(p, #[trigger] s[j]),
        slot(s, p) > 0 ==> !precedes(p, s[slot(s, p) - 1]),
    decreases s.len(),
{
    if s.len() > 0 && precedes(p, s.last()) {
        lemma_slot(s.drop_last(), p);
        assert forall|j: int| slot(s, p) <= j < s.len() implies precedes(p, #[trigger] s[j]) by {
            if j < s.len() - 1 {
                assert(s.drop_last()[j] == s[j]);
            }
        }
    }
}

proof fn lemma_insert_keeps_order(s: Seq<BackendTlsPolicy>, p: BackendTlsPolicy)
    requires
        ordered(s),
    ensures
        ordered(s.insert(slot(s, p), p)),
{
    let k = slot(s, p);
    lemma_slot(s, p);
    let r = s.insert(k, p);
    assert forall|i: int, j: int| 0 <= i < j < r.len() implies !precedes(
        #[trigger] r[j],
        #[trigger] r[i],
    ) by {
        if i == k {
            assert(r[j] == s[j - 1]);
            lemma_asymmetric(p, s[j - 1]);
        } else if j == k {
            assert(r[i] == s[i]);
            if i < k - 1 {
                lemma_chain(p, s[k - 1], s[i]);
            }
        } else {
            let x = if i < k {
                i
            } else {
                i - 1
            };
            let y = if j < k {
                j
            } else {
                j - 1
            };
            assert(r[i] == s[x]);
            assert(r[j] == s[y]);
        }
    }
}

/// The order of precedence lists the same policies, none behind one that it precedes.
pub proof fn precedence_sorts(s: Seq<BackendTlsPolicy>)
    ensures
        ordered(by_precedence(s)),
        by_precedence(s).to_multiset() == s.to_multiset(),
    decreases s.len(),
{
    if s.len() == 0 {
        assert(by_precedence(s) =~= s);
    } else {
        let rest = by_precedence(s.drop_last());
        precedence_sorts(s.drop_last());
        lemma_insert_keeps_order(rest, s.last());
        lemma_slot(rest, s.last());
        to_multiset_insert(rest, slot(rest, s.last()), s.last());
        to_multiset_build(s.drop_last(), s.last());
        assert(s.drop_last().push(s.last()) =~= s);
    }
}

/// No two policies have the same `namespace/name`.
pub open spec fn labels_apart(s: Seq<BackendTlsPolicy>) -> bool {
    forall|i: int, j: int|
        0 <= i < j < s.len() ==> label(#[trigger] s[i]) != label(#[trigger] s[j])
}

proof fn lemma_one_order(s: Seq<BackendTlsPolicy>, t: Seq<BackendTlsPolicy>)
    requires
        ordered(s),
        ordered(t),
        s.to_multiset() == t.to_multiset(),
        labels_apart(s),
        labels_apart(t),
    ensures
        s == t,
    decreases s.len(),
{
    to_multiset_len(s);
    to_multiset_len(t);
    if s.len() == 0 {
        assert(s =~= t);
    } else {
        let a = s[0];
        let b = t[0];
        to_multiset_contains(s, a);
        to_multiset_contains(t, a);
        to_multiset_contains(s, b);
        to_multiset_contains(t, b);
        assert(s.contains(a));
        assert(t.contains(b));
        let j = choose|j: int| 0 <= j < t.len() && t[j] == a;
        let k = choose|k: int| 0 <= k < s.len() && s[k] == b;
        if j > 0 {
            assert(!precedes(t[j], t[0]));
            assert(label(t[0]) != label(t[j]));
            assert(k > 0);
            assert(!precedes(s[k], s[0]));
            text_order_is_total(label(a), label(b));
        }
        assert(a == b);
        to_multiset_remove(s, 0);
        to_multiset_remove(t, 0);
        let x = s.remove(0);
        let y = t.remove(0);
        assert forall|i: int, m: int| 0 <= i < m < x.len() implies !precedes(
            #[trigger] x[m],
            #[trigger] x[i],
        ) && label(x[i]) != label(x[m]) by {
            assert(x[i] == s[i + 1]);
            assert(x[m] == s[m + 1]);
        }
        assert forall|i: int, m: int| 0 <= i < m < y.len() implies !precedes(
            #[trigger] y[m],
            #[trigger] y[i],
        ) && label(y[i]) != label(y[m]) by {
            assert(y[i] == t[i + 1]);
            assert(y[m] == t[m + 1]);
        }
        lemma_one_order(x, y);
        assert forall|i: int| 0 <= i < s.len() implies s[i] == t[i] by {
            if i > 0 {
                assert(s[i] == x[i - 1]);
                assert(t[i] == y[i - 1]);
            }
        }
        assert(s =~= t);
    }
}

proof fn lemma_labels_follow(s: Seq<BackendTlsPolicy>, t: Seq<BackendTlsPolicy>)
    requires
        s.to_multiset() == t.to_multiset(),
        labels_apart(s),
    ensures
        labels_apart(t),
    decreases s.len(),
{
    to_multiset_len(s);
    to_multiset_len(t);
    if s.len() > 0 {
        let a = s[0];
        to_multiset_contains(s, a);
        to_multiset_contains(t, a);
        assert(s.contains(a));
        let j = choose|j: int| 0 <= j < t.len() && t[j] == a;
        to_multiset_remove(s, 0);
        to_multiset_remove(t, j);
        let x = s.remove(0);
        let y = t.remove(j);
        assert forall|i: int, m: int| 0 <= i < m < x.len() implies label(#[trigger] x[i]) != label(
            #[trigger] x[m],
        ) by {
            assert(x[i] == s[i + 1]);
            assert(x[m] == s[m + 1]);
        }
        lemma_labels_follow(x, y);
        assert forall|m: int| 0 <= m < y.len() implies label(#[trigger] y[m]) != label(a) by {
            to_multiset_contains(x, y[m]);
            to_multiset_contains(y, y[m]);
            assert(y.contains(y[m]));
            let n = choose|n: int| 0 <= n < x.len() && x[n] == y[m];
            assert(x[n] == s[n + 1]);
            assert(label(s[0]) != label(s[n + 1]));
        }
        assert forall|i: int, m: int| 0 <= i < m < t.len() implies label(#[trigger] t[i]) != label(
            #[trigger] t[m],
        ) by {
            let u = if i < j {
                i
            } else {
                i - 1
            };
            let v = if m < j {
                m
            } else {
                m - 1
            };
            if i == j {
                assert(t[m] == y[v]);
            } else if m == j {
                assert(t[i] == y[u]);
            } else {
                assert(t[i] == y[u]);
                assert(t[m] == y[v]);
            }
        }
    }
}

/// The order of precedence does not depend on the order in which the policies are listed, provided
/// that no two have the same `namespace/name`.
pub proof fn precedence_ignores_the_listing(s: Seq<BackendTlsPolicy>, t: Seq<BackendTlsPolicy>)
    requires
        s.to_multiset() == t.to_multiset(),
        labels_apart(s),
    ensures
        by_precedence(s) == by_precedence(t),
{
    precedence_sorts(s);
    precedence_sorts(t);
    lemma_labels_follow(s, by_precedence(s));
    lemma_labels_follow(s, by_precedence(t));
    lemma_one_order(by_precedence(s), by_precedence(t));
}

/// The policy is fit to have the say over the target `k`.
pub open spec fn fit_for(
    p: BackendTlsPolicy,
    k: (Seq<char>, Seq<char>, Option<Seq<char>>),
    configmaps: Map<(Seq<char>, Seq<char>), ConfigMap>,
    system_ca: bool,
) -> bool {
    target_of(p) == Ok::<(Seq<char>, Seq<char>, Option<Seq<char>>), HealthView>(k) && config_of(
        p,
        configmaps,
        system_ca,
    ) is Ok
}

/// Among the first `n` policies, one is fit to have the say over `k`.
pub open spec fn spoken_for(
    s: Seq<BackendTlsPolicy>,
    n: int,
    k: (Seq<char>, Seq<char>, Option<Seq<char>>),
    configmaps: Map<(Seq<char>, Seq<char>), ConfigMap>,
    system_ca: bool,
) -> bool {
    exists|i: int| 0 <= i < n && fit_for(#[trigger] s[i], k, configmaps, system_ca)
}

/// A target has settings exactly if some policy is fit for it, and those of the first such policy.
pub proof fn first_fit_policy_has_the_say(
    s: Seq<BackendTlsPolicy>,
    k: (Seq<char>, Seq<char>, Option<Seq<char>>),
    configmaps: Map<(Seq<char>, Seq<char>), ConfigMap>,
    system_ca: bool,
)
    ensures
        index_of(s, configmaps, system_ca).claims.contains_key(k) <==> spoken_for(
            s,
            s.len() as int,
            k,
            configmaps,
            system_ca,
        ),
        forall|i: int|
            0 <= i < s.len() && fit_for(#[trigger] s[i], k, configmaps, system_ca) && !spoken_for(
                s,
                i,
                k,
                configmaps,
                system_ca,
            ) ==> config_of(s[i], configmaps, system_ca) == Ok::<TlsConfigView, HealthView>(
                index_of(s, configmaps, system_ca).claims[k],
            ),
    decreases s.len(),
{
    if s.len() > 0 {
        let r = s.drop_last();
        let n = r.len() as int;
        first_fit_policy_has_the_say(r, k, configmaps, system_ca);
        assert(forall|i: int| 0 <= i < n ==> #[trigger] r[i] == s[i]);
        assert(spoken_for(r, n, k, configmaps, system_ca) == spoken_for(
            s,
            n,
            k,
            configmaps,
            system_ca,
        )) by {
            if spoken_for(s, n, k, configmaps, system_ca) {
                let i = choose|i: int|
                    0 <= i < n && fit_for(#[trigger] s[i], k, configmaps, system_ca);
                assert(fit_for(r[i], k, configmaps, system_ca));
            }
        }
        assert(spoken_for(s, n + 1, k, configmaps, system_ca) == (spoken_for(
            s,
            n,
            k,
            configmaps,
            system_ca,
        ) || fit_for(s[n], k, configmaps, system_ca))) by {
            if fit_for(s[n], k, configmaps, system_ca) {
                assert(spoken_for(s, n + 1, k, configmaps, system_ca));
            }
        }
        assert forall|i: int|
            0 <= i < s.len() && fit_for(#[trigger] s[i], k, configmaps, system_ca) && !spoken_for(
                s,
                i,
                k,
                configmaps,
                system_ca,
            ) implies config_of(s[i], configmaps, system_ca) == Ok::<TlsConfigView, HealthView>(
            index_of(s, configmaps, system_ca).claims[k],
        ) by {
            if i < n {
                assert(r[i] == s[i]);
                assert(!spoken_for(r, i, k, configmaps, system_ca)) by {
                    if spoken_for(r, i, k, configmaps, system_ca) {
                        let j = choose|j: int|
                            0 <= j < i && fit_for(#[trigger] r[j], k, configmaps, system_ca);
                        assert(fit_for(s[j], k, configmaps, system_ca));
                    }
                }
                assert(spoken_for(s, n, k, configmaps, system_ca));
            }
        }
    }
}

/// No two policies have the same key.
pub open spec fn keys_apart(s: Seq<BackendTlsPolicy>) -> bool {
    forall|i: int, j: int|
        0 <= i < j < s.len() ==> policy_key(#[trigger] s[i]) != policy_key(#[trigger] s[j])
}

/// What is said of the policy at `i`: that its target is unusable; else that an earlier policy has
/// the say there; else what is wrong with it; else that it is accepted.
pub open spec fn verdict(
    s: Seq<BackendTlsPolicy>,
    i: int,
    configmaps: Map<(Seq<char>, Seq<char>), ConfigMap>,
    system_ca: bool,
) -> HealthView {
    match target_of(s[i]) {
        Err(h) => h,
        Ok(k) => if spoken_for(s, i, k, configmaps, system_ca) {
            taken(k)
        } else {
            match config_of(s[i], configmaps, system_ca) {
                Err(h) => h,
                Ok(_) => refs_fine(true, "Accepted"@, ""@),
            }
        },
    }
}

/// The policy at `i` is attached to a Service: its target is usable, and no earlier policy has the
/// say there.
pub open spec fn attached(
    s: Seq<BackendTlsPolicy>,
    i: int,
    configmaps: Map<(Seq<char>, Seq<char>), ConfigMap>,
    system_ca: bool,
) -> bool {
    target_of(s[i]) is Ok && !spoken_for(s, i, target_of(s[i])->Ok_0, configmaps, system_ca)
}

/// Each policy gets its own verdict, and is attached to the Service that it targets exactly if its
/// target is usable and no earlier policy has the say there.
pub proof fn each_policy_gets_its_verdict(
    s: Seq<BackendTlsPolicy>,
    i: int,
    configmaps: Map<(Seq<char>, Seq<char>), ConfigMap>,
    system_ca: bool,
)
    requires
        keys_apart(s),
        0 <= i < s.len(),
    ensures
        index_of(s, configmaps, system_ca).health.contains_key(policy_key(s[i])),
        index_of(s, configmaps, system_ca).health[policy_key(s[i])] == verdict(
            s,
            i,
            configmaps,
            system_ca,
        ),
        index_of(s, configmaps, system_ca).targets.contains_key(policy_key(s[i])) <==> attached(
            s,
            i,
            configmaps,
            system_ca,
        ),
        attached(s, i, configmaps, system_ca) ==> index_of(
            s,
            configmaps,
            system_ca,
        ).targets[policy_key(s[i])] == (
            target_of(s[i])->Ok_0.0,
            target_of(s[i])->Ok_0.1,
        ),
    decreases s.len(),
{
    let r = s.drop_last();
    let n = r.len() as int;
    assert(forall|j: int| 0 <= j < n ==> #[trigger] r[j] == s[j]);
    if i < n {
        assert forall|a: int, b: int| 0 <= a < b < r.len() implies policy_key(#[trigger] r[a])
            != policy_key(#[trigger] r[b]) by {
            assert(r[a] == s[a]);
            assert(r[b] == s[b]);
        }
        each_policy_gets_its_verdict(r, i, configmaps, system_ca);
        assert(policy_key(s[i]) != policy_key(s[n]));
        if target_of(s[i]) is Ok {
            lemma_prefix_spoken_for(s, r, i, target_of(s[i])->Ok_0, configmaps, system_ca);
        }
    } else {
        if target_of(s[i]) is Ok {
            let k = target_of(s[i])->Ok_0;
            first_fit_policy_has_the_say(r, k, configmaps, system_ca);
            lemma_prefix_spoken_for(s, r, n, k, configmaps, system_ca);
        }
        only_policies_are_reported(r, policy_key(s[n]), configmaps, system_ca);
    }
}

proof fn lemma_prefix_spoken_for(
    s: Seq<BackendTlsPolicy>,
    r: Seq<BackendTlsPolicy>,
    n: int,
    k: (Seq<char>, Seq<char>, Option<Seq<char>>),
    configmaps: Map<(Seq<char>, Seq<char>), ConfigMap>,
    system_ca: bool,
)
    requires
        forall|j: int| 0 <= j < n ==> #[trigger] r[j] == s[j],
    ensures
        spoken_for(s, n, k, configmaps, system_ca) == spoken_for(r, n, k, configmaps, system_ca),
{
    if spoken_for(s, n, k, configmaps, system_ca) {
        let i = choose|i: int| 0 <= i < n && fit_for(#[trigger] s[i], k, configmaps, system_ca);
        assert(fit_for(r[i], k, configmaps, system_ca));
    }
    if spoken_for(r, n, k, configmaps, system_ca) {
        let i = choose|i: int| 0 <= i < n && fit_for(#[trigger] r[i], k, configmaps, system_ca);
        assert(fit_for(s[i], k, configmaps, system_ca));
    }
}

/// Nothing is said of, and nothing attached for, what is no policy.
pub proof fn only_policies_are_reported(
    s: Seq<BackendTlsPolicy>,
    key: (Seq<char>, Seq<char>),
    configmaps: Map<(Seq<char>, Seq<char>), ConfigMap>,
    system_ca: bool,
)
    requires
        forall|i: int| 0 <= i < s.len() ==> policy_key(#[trigger] s[i]) != key,
    ensures
        !index_of(s, configmaps, system_ca).health.contains_key(key),
        !index_of(s, configmaps, system_ca).targets.contains_key(key),
    decreases s.len(),
{
    if s.len() > 0 {
        let r = s.drop_last();
        assert forall|i: int| 0 <= i < r.len() implies policy_key(#[trigger] r[i]) != key by {
            assert(r[i] == s[i]);
        }
        only_policies_are_reported(r, key, configmaps, system_ca);
        assert(policy_key(s[s.len() - 1]) != key);
    }
}

/// Settings that agree in server name and CA source have the same key, so that their connections
/// are pooled together.
pub proof fn like_policies_share_a_pool(
    p: BackendTlsPolicy,
    q: BackendTlsPolicy,
    configmaps: Map<(Seq<char>, Seq<char>), ConfigMap>,
    system_ca: bool,
)
    requires
        config_of(p, configmaps, system_ca) is Ok,
        config_of(q, configmaps, system_ca) is Ok,
        config_of(p, configmaps, system_ca)->Ok_0.sni == config_of(
            q,
            configmaps,
            system_ca,
        )->Ok_0.sni,
        config_of(p, configmaps, system_ca)->Ok_0.ca == config_of(
            q,
            configmaps,
            system_ca,
        )->Ok_0.ca,
    ensures
        config_of(p, configmaps, system_ca)->Ok_0.group_key == config_of(
            q,
            configmaps,
            system_ca,
        )->Ok_0.group_key,
{
}

} // verus!
