//! What the status of a ListenerSet says of its listeners.

use vstd::prelude::*;

use crate::conditions::{
    condition_json, condition_json_carries_its_parts, conditions_json, ConditionView,
};
use crate::json::{lemma_member_four, lemma_member_one, lemma_member_two, opt_str, JsonView};
use crate::listener_laws::{
    first_condition_counts, first_entry_counts, has_status, health_is_what_was_recorded,
    is_entry_of, is_first_of, lacks, recorded_as,
};
use crate::listener_status::{source_key, ListenerEntry, ListenerInfo};
use crate::listenerset_status::{
    all_programmed, can_program, first_true, health_of, index_of, is_http, is_tls, kind_info,
    kinds_of, listenerset_current, lost, set_accepted, set_conditions, set_kind_json,
    set_listener_json, set_listener_status, set_listener_statuses, set_patch_json, with_conflict,
    ListenerSet,
};
use crate::resources::{kinds, Listener, RouteKindView};
use crate::route_laws::yes_no;

verus! {

/// The listener hands TLS connections on without ending them.
pub open spec fn hands_tls_on(l: Listener) -> bool {
    l.protocol@ == "TLS"@ && l.tls_passthrough
}

/// The kind is the one of the Gateway API with this name.
pub open spec fn is_api_kind(k: RouteKindView, kind: Seq<char>) -> bool {
    k.kind == kind && (k.group is None || k.group->0 == ""@ || k.group->0
        == "gateway.networking.k8s.io"@)
}

/// The listener lists the kind of the Gateway API with this name.
pub open spec fn lists(l: Listener, kind: Seq<char>) -> bool {
    exists|i: int|
        0 <= i < l.allowed_kinds->0@.len() && is_api_kind(
            (#[trigger] l.allowed_kinds->0@[i])@,
            kind,
        )
}

/// The kind with this name is among the kinds.
pub open spec fn among(k: Seq<RouteKindView>, kind: Seq<char>) -> bool {
    exists|i: int| 0 <= i < k.len() && (#[trigger] k[i]).kind == kind
}

/// A listener supports `HTTPRoute` and `TLSRoute` of the Gateway API and nothing else, and
/// `TLSRoute` only where it hands TLS on. One that lists no kinds supports exactly one of them,
/// by whether it hands TLS on; one that lists kinds supports those of the two that it lists.
pub proof fn supported_kinds_follow_the_listener(l: Listener)
    ensures
        ({
            let k = kind_info(l).1;
            let listed = l.allowed_kinds is Some && l.allowed_kinds->0@.len() > 0;
            &&& forall|i: int|
                0 <= i < k.len() ==> (#[trigger] k[i]).group == Some(
                    "gateway.networking.k8s.io"@,
                ) && (k[i].kind == "HTTPRoute"@ || k[i].kind == "TLSRoute"@)
            &&& !hands_tls_on(l) ==> !among(k, "TLSRoute"@)
            &&& !listed && !hands_tls_on(l) ==> k.len() == 1 && k[0].kind == "HTTPRoute"@
            &&& !listed && hands_tls_on(l) ==> k.len() == 1 && k[0].kind == "TLSRoute"@
            &&& listed ==> (among(k, "HTTPRoute"@) <==> lists(l, "HTTPRoute"@))
            &&& listed && hands_tls_on(l) ==> (among(k, "TLSRoute"@) <==> lists(l, "TLSRoute"@))
            &&& forall|i: int, j: int|
                0 <= i < j < k.len() ==> (#[trigger] k[i]).kind != (#[trigger] k[j]).kind
        }),
{
    reveal_strlit("HTTPRoute");
    reveal_strlit("TLSRoute");
    reveal_strlit("");
    assert("HTTPRoute"@.len() == 9 && "TLSRoute"@.len() == 8);
    lemma_own_kinds();
    let k = kind_info(l).1;
    if l.allowed_kinds is Some && l.allowed_kinds->0@.len() > 0 {
        let v = l.allowed_kinds->0@;
        let a = kinds(v);
        assert(a.len() == v.len());
        assert((exists|i: int| 0 <= i < a.len() && is_http(#[trigger] a[i])) <==> lists(
            l,
            "HTTPRoute"@,
        )) by {
            if exists|i: int| 0 <= i < a.len() && is_http(#[trigger] a[i]) {
                let i = choose|i: int| 0 <= i < a.len() && is_http(#[trigger] a[i]);
                assert(is_api_kind(v[i]@, "HTTPRoute"@));
            }
            if lists(l, "HTTPRoute"@) {
                let i = choose|i: int|
                    0 <= i < v.len() && is_api_kind((#[trigger] v[i])@, "HTTPRoute"@);
                assert(is_http(a[i]));
            }
        }
        assert((exists|i: int| 0 <= i < a.len() && is_tls(#[trigger] a[i])) <==> lists(
            l,
            "TLSRoute"@,
        )) by {
            if exists|i: int| 0 <= i < a.len() && is_tls(#[trigger] a[i]) {
                let i = choose|i: int| 0 <= i < a.len() && is_tls(#[trigger] a[i]);
                assert(is_api_kind(v[i]@, "TLSRoute"@));
            }
            if lists(l, "TLSRoute"@) {
                let i = choose|i: int|
                    0 <= i < v.len() && is_api_kind((#[trigger] v[i])@, "TLSRoute"@);
                assert(is_tls(a[i]));
            }
        }
        if lists(l, "HTTPRoute"@) {
            assert(k[0].kind == "HTTPRoute"@);
        }
        if hands_tls_on(l) && lists(l, "TLSRoute"@) {
            assert(k[k.len() - 1].kind == "TLSRoute"@);
        }
    }
}

proof fn lemma_own_kinds()
    ensures
        forall|k: RouteKindView| #[trigger] is_http(k) == is_api_kind(k, "HTTPRoute"@),
        forall|k: RouteKindView| #[trigger] is_tls(k) == is_api_kind(k, "TLSRoute"@),
{
    reveal_strlit("");
    assert forall|k: RouteKindView| #[trigger] is_http(k) == is_api_kind(k, "HTTPRoute"@) by {
        assert(k.group is Some ==> (k.group->0.len() == 0 <==> k.group->0 =~= ""@));
    }
    assert forall|k: RouteKindView| #[trigger] is_tls(k) == is_api_kind(k, "TLSRoute"@) by {
        assert(k.group is Some ==> (k.group->0.len() == 0 <==> k.group->0 =~= ""@));
    }
}

/// The kinds that a listener lists are invalid exactly if it does not support one of them; a
/// listener that lists none has none invalid.
pub proof fn invalid_kinds_are_those_not_supported(l: Listener)
    ensures
        kind_info(l).0 <==> l.allowed_kinds is Some && exists|i: int|
            0 <= i < l.allowed_kinds->0@.len() && !is_api_kind(
                (#[trigger] l.allowed_kinds->0@[i])@,
                "HTTPRoute"@,
            ) && !(hands_tls_on(l) && is_api_kind(l.allowed_kinds->0@[i]@, "TLSRoute"@)),
{
    lemma_own_kinds();
    if l.allowed_kinds is Some {
        let v = l.allowed_kinds->0@;
        let a = kinds(v);
        assert(a.len() == v.len());
        if kind_info(l).0 {
            let i = choose|i: int|
                0 <= i < a.len() && !is_http(#[trigger] a[i]) && !(hands_tls_on(l) && is_tls(
                    a[i],
                ));
            assert(!is_api_kind(v[i]@, "HTTPRoute"@));
        }
        if exists|i: int|
            0 <= i < v.len() && !is_api_kind((#[trigger] v[i])@, "HTTPRoute"@) && !(hands_tls_on(
                l,
            ) && is_api_kind(v[i]@, "TLSRoute"@)) {
            let i = choose|i: int|
                0 <= i < v.len() && !is_api_kind((#[trigger] v[i])@, "HTTPRoute"@) && !(
                hands_tls_on(l) && is_api_kind(v[i]@, "TLSRoute"@));
            assert(!is_http(a[i]));
        }
    }
}

/// The namespace and name of a ListenerSet.
pub open spec fn set_key(ls: ListenerSet) -> (Seq<char>, Seq<char>) {
    (
        if ls.metadata.namespace is Some {
            ls.metadata.namespace->0@
        } else {
            ""@
        },
        if ls.metadata.name is Some {
            ls.metadata.name->0@
        } else {
            ""@
        },
    )
}

/// A ListenerSet is accepted exactly if it has no listeners or its parent has merged one of its
/// listeners.
pub proof fn accepted_set_was_merged(ls: ListenerSet, e: Seq<ListenerEntry>)
    ensures
        set_accepted(ls, e) <==> ls.listeners@.len() == 0 || exists|i: int|
            0 <= i < e.len() && (#[trigger] e[i]).source is ListenerSet && (
                e[i].source->ListenerSet_0.ns@,
                e[i].source->ListenerSet_0.name@,
            ) == set_key(ls),
{
    if set_accepted(ls, e) && ls.listeners@.len() > 0 {
        let i = choose|i: int|
            0 <= i < e.len() && source_key((#[trigger] e[i]).source) == Some(
                ls.metadata.key_view(),
            );
        assert(e[i].source is ListenerSet);
    }
}

/// A condition that was handed in is written as it is, but for the first `Programmed` of a
/// listener that lost a conflict: that one becomes false, for that reason.
pub open spec fn kept_or_lost(
    j: JsonView,
    base: Seq<ConditionView>,
    m: int,
    conflicted: bool,
) -> bool {
    let b = base[m];
    let taken_back = conflicted && is_first_of(base, "Programmed"@, m);
    &&& j.at("type"@) == JsonView::Str(b.type_)
    &&& j.at("status"@) == JsonView::Str(
        if taken_back {
            "False"@
        } else {
            b.status
        },
    )
    &&& j.at("reason"@) == JsonView::Str(
        if taken_back {
            "HostnameConflict"@
        } else {
            b.reason
        },
    )
    &&& j.at("message"@) == JsonView::Str(
        if taken_back {
            "listener lost a port-compatibility conflict to a higher-precedence listener"@
        } else {
            b.message
        },
    )
    &&& j.at("lastTransitionTime"@) == JsonView::Str(b.last_transition_time)
    &&& j.at("observedGeneration"@) == (if b.observed_generation is Some {
        JsonView::Int(b.observed_generation->0 as int)
    } else {
        JsonView::Null
    })
}

/// The entry of a written status tells of the listener what is recorded of it: how many routes
/// are attached, which kinds it supports, and whether it lost a conflict.
pub open spec fn tells_of_listener(
    j: JsonView,
    l: Listener,
    info: Option<ListenerInfo>,
    base: Seq<ConditionView>,
    generation: int,
    now: Seq<char>,
) -> bool {
    let k = j.at("supportedKinds"@).elements();
    let c = j.at("conditions"@).elements();
    let conflicted = info is Some && info->0.conflicted;
    &&& j.at("name"@) == JsonView::Str(l.name@)
    &&& j.at("attachedRoutes"@) == JsonView::Int(
        if info is Some {
            info->0.attached_routes as int
        } else {
            0
        },
    )
    &&& k.len() == kind_info(l).1.len()
    &&& forall|m: int|
        0 <= m < k.len() ==> (#[trigger] k[m]).at("kind"@) == JsonView::Str(
            kind_info(l).1[m].kind,
        ) && k[m].at("group"@) == opt_str(kind_info(l).1[m].group)
    &&& c.len() == base.len() + 1
    &&& forall|m: int|
        0 <= m < base.len() ==> kept_or_lost(#[trigger] c[m], base, m, conflicted)
    &&& c[base.len() as int].at("type"@) == JsonView::Str("Conflicted"@)
    &&& c[base.len() as int].at("status"@) == JsonView::Str(yes_no(conflicted))
    &&& c[base.len() as int].at("reason"@) == JsonView::Str(
        if conflicted {
            "HostnameConflict"@
        } else {
            "NoConflicts"@
        },
    )
    &&& c[base.len() as int].at("message"@) == JsonView::Str(
        if conflicted {
            "listener lost a port-compatibility conflict to a higher-precedence listener"@
        } else {
            ""@
        },
    )
    &&& c[base.len() as int].at("observedGeneration"@) == JsonView::Int(generation)
    &&& c[base.len() as int].at("lastTransitionTime"@) == JsonView::Str(now)
}

proof fn lemma_kind(k: RouteKindView)
    ensures
        set_kind_json(k).at("kind"@) == JsonView::Str(k.kind),
        set_kind_json(k).at("group"@) == opt_str(k.group),
{
    reveal_strlit("group");
    reveal_strlit("kind");
    assert("group"@.len() == 5 && "kind"@.len() == 4);
    let x = ("group"@, opt_str(k.group));
    let y = ("kind"@, JsonView::Str(k.kind));
    lemma_member_two(x, y, "kind"@);
    lemma_member_two(x, y, "group"@);
}

proof fn lemma_index(c: Seq<ConditionView>, t: Seq<char>)
    ensures
        0 <= index_of(c, t) <= c.len(),
        index_of(c, t) < c.len() ==> is_first_of(c, t, index_of(c, t)),
        index_of(c, t) == c.len() ==> lacks(c, t),
    decreases c.len(),
{
    if c.len() > 0 && c[0].type_ != t {
        let d = c.drop_first();
        lemma_index(d, t);
        assert(forall|j: int| 1 <= j < c.len() ==> #[trigger] c[j] == d[j - 1]);
        let i = index_of(d, t);
        assert(index_of(c, t) == i + 1);
        if i < d.len() {
            assert(d[i] == c[i + 1]);
            assert forall|j: int| 0 <= j < i + 1 implies (#[trigger] c[j]).type_ != t by {
                if j > 0 {
                    assert(c[j] == d[j - 1]);
                }
            }
        }
    }
}

proof fn lemma_first_unique(c: Seq<ConditionView>, t: Seq<char>, i: int, j: int)
    requires
        is_first_of(c, t, i),
        is_first_of(c, t, j),
    ensures
        i == j,
{
    if i < j {
        assert(c[i].type_ != t);
    } else if j < i {
        assert(c[j].type_ != t);
    }
}

proof fn lemma_conflict(
    base: Seq<ConditionView>,
    conflicted: bool,
    generation: i64,
    now: Seq<char>,
    m: int,
)
    requires
        0 <= m < base.len(),
    ensures
        kept_or_lost(
            condition_json(with_conflict(base, conflicted, generation, now)[m]),
            base,
            m,
            conflicted,
        ),
{
    let c = with_conflict(base, conflicted, generation, now);
    condition_json_carries_its_parts(c[m]);
    lemma_index(base, "Programmed"@);
    let i = index_of(base, "Programmed"@);
    if is_first_of(base, "Programmed"@, m) {
        if i < base.len() {
            lemma_first_unique(base, "Programmed"@, i, m);
        } else {
            assert(base[m].type_ != "Programmed"@);
        }
    }
}

proof fn lemma_listener_entry(
    l: Listener,
    info: Option<ListenerInfo>,
    base: Seq<ConditionView>,
    generation: i64,
    now: Seq<char>,
)
    ensures
        tells_of_listener(
            set_listener_json(
                set_listener_status(l, info, base, generation, now),
            ),
            l,
            info,
            base,
            generation as int,
            now,
        ),
{
    reveal_strlit("name");
    reveal_strlit("attachedRoutes");
    reveal_strlit("conditions");
    reveal_strlit("supportedKinds");
    assert("name"@.len() == 4 && "attachedRoutes"@.len() == 14 && "conditions"@.len() == 10
        && "supportedKinds"@.len() == 14);
    assert("attachedRoutes"@[0] == 'a' && "supportedKinds"@[0] == 's');
    let s = set_listener_status(l, info, base, generation, now);
    let k = kinds_of(s);
    let x = ("name"@, JsonView::Str(s.name));
    let y = ("attachedRoutes"@, JsonView::Int(s.attached_routes as int));
    let z = ("supportedKinds"@, JsonView::Arr(Seq::new(k.len(), |i: int| set_kind_json(k[i]))));
    let w = ("conditions"@, conditions_json(s.conditions));
    lemma_member_four(x, y, z, w, "name"@);
    lemma_member_four(x, y, z, w, "attachedRoutes"@);
    lemma_member_four(x, y, z, w, "supportedKinds"@);
    lemma_member_four(x, y, z, w, "conditions"@);
    let j = set_listener_json(s);
    let e = j.at("supportedKinds"@).elements();
    assert forall|m: int| 0 <= m < e.len() implies (#[trigger] e[m]).at("kind"@) == JsonView::Str(
        kind_info(l).1[m].kind,
    ) && e[m].at("group"@) == opt_str(kind_info(l).1[m].group) by {
        lemma_kind(k[m]);
    }
    let c = j.at("conditions"@).elements();
    let conflicted = info is Some && info->0.conflicted;
    lemma_index(base, "Programmed"@);
    assert(s.conditions.len() == base.len() + 1);
    assert forall|m: int| 0 <= m < base.len() implies kept_or_lost(
        #[trigger] c[m],
        base,
        m,
        conflicted,
    ) by {
        lemma_conflict(base, conflicted, generation, now, m);
        assert(c[m] == condition_json(s.conditions[m]));
    }
    let n = base.len() as int;
    assert(c[n] == condition_json(s.conditions[n]));
    condition_json_carries_its_parts(s.conditions[n]);
}

/// The listener at `i` is programmed as far as is known: its first `Programmed` condition is
/// true, and it lost no conflict.
pub open spec fn is_programmed(
    base: Seq<ConditionView>,
    info: Option<ListenerInfo>,
) -> bool {
    has_status(base, "Programmed"@, "True"@) && !(info is Some && info->0.conflicted)
}

proof fn lemma_programmed(
    base: Seq<ConditionView>,
    info: Option<ListenerInfo>,
    generation: i64,
    now: Seq<char>,
)
    ensures
        has_status(
            with_conflict(base, lost(info), generation, now),
            "Programmed"@,
            "True"@,
        ) <==> is_programmed(base, info),
{
    reveal_strlit("Programmed");
    reveal_strlit("Conflicted");
    reveal_strlit("True");
    reveal_strlit("False");
    assert("Programmed"@[0] == 'P' && "Conflicted"@[0] == 'C');
    assert("True"@.len() == 4 && "False"@.len() == 5);
    let t = "Programmed"@;
    let c = with_conflict(base, lost(info), generation, now);
    lemma_index(base, t);
    let i = index_of(base, t);
    assert forall|m: int| 0 <= m < base.len() implies (#[trigger] c[m]).type_ == base[m].type_ by {}
    assert(c[base.len() as int].type_ != t);
    if has_status(c, t, "True"@) {
        let m = choose|m: int| #[trigger] is_first_of(c, t, m) && c[m].status == "True"@;
        assert(m < base.len());
        assert forall|j: int| 0 <= j < m implies (#[trigger] base[j]).type_ != t by {
            assert(c[j].type_ == base[j].type_);
        }
        lemma_first_unique(base, t, i, m);
    }
    if is_programmed(base, info) {
        let m = choose|m: int| #[trigger] is_first_of(base, t, m) && base[m].status == "True"@;
        assert(c[m] == base[m]);
        assert(is_first_of(c, t, m));
    }
}

/// The patch of a ListenerSet tells of each of its listeners, in their order, what is recorded of
/// it; `Accepted` is true exactly if the set is accepted, and `Programmed` exactly if moreover
/// each of its listeners is programmed.
pub proof fn listenerset_patch_tells_what_is_recorded(
    ls: ListenerSet,
    e: Seq<ListenerEntry>,
    accepted: bool,
    bases: Seq<Seq<ConditionView>>,
    infos: Seq<Option<ListenerInfo>>,
    generation: i64,
    now: Seq<char>,
)
    requires
        bases.len() == ls.listeners@.len(),
        infos.len() == ls.listeners@.len(),
        forall|i: int|
            0 <= i < infos.len() ==> recorded_as(
                e,
                Some(set_key(ls)),
                ls.listeners@[i].name@,
                #[trigger] infos[i],
            ),
    ensures
        ({
            let l = set_listener_statuses(ls, e, bases, generation, now);
            let j = set_patch_json(
                set_conditions(accepted, all_programmed(l), generation, now),
                l,
            ).at("status"@);
            let c = j.at("conditions"@).elements();
            let s = j.at("listeners"@).elements();
            let programmed = accepted && forall|i: int|
                0 <= i < infos.len() ==> is_programmed(bases[i], #[trigger] infos[i]);
            &&& s.len() == ls.listeners@.len()
            &&& forall|i: int|
                0 <= i < s.len() ==> tells_of_listener(
                    #[trigger] s[i],
                    ls.listeners@[i],
                    infos[i],
                    bases[i],
                    generation as int,
                    now,
                )
            &&& c.len() == 2
            &&& c[0].at("type"@) == JsonView::Str("Accepted"@)
            &&& c[0].at("status"@) == JsonView::Str(yes_no(accepted))
            &&& c[0].at("reason"@) == JsonView::Str(
                if accepted {
                    "Accepted"@
                } else {
                    "NotAllowed"@
                },
            )
            &&& c[0].at("message"@) == JsonView::Str(
                if accepted {
                    ""@
                } else {
                    "the parent Gateway's spec.allowedListeners does not permit this ListenerSet"@
                },
            )
            &&& c[0].at("observedGeneration"@) == JsonView::Int(generation as int)
            &&& c[0].at("lastTransitionTime"@) == JsonView::Str(now)
            &&& c[1].at("type"@) == JsonView::Str("Programmed"@)
            &&& c[1].at("status"@) == JsonView::Str(yes_no(programmed))
            &&& c[1].at("reason"@) == JsonView::Str(
                if programmed {
                    "Programmed"@
                } else if accepted {
                    "Invalid"@
                } else {
                    "Pending"@
                },
            )
            &&& c[1].at("message"@) == JsonView::Str(
                if programmed {
                    ""@
                } else if accepted {
                    "one or more listeners are not programmed"@
                } else {
                    "ListenerSet not accepted by the parent Gateway"@
                },
            )
            &&& c[1].at("observedGeneration"@) == JsonView::Int(generation as int)
            &&& c[1].at("lastTransitionTime"@) == JsonView::Str(now)
        }),
{
    reveal_strlit("conditions");
    reveal_strlit("listeners");
    assert("conditions"@.len() == 10 && "listeners"@.len() == 9);
    let l = set_listener_statuses(ls, e, bases, generation, now);
    let top = set_conditions(accepted, all_programmed(l), generation, now);
    let x = ("conditions"@, conditions_json(top));
    let y = ("listeners"@, JsonView::Arr(Seq::new(l.len(), |i: int| set_listener_json(l[i]))));
    lemma_member_two(x, y, "conditions"@);
    lemma_member_two(x, y, "listeners"@);
    lemma_member_one(("status"@, JsonView::Obj(seq![x, y])), "status"@);
    let j = set_patch_json(top, l).at("status"@);
    let s = j.at("listeners"@).elements();
    assert forall|i: int| 0 <= i < l.len() implies tells_of_listener(
        #[trigger] s[i],
        ls.listeners@[i],
        infos[i],
        bases[i],
        generation as int,
        now,
    ) && (has_status(l[i].conditions, "Programmed"@, "True"@) <==> is_programmed(
        bases[i],
        infos[i],
    )) by {
        assert(recorded_as(e, Some(set_key(ls)), ls.listeners@[i].name@, infos[i]));
        health_is_what_was_recorded(e, Some(set_key(ls)), ls.listeners@[i].name@, infos[i]);
        lemma_listener_entry(ls.listeners@[i], infos[i], bases[i], generation, now);
        lemma_programmed(bases[i], infos[i], generation, now);
        assert(s[i] == set_listener_json(l[i]));
    }
    assert(all_programmed(l) <==> forall|i: int|
        0 <= i < infos.len() ==> is_programmed(bases[i], #[trigger] infos[i])) by {
        if all_programmed(l) {
            assert forall|i: int| 0 <= i < infos.len() implies is_programmed(
                bases[i],
                #[trigger] infos[i],
            ) by {
                assert(s[i] == set_listener_json(l[i]));
                first_condition_counts(l[i].conditions, "Programmed"@, ""@, ""@);
            }
        }
        if forall|i: int|
            0 <= i < infos.len() ==> is_programmed(bases[i], #[trigger] infos[i]) {
            assert forall|i: int| 0 <= i < l.len() implies first_true(
                (#[trigger] l[i]).conditions,
                "Programmed"@,
            ) by {
                assert(s[i] == set_listener_json(l[i]));
                assert(is_programmed(bases[i], infos[i]));
                first_condition_counts(l[i].conditions, "Programmed"@, ""@, ""@);
            }
        }
    }
    let c = j.at("conditions"@).elements();
    assert(c[0] == condition_json(top[0]));
    assert(c[1] == condition_json(top[1]));
    condition_json_carries_its_parts(top[0]);
    condition_json_carries_its_parts(top[1]);
}

/// A listener can be programmed: nothing is recorded against it.
pub open spec fn is_fit(info: Option<ListenerInfo>) -> bool {
    info is Some ==> info->0.healthy && !info->0.conflicted
}

/// A ListenerSet that needs no patch reports each of its listeners as it is recorded: as many
/// routes attached, and `ResolvedRefs`, `Accepted`, `Programmed` and `Conflicted` true exactly
/// where the record says so; nothing that it reports is from an older generation.
pub proof fn settled_listenerset_reports_its_listeners(
    ls: ListenerSet,
    e: Seq<ListenerEntry>,
    accepted: bool,
    i: int,
    info: Option<ListenerInfo>,
) -> (k: int)
    requires
        listenerset_current(ls, e, accepted),
        0 <= i < ls.listeners@.len(),
        recorded_as(e, Some(set_key(ls)), ls.listeners@[i].name@, info),
    ensures
        is_entry_of(ls.listener_statuses(), ls.listeners@[i].name@, k),
        ({
            let x = ls.listener_statuses()[k];
            &&& x.attached_routes == if info is Some {
                info->0.attached_routes as int
            } else {
                0
            }
            &&& has_status(x.conditions, "ResolvedRefs"@, "True"@) <==> !kind_info(
                ls.listeners@[i],
            ).0 && (info is Some ==> info->0.healthy)
            &&& has_status(x.conditions, "Accepted"@, "True"@) <==> !(info is Some
                && info->0.unsupported)
            &&& has_status(x.conditions, "Programmed"@, "True"@) <==> is_fit(info)
            &&& has_status(x.conditions, "Conflicted"@, "True"@) <==> info is Some
                && info->0.conflicted
            &&& forall|m: int|
                0 <= m < x.conditions.len() ==> (#[trigger] x.conditions[m]).gen()
                    >= ls.metadata.gen()
        }),
{
    let l = ls.listeners@[i];
    health_is_what_was_recorded(e, Some(set_key(ls)), l.name@, info);
    assert(health_of(ls, e, l) == info);
    let k = first_entry_counts(ls.listener_statuses(), l.name@);
    let x = ls.listener_statuses()[k];
    first_condition_counts(x.conditions, "ResolvedRefs"@, ""@, ""@);
    first_condition_counts(x.conditions, "Accepted"@, ""@, ""@);
    first_condition_counts(x.conditions, "Programmed"@, ""@, ""@);
    first_condition_counts(x.conditions, "Conflicted"@, ""@, ""@);
    k
}

/// A ListenerSet that needs no patch says of itself that it is accepted exactly if it is, and that
/// it is programmed exactly if moreover all of its listeners can be; it has as many entries as
/// listeners, and nothing that it says is from an older generation.
pub proof fn settled_listenerset_reports_itself(
    ls: ListenerSet,
    e: Seq<ListenerEntry>,
    accepted: bool,
    infos: Seq<Option<ListenerInfo>>,
)
    requires
        listenerset_current(ls, e, accepted),
        infos.len() == ls.listeners@.len(),
        forall|i: int|
            0 <= i < infos.len() ==> recorded_as(
                e,
                Some(set_key(ls)),
                ls.listeners@[i].name@,
                #[trigger] infos[i],
            ),
    ensures
        has_status(ls.conds(), "Accepted"@, "True"@) <==> accepted,
        has_status(ls.conds(), "Programmed"@, "True"@) <==> accepted && forall|i: int|
            0 <= i < infos.len() ==> is_fit(#[trigger] infos[i]),
        ls.listener_statuses().len() == ls.listeners@.len(),
        forall|m: int|
            0 <= m < ls.conds().len() ==> (#[trigger] ls.conds()[m]).gen() >= ls.metadata.gen(),
{
    first_condition_counts(ls.conds(), "Accepted"@, ""@, ""@);
    first_condition_counts(ls.conds(), "Programmed"@, ""@, ""@);
    let spec = ls.listeners@;
    assert forall|i: int| 0 <= i < spec.len() implies health_of(ls, e, #[trigger] spec[i])
        == infos[i] by {
        assert(recorded_as(e, Some(set_key(ls)), spec[i].name@, infos[i]));
        health_is_what_was_recorded(e, Some(set_key(ls)), spec[i].name@, infos[i]);
    }
    if forall|i: int| 0 <= i < spec.len() ==> can_program(health_of(ls, e, #[trigger] spec[i])) {
        assert forall|i: int| 0 <= i < infos.len() implies is_fit(#[trigger] infos[i]) by {
            assert(can_program(health_of(ls, e, spec[i])));
        }
    }
    if forall|i: int| 0 <= i < infos.len() ==> is_fit(#[trigger] infos[i]) {
        assert forall|i: int| 0 <= i < spec.len() implies can_program(
            health_of(ls, e, #[trigger] spec[i]),
        ) by {
            assert(is_fit(infos[i]));
        }
    }
}

} // verus!
